//! The session: a master key, a context and the number of the next subkey.

use std::cmp::Ordering;
use vstd::prelude::*;
use crate::bytes::{bytes_order, lex_sign};
use crate::primitive::{
    derive_from_key, derived_subkey, fill_random, DERIVED_KEY_BYTES_MAX, DERIVED_KEY_BYTES_MIN,
};
use crate::secret::{
    order_of, ordering_from_sign, Context, MasterKey, CONTEXT_BYTES, MASTER_KEY_BYTES,
};

verus! {

/// Why a call for the next subkey produced none.
#[derive(Clone, Copy, Debug, PartialEq, Eq, Structural)]
pub enum KdfError {
    /// The buffer is shorter than [`DERIVED_KEY_BYTES_MIN`] or longer than
    /// [`DERIVED_KEY_BYTES_MAX`].
    InvalidOutputLength,
    /// The counter stands at `u64::MAX`. That number is never handed out, so
    /// that the counter can neither wrap nor issue one number twice.
    IndexExhausted,
    /// The derivation primitive reported a failure. [`Session::settle`]
    /// answers a failed derivation with it; the primitive that
    /// [`Session::generate_next_key`] calls does not fail on a buffer of an
    /// accepted length.
    Backend,
}

/// What a session is made of, as plain values.
pub struct SessionView {
    pub index: u64,
    pub context: Seq<u8>,
    pub key: Seq<u8>,
}

impl SessionView {
    /// Whether a buffer of `len` bytes can take a subkey.
    pub open spec fn length_ok(len: nat) -> bool {
        DERIVED_KEY_BYTES_MIN <= len <= DERIVED_KEY_BYTES_MAX
    }

    /// The checks made before the primitive is called: the error they raise,
    /// if any.
    pub open spec fn refusal(self, len: nat) -> Option<KdfError> {
        if !Self::length_ok(len) {
            Some(KdfError::InvalidOutputLength)
        } else if self.index == u64::MAX {
            Some(KdfError::IndexExhausted)
        } else {
            None
        }
    }

    /// What a call with a buffer of `len` bytes returns: the error of the
    /// checks, or else the session's current number.
    pub open spec fn answer(self, len: nat) -> Result<u64, KdfError> {
        match self.refusal(len) {
            Some(error) => Err(error),
            None => Ok(self.index),
        }
    }

    /// The session once its current number has been used.
    pub open spec fn advanced(self) -> SessionView
        recommends
            self.index < u64::MAX,
    {
        SessionView { index: (self.index + 1) as u64, context: self.context, key: self.key }
    }

    /// The subkey of `len` bytes that belongs to the session's current number.
    pub open spec fn current_subkey(self, len: nat) -> Seq<u8> {
        derived_subkey(len, self.index, self.context, self.key)
    }

    /// What a call returns once the primitive has reported `derived`.
    pub open spec fn outcome(self, derived: bool) -> Result<u64, KdfError> {
        if self.index == u64::MAX {
            Err(KdfError::IndexExhausted)
        } else if derived {
            Ok(self.index)
        } else {
            Err(KdfError::Backend)
        }
    }

    /// The session after a call that returned `result`: its number moves on
    /// by one exactly when a subkey was produced.
    pub open spec fn after(self, result: Result<u64, KdfError>) -> SessionView {
        if result is Ok {
            self.advanced()
        } else {
            self
        }
    }
}

/// How session `a` stands to session `b`: the number decides, then the
/// context, then the key. See [`lex_sign`] for the signs.
pub open spec fn session_sign(a: SessionView, b: SessionView) -> int {
    if a.index < b.index {
        -1
    } else if a.index > b.index {
        1
    } else if lex_sign(a.context, b.context) != 0 {
        lex_sign(a.context, b.context)
    } else {
        lex_sign(a.key, b.key)
    }
}

/// A session for generating subkeys, one per number, in order.
///
/// Sessions are ordered by their number, then their context, then their key.
#[derive(Hash, Ord)]
pub struct Session {
    index: u64,
    context: Context,
    key: MasterKey,
}

impl View for Session {
    type V = SessionView;

    closed spec fn view(&self) -> SessionView {
        SessionView { index: self.index, context: self.context@, key: self.key@ }
    }
}

impl Session {
    /// A session that will hand out `index` next.
    pub(crate) fn assemble(index: u64, context: Context, key: MasterKey) -> (session: Session)
        ensures
            session@ == (SessionView { index, context: context@, key: key@ }),
    {
        Session { index, context, key }
    }

    /// The number of the subkey that the next successful call produces.
    pub fn index(&self) -> (index: u64)
        ensures
            index == self@.index,
    {
        self.index
    }

    /// The session's context.
    pub fn context(&self) -> (context: &Context)
        ensures
            context@ == self@.context,
    {
        &self.context
    }

    /// The session's master key.
    pub fn key(&self) -> (key: &MasterKey)
        ensures
            key@ == self@.key,
    {
        &self.key
    }

    /// Books the primitive's report for the session's current number: on
    /// success the number is returned and the counter moves on by one, on
    /// failure the counter stays. A session whose counter stands at
    /// `u64::MAX` returns [`KdfError::IndexExhausted`] whatever was reported.
    pub fn settle(&mut self, derived: bool) -> (result: Result<u64, KdfError>)
        ensures
            result == old(self)@.outcome(derived),
            final(self)@ == old(self)@.after(result),
    {
        if self.index == u64::MAX {
            return Err(KdfError::IndexExhausted);
        }
        if !derived {
            return Err(KdfError::Backend);
        }
        let used: u64 = self.index;
        self.index = used + 1;
        Ok(used)
    }

    /// Attempts to fill `buffer` with the next subkey in the sequence.
    ///
    /// A buffer shorter than [`DERIVED_KEY_BYTES_MIN`] or longer than
    /// [`DERIVED_KEY_BYTES_MAX`] is refused before anything else happens, and
    /// so is a call on a session whose counter stands at `u64::MAX`; neither
    /// the session nor the buffer changes then. Otherwise the buffer receives
    /// the subkey of the current number, that number is returned, and the
    /// counter moves on by one.
    pub fn generate_next_key(&mut self, buffer: &mut [u8]) -> (result: Result<u64, KdfError>)
        ensures
            result == old(self)@.answer(old(buffer)@.len()),
            final(self)@ == old(self)@.after(result),
            final(buffer)@.len() == old(buffer)@.len(),
            result is Ok ==> final(buffer)@ == old(self)@.current_subkey(old(buffer)@.len()),
            result is Err ==> final(buffer)@ == old(buffer)@,
    {
        let len: usize = buffer.len();
        if len < DERIVED_KEY_BYTES_MIN || DERIVED_KEY_BYTES_MAX < len {
            return Err(KdfError::InvalidOutputLength);
        }
        if self.index == u64::MAX {
            return Err(KdfError::IndexExhausted);
        }
        let derived: bool = derive_from_key(buffer, self.index, &self.context, &self.key);
        self.settle(derived)
    }
}

impl PartialEq for Session {
    /// Two sessions are equal when they agree on the next number, the context
    /// and the key. The keys are compared in full whatever the rest gave.
    fn eq(&self, other: &Session) -> (same: bool) {
        let same_key: bool = self.key == other.key;
        let same_context: bool = self.context == other.context;
        self.index == other.index && same_context && same_key
    }
}

impl Eq for Session {

}

impl vstd::std_specs::cmp::PartialEqSpecImpl for Session {
    open spec fn obeys_eq_spec() -> bool {
        true
    }

    open spec fn eq_spec(&self, other: &Session) -> bool {
        self@ == other@
    }
}

impl PartialOrd for Session {
    /// Orders the two sessions. The keys are compared in full whatever the
    /// rest gave.
    fn partial_cmp(&self, other: &Session) -> (order: Option<Ordering>) {
        let by_key: i8 = bytes_order(&self.key.0, &other.key.0);
        let by_context: i8 = bytes_order(&self.context.0, &other.context.0);
        let sign: i8 = if self.index < other.index {
            -1
        } else if self.index > other.index {
            1
        } else if by_context != 0 {
            by_context
        } else {
            by_key
        };
        Some(ordering_from_sign(sign))
    }
}

impl vstd::std_specs::cmp::PartialOrdSpecImpl for Session {
    open spec fn obeys_partial_cmp_spec() -> bool {
        true
    }

    open spec fn partial_cmp_spec(&self, other: &Session) -> Option<Ordering> {
        Some(order_of(session_sign(self@, other@)))
    }
}

/// Generates a random [`MasterKey`].
///
/// The bytes come from the operating system's random number generator. The
/// call panics if that generator fails.
pub fn generate_key() -> (key: MasterKey)
    ensures
        key@.len() == MASTER_KEY_BYTES,
{
    let mut key = MasterKey([0u8; MASTER_KEY_BYTES]);
    fill_random(&mut key.0);
    key
}

/// Generates a random [`Context`].
///
/// The bytes come from the operating system's random number generator. The
/// call panics if that generator fails.
pub fn generate_context() -> (context: Context)
    ensures
        context@.len() == CONTEXT_BYTES,
{
    let mut context = Context([0u8; CONTEXT_BYTES]);
    fill_random(&mut context.0);
    context
}

/// One successful call: it takes the session from `before` to `after` and
/// leaves `subkey` in a buffer of `len` bytes.
pub open spec fn derives(before: SessionView, len: nat, after: SessionView, subkey: Seq<u8>) -> bool {
    &&& before.answer(len) is Ok
    &&& after == before.after(before.answer(len))
    &&& subkey == before.current_subkey(len)
}

/// A run of successful calls, all with buffers of `len` bytes: `states`
/// holds the session before the first call and after each call, `subkeys`
/// what each call left in its buffer.
pub open spec fn is_run(states: Seq<SessionView>, len: nat, subkeys: Seq<Seq<u8>>) -> bool {
    &&& states.len() == subkeys.len() + 1
    &&& forall|i: int|
        0 <= i < subkeys.len() ==> derives(#[trigger] states[i], len, states[i + 1], subkeys[i])
}

/// Two runs from equal sessions pass through equal sessions.
proof fn lemma_runs_stay_together(
    a: Seq<SessionView>,
    b: Seq<SessionView>,
    len: nat,
    subkeys_a: Seq<Seq<u8>>,
    subkeys_b: Seq<Seq<u8>>,
    i: int,
)
    requires
        is_run(a, len, subkeys_a),
        is_run(b, len, subkeys_b),
        a[0] == b[0],
        0 <= i <= subkeys_a.len(),
        0 <= i <= subkeys_b.len(),
    ensures
        a[i] == b[i],
    decreases i,
{
    if i > 0 {
        lemma_runs_stay_together(a, b, len, subkeys_a, subkeys_b, i - 1);
        assert(derives(a[i - 1], len, a[i - 1 + 1], subkeys_a[i - 1]));
        assert(derives(b[i - 1], len, b[i - 1 + 1], subkeys_b[i - 1]));
    }
}

/// Two sessions with the same key and the same context that start at the
/// same number, such as zero, produce the same subkeys call after call, for
/// any number of calls and any one buffer length.
pub proof fn lemma_same_start_same_subkeys(
    a: Seq<SessionView>,
    b: Seq<SessionView>,
    len: nat,
    subkeys_a: Seq<Seq<u8>>,
    subkeys_b: Seq<Seq<u8>>,
)
    requires
        is_run(a, len, subkeys_a),
        is_run(b, len, subkeys_b),
        subkeys_a.len() == subkeys_b.len(),
        a[0].key == b[0].key,
        a[0].context == b[0].context,
        a[0].index == b[0].index,
    ensures
        subkeys_a == subkeys_b,
        a == b,
{
    assert forall|i: int| 0 <= i < subkeys_a.len() implies subkeys_a[i] == subkeys_b[i] by {
        lemma_runs_stay_together(a, b, len, subkeys_a, subkeys_b, i);
        assert(derives(a[i], len, a[i + 1], subkeys_a[i]));
        assert(derives(b[i], len, b[i + 1], subkeys_b[i]));
    }
    assert(subkeys_a =~= subkeys_b);
    assert forall|i: int| 0 <= i < a.len() implies a[i] == b[i] by {
        lemma_runs_stay_together(a, b, len, subkeys_a, subkeys_b, i);
    }
    assert(a =~= b);
}

/// A call with a buffer of a length out of range fails and leaves the
/// session as it was, so that the next call with a buffer of a length in
/// range returns the number that was current before both.
pub proof fn lemma_refused_call_keeps_number(session: SessionView, bad: nat, good: nat)
    requires
        !SessionView::length_ok(bad),
        SessionView::length_ok(good),
        session.index < u64::MAX,
    ensures
        session.answer(bad) == Err::<u64, KdfError>(KdfError::InvalidOutputLength),
        session.after(session.answer(bad)) == session,
        session.after(session.answer(bad)).answer(good) == Ok::<u64, KdfError>(session.index),
{
}

} // verus!
