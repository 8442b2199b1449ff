//! The builder: a session put together field by field.

use vstd::prelude::*;
use crate::secret::{Context, MasterKey};
use crate::session::{generate_context, generate_key, Session, SessionView};

verus! {

/// What a builder holds, as plain values: each field is set or not.
pub struct BuilderView {
    pub index: Option<u64>,
    pub context: Option<Seq<u8>>,
    pub key: Option<Seq<u8>>,
}

impl BuilderView {
    /// The builder in which nothing is set.
    pub open spec fn empty() -> BuilderView {
        BuilderView { index: None, context: None, key: None }
    }

    /// The session that lenient finalization yields: a missing number
    /// counts as zero and a missing context as the all-zero context, but
    /// without a key there is no session.
    pub open spec fn lenient(self) -> Option<SessionView> {
        match self.key {
            Some(key) => Some(
                SessionView {
                    index: match self.index {
                        Some(index) => index,
                        None => 0,
                    },
                    context: match self.context {
                        Some(context) => context,
                        None => Context::zero_view(),
                    },
                    key,
                },
            ),
            None => None,
        }
    }

    /// One flag per field, in the order number, context, key: `true` where
    /// the field is not set.
    pub open spec fn missing(self) -> Seq<bool> {
        seq![self.index is None, self.context is None, self.key is None]
    }

    /// Whether all three fields are set.
    pub open spec fn complete(self) -> bool {
        self.index is Some && self.context is Some && self.key is Some
    }

    /// The result of strict finalization: the session made of the three
    /// fields, or the flags of the fields that are not set.
    pub open spec fn strict(self) -> Result<SessionView, Seq<bool>> {
        if self.complete() {
            Ok(
                SessionView {
                    index: self.index->0,
                    context: self.context->0,
                    key: self.key->0,
                },
            )
        } else {
            Err(self.missing())
        }
    }
}

/// A builder for [`Session`]s.
pub struct SessionBuilder {
    index: Option<u64>,
    context: Option<Context>,
    key: Option<MasterKey>,
}

impl View for SessionBuilder {
    type V = BuilderView;

    closed spec fn view(&self) -> BuilderView {
        BuilderView {
            index: self.index,
            context: match self.context {
                Some(context) => Some(context@),
                None => None,
            },
            key: match self.key {
                Some(key) => Some(key@),
                None => None,
            },
        }
    }
}

impl SessionBuilder {
    /// Creates a new `SessionBuilder` with no field set.
    pub fn new() -> (builder: SessionBuilder)
        ensures
            builder@ == BuilderView::empty(),
    {
        SessionBuilder { index: None, context: None, key: None }
    }

    /// Sets the number of the first subkey, overriding one if it was already
    /// set.
    pub fn index(&mut self, i: u64) -> (builder: &mut SessionBuilder)
        ensures
            builder@ == (BuilderView { index: Some(i), ..old(self)@ }),
            *final(self) == *final(builder),
    {
        self.index = Some(i);
        self
    }

    /// Sets the key, overriding one if it was already set.
    pub fn key(&mut self, key: MasterKey) -> (builder: &mut SessionBuilder)
        ensures
            builder@ == (BuilderView { key: Some(key@), ..old(self)@ }),
            *final(self) == *final(builder),
    {
        self.key = Some(key);
        self
    }

    /// Sets the key to a random value, overriding one if it was already set.
    /// The call panics if the operating system's random number generator
    /// fails.
    pub fn random_key(&mut self) -> (builder: &mut SessionBuilder)
        ensures
            builder@.key is Some,
            builder@.index == old(self)@.index,
            builder@.context == old(self)@.context,
            *final(self) == *final(builder),
    {
        self.key(generate_key())
    }

    /// Sets the context, overriding one if it was already set.
    pub fn context(&mut self, context: Context) -> (builder: &mut SessionBuilder)
        ensures
            builder@ == (BuilderView { context: Some(context@), ..old(self)@ }),
            *final(self) == *final(builder),
    {
        self.context = Some(context);
        self
    }

    /// Sets the context to a random value, overriding one if it was already
    /// set. The call panics if the operating system's random number generator
    /// fails.
    pub fn random_context(&mut self) -> (builder: &mut SessionBuilder)
        ensures
            builder@.context is Some,
            builder@.index == old(self)@.index,
            builder@.key == old(self)@.key,
            *final(self) == *final(builder),
    {
        self.context(generate_context())
    }

    /// Attempts to build a session, filling in the all-zero context and the
    /// number zero where they were not set. Without a key there is no
    /// session.
    pub fn build(&self) -> (session: Option<Session>)
        ensures
            match session {
                Some(s) => self@.lenient() == Some(s@),
                None => self@.lenient() is None,
            },
    {
        let index: u64 = match self.index {
            Some(index) => index,
            None => 0,
        };
        let context: Context = match self.context {
            Some(context) => context,
            None => Context::zero(),
        };
        match &self.key {
            Some(key) => Some(Session::assemble(index, context, key.duplicate())),
            None => None,
        }
    }

    /// Attempts to build a session and fails unless all three fields are
    /// set. The failure holds one flag per field, in the order number,
    /// context, key: `true` where the field was missing.
    pub fn build_full(&self) -> (session: Result<Session, [bool; 3]>)
        ensures
            match session {
                Ok(s) => self@.strict() == Ok::<SessionView, Seq<bool>>(s@),
                Err(flags) => self@.strict() == Err::<SessionView, Seq<bool>>(flags@),
            },
    {
        let outs: [bool; 3] = [self.index.is_none(), self.context.is_none(), self.key.is_none()];
        match (&self.index, &self.context, &self.key) {
            (Some(index), Some(context), Some(key)) => Ok(
                Session::assemble(*index, *context, key.duplicate()),
            ),
            _ => {
                assert(outs@ =~= self@.missing());
                Err(outs)
            },
        }
    }
}

/// Lenient finalization fails exactly when no key is set; with nothing but a
/// key it gives that key with the number zero and the all-zero context.
pub proof fn lemma_lenient_defaults(fields: BuilderView)
    ensures
        fields.key is None <==> fields.lenient() is None,
        fields.key is Some && fields.index is None && fields.context is None ==> fields.lenient()
            == Some(SessionView { index: 0, context: Context::zero_view(), key: fields.key->0 }),
{
}

/// Strict finalization of a builder with nothing but a key fails and flags
/// the number and the context as missing, the key as present. In general it
/// fails exactly when a field is missing, and flags just the missing ones.
pub proof fn lemma_strict_flags(fields: BuilderView)
    ensures
        fields.strict() is Err <==> !fields.complete(),
        fields.strict() matches Err(flags) ==> flags.len() == 3 && flags[0] == (fields.index
            is None) && flags[1] == (fields.context is None) && flags[2] == (fields.key is None),
        fields.key is Some && fields.index is None && fields.context is None ==> fields.strict()
            == Err::<SessionView, Seq<bool>>(seq![true, true, false]),
{
    if fields.key is Some && fields.index is None && fields.context is None {
        assert(fields.missing() =~= seq![true, true, false]);
    }
}

} // verus!
