//! Fixed-size byte containers: the master key and the context tag.

use std::cmp::Ordering;
use vstd::prelude::*;
use crate::bytes::{array_from_slice, bytes_equal, bytes_order, lex_sign};
use crate::primitive::scrub;

verus! {

/// Number of bytes in a [`MasterKey`].
pub const MASTER_KEY_BYTES: usize = 32;

/// Number of bytes in a [`Context`].
pub const CONTEXT_BYTES: usize = 8;

/// The ordering that a sign stands for: below zero for less, zero for equal,
/// above zero for greater.
pub open spec fn order_of(sign: int) -> Ordering {
    if sign < 0 {
        Ordering::Less
    } else if sign == 0 {
        Ordering::Equal
    } else {
        Ordering::Greater
    }
}

/// The ordering that a sign stands for.
pub fn ordering_from_sign(sign: i8) -> (order: Ordering)
    ensures
        sign < 0 ==> order == Ordering::Less,
        sign == 0 ==> order == Ordering::Equal,
        sign > 0 ==> order == Ordering::Greater,
{
    if sign < 0 {
        Ordering::Less
    } else if sign == 0 {
        Ordering::Equal
    } else {
        Ordering::Greater
    }
}

/// The master secret from which a session derives its subkeys.
///
/// Keys are compared byte by byte in the order of the dictionary. `==`, `<`
/// and their kin take the same time whatever the keys hold; `Ord::cmp`, which
/// sorting and ordered collections call, is the plain derived comparison.
#[derive(Clone, Hash, Ord)]
pub struct MasterKey(pub [u8; MASTER_KEY_BYTES]);

impl View for MasterKey {
    type V = Seq<u8>;

    open spec fn view(&self) -> Seq<u8> {
        self.0@
    }
}

impl MasterKey {
    /// Imports a key from `bytes`, which must hold exactly
    /// [`MASTER_KEY_BYTES`] bytes.
    pub fn from_slice(bytes: &[u8]) -> (key: Option<MasterKey>)
        ensures
            key is Some <==> bytes@.len() == MASTER_KEY_BYTES,
            key matches Some(k) ==> k@ == bytes@,
    {
        match array_from_slice::<MASTER_KEY_BYTES>(bytes) {
            Some(array) => Some(MasterKey(array)),
            None => None,
        }
    }

    /// Overwrites the key with zeros. This also happens by itself when a key
    /// is dropped.
    pub fn erase(&mut self)
        ensures
            final(self)@ == Seq::new(MASTER_KEY_BYTES as nat, |i: int| 0u8),
        opens_invariants none
        no_unwind
    {
        scrub(&mut self.0);
    }

    /// A second key holding the same bytes.
    pub fn duplicate(&self) -> (copy: MasterKey)
        ensures
            copy == *self,
    {
        MasterKey(self.0)
    }
}

impl Drop for MasterKey {
    /// Erases the key before its memory is given back.
    fn drop(&mut self)
        ensures
            final(self)@ == Seq::new(MASTER_KEY_BYTES as nat, |i: int| 0u8),
        opens_invariants none
        no_unwind
    {
        self.erase();
    }
}

impl PartialEq for MasterKey {
    /// Compares the two keys without stopping at the first difference.
    fn eq(&self, other: &MasterKey) -> (same: bool) {
        bytes_equal(&self.0, &other.0)
    }
}

impl Eq for MasterKey {

}

impl vstd::std_specs::cmp::PartialEqSpecImpl for MasterKey {
    open spec fn obeys_eq_spec() -> bool {
        true
    }

    open spec fn eq_spec(&self, other: &MasterKey) -> bool {
        self@ == other@
    }
}

impl PartialOrd for MasterKey {
    /// Orders the two keys without stopping at the first difference.
    fn partial_cmp(&self, other: &MasterKey) -> (order: Option<Ordering>) {
        Some(ordering_from_sign(bytes_order(&self.0, &other.0)))
    }
}

impl vstd::std_specs::cmp::PartialOrdSpecImpl for MasterKey {
    open spec fn obeys_partial_cmp_spec() -> bool {
        true
    }

    open spec fn partial_cmp_spec(&self, other: &MasterKey) -> Option<Ordering> {
        Some(order_of(lex_sign(self@, other@)))
    }
}

/// The tag that separates one family of subkeys from another. It need not be
/// secret and may be as plain as an application label. Contexts are compared
/// as keys are.
#[derive(Clone, Copy, Debug, Hash, Ord)]
pub struct Context(pub [u8; CONTEXT_BYTES]);

impl View for Context {
    type V = Seq<u8>;

    open spec fn view(&self) -> Seq<u8> {
        self.0@
    }
}

impl Context {
    /// The bytes of the context that stands in where none was chosen.
    pub open spec fn zero_view() -> Seq<u8> {
        Seq::new(CONTEXT_BYTES as nat, |i: int| 0u8)
    }

    /// The context whose bytes are all zero.
    pub fn zero() -> (context: Context)
        ensures
            context@ == Context::zero_view(),
    {
        let context = Context([0u8; CONTEXT_BYTES]);
        assert(context@ =~= Context::zero_view());
        context
    }

    /// Imports a context from `bytes`, which must hold exactly
    /// [`CONTEXT_BYTES`] bytes.
    pub fn from_slice(bytes: &[u8]) -> (context: Option<Context>)
        ensures
            context is Some <==> bytes@.len() == CONTEXT_BYTES,
            context matches Some(c) ==> c@ == bytes@,
    {
        match array_from_slice::<CONTEXT_BYTES>(bytes) {
            Some(array) => Some(Context(array)),
            None => None,
        }
    }
}

impl PartialEq for Context {
    /// Compares the two contexts without stopping at the first difference.
    fn eq(&self, other: &Context) -> (same: bool) {
        bytes_equal(&self.0, &other.0)
    }
}

impl Eq for Context {

}

impl vstd::std_specs::cmp::PartialEqSpecImpl for Context {
    open spec fn obeys_eq_spec() -> bool {
        true
    }

    open spec fn eq_spec(&self, other: &Context) -> bool {
        self@ == other@
    }
}

impl PartialOrd for Context {
    /// Orders the two contexts without stopping at the first difference.
    fn partial_cmp(&self, other: &Context) -> (order: Option<Ordering>) {
        Some(ordering_from_sign(bytes_order(&self.0, &other.0)))
    }
}

impl vstd::std_specs::cmp::PartialOrdSpecImpl for Context {
    open spec fn obeys_partial_cmp_spec() -> bool {
        true
    }

    open spec fn partial_cmp_spec(&self, other: &Context) -> Option<Ordering> {
        Some(order_of(lex_sign(self@, other@)))
    }
}

} // verus!
