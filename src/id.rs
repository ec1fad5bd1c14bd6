//! The identifier handed out for each registered handler.

use vstd::prelude::*;

verus! {

/// The number of random bytes in a handler identifier: enough that an
/// identifier can neither be guessed nor collide by chance.
pub const HANDLER_ID_BYTES: usize = 32;

/// An identifier made of random bytes. Two identifiers are equal exactly when
/// their bytes are.
#[derive(Clone, Copy, Hash)]
pub struct HandlerId {
    bytes: [u8; HANDLER_ID_BYTES],
}

impl View for HandlerId {
    type V = Seq<u8>;

    closed spec fn view(&self) -> Seq<u8> {
        self.bytes@
    }
}

/// Relies on rand::random, which draws from the thread-local generator
/// seeded by the operating system. Nothing is promised of the bytes.
#[verifier::external_body]
fn random_id_bytes() -> (r: [u8; HANDLER_ID_BYTES]) {
    rand::random()
}

impl HandlerId {
    /// Draws a fresh identifier from a cryptographically strong source.
    pub(crate) fn new() -> (r: HandlerId)
        ensures
            r@.len() == HANDLER_ID_BYTES,
    {
        HandlerId::from_bytes(random_id_bytes())
    }

    /// The identifier made of the given bytes.
    pub fn from_bytes(bytes: [u8; HANDLER_ID_BYTES]) -> (r: HandlerId)
        ensures
            r@ == bytes@,
    {
        HandlerId { bytes }
    }

    /// Byte-wise comparison of two identifiers.
    pub fn same_as(&self, other: &HandlerId) -> (r: bool)
        ensures
            r == (self@ == other@),
    {
        let mut i: usize = 0;
        while i < HANDLER_ID_BYTES
            invariant
                0 <= i <= HANDLER_ID_BYTES,
                self@.len() == HANDLER_ID_BYTES,
                other@.len() == HANDLER_ID_BYTES,
                forall|j: int| 0 <= j < i ==> self@[j] == other@[j],
            decreases HANDLER_ID_BYTES - i,
        {
            if self.bytes[i] != other.bytes[i] {
                return false;
            }
            i = i + 1;
        }
        assert(self@ =~= other@);
        true
    }
}

impl PartialEq for HandlerId {
    fn eq(&self, other: &HandlerId) -> (r: bool) {
        self.same_as(other)
    }
}

impl vstd::std_specs::cmp::PartialEqSpecImpl for HandlerId {
    open spec fn obeys_eq_spec() -> bool {
        true
    }

    open spec fn eq_spec(&self, other: &HandlerId) -> bool {
        self@ == other@
    }
}

impl Eq for HandlerId {
}

} // verus!
