//! The last nonce that each chip has had accepted.

use crate::counters::{counter, Counters};
use vstd::prelude::*;

verus! {

/// The last accepted nonce per chip public key. A key that is absent has
/// never been used and counts as nonce zero.
pub struct NonceRegistry {
    last: Counters,
}

impl View for NonceRegistry {
    type V = Map<Seq<u8>, u32>;

    closed spec fn view(&self) -> Map<Seq<u8>, u32> {
        self.last@
    }
}

impl NonceRegistry {
    /// The registry in which no chip has been used.
    pub fn new() -> (registry: NonceRegistry)
        ensures
            registry@ == Map::<Seq<u8>, u32>::empty(),
    {
        NonceRegistry { last: Counters::new() }
    }

    /// The last nonce accepted for `public_key`, zero if there is none.
    pub fn get_nonce(&self, public_key: &[u8; 65]) -> (nonce: u32)
        ensures
            nonce == counter(self@, public_key@),
    {
        self.last.get(public_key.as_slice())
    }

    /// Records `new_value` as the last nonce accepted for `public_key`. The
    /// nonce of a key only ever grows.
    pub(crate) fn advance_nonce(&mut self, public_key: &[u8; 65], new_value: u32)
        requires
            new_value > counter(old(self)@, public_key@),
        ensures
            final(self)@ == old(self)@.insert(public_key@, new_value),
    {
        self.last.set(public_key.as_slice(), new_value);
    }
}

} // verus!
