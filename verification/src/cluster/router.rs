//! Routing keys to shards.

use vstd::prelude::*;
use vstd::bytes::spec_u64_to_le_bytes;
use vstd::bytes::u64_to_le_bytes;
use crate::hashing::sip13;
use crate::hashing::sip13_digest;
use crate::octets::append_bytes;

verus! {

/// What is hashed for the key `key`: the key's length in 8 bytes,
/// little-endian, then the key.
pub open spec fn hash_input(key: Seq<u8>) -> Seq<u8> {
    spec_u64_to_le_bytes(key.len() as u64) + key
}

/// The shard, of `shards` shards, that the key `key` goes to.
pub open spec fn route_of(key: Seq<u8>, shards: usize) -> usize {
    ((sip13_digest(hash_input(key)) as usize) % shards) as usize
}

/// The router: a pure function from key to shard.
#[derive(Debug, Clone, Copy)]
pub struct ShardRouter {
    num_shards: usize,
}

impl ShardRouter {
    #[verifier::type_invariant]
    spec fn well_formed(&self) -> bool {
        self.num_shards > 0
    }

    /// The number of shards.
    pub closed spec fn shards(&self) -> usize {
        self.num_shards
    }

    /// A router for `num_shards` shards.
    pub fn new(num_shards: usize) -> (r: Self)
        requires
            num_shards > 0,
        ensures
            r.shards() == num_shards,
    {
        ShardRouter { num_shards }
    }

    /// The shard that `key` goes to.
    pub fn route_key(&self, key: &[u8]) -> (r: usize)
        ensures
            r == route_of(key@, self.shards()),
            r < self.shards(),
    {
        proof {
            use_type_invariant(self);
        }
        let hash = self.hash_key(key);
        (hash as usize) % self.num_shards
    }

    fn hash_key(&self, key: &[u8]) -> (r: u64)
        ensures
            r == sip13_digest(hash_input(key@)),
    {
        let mut input = u64_to_le_bytes(key.len() as u64);
        append_bytes(&mut input, key);
        sip13(input.as_slice())
    }

    /// The number of shards.
    pub fn num_shards(&self) -> (r: usize)
        ensures
            r == self.shards(),
            r > 0,
    {
        proof {
            use_type_invariant(self);
        }
        self.num_shards
    }
}

/// Routing is a function of the key and the number of shards: the same key
/// always goes to the same shard, and with one shard every key goes to
/// shard 0.
pub proof fn lemma_routing(a: Seq<u8>, b: Seq<u8>, shards: usize)
    requires
        shards > 0,
    ensures
        a == b ==> route_of(a, shards) == route_of(b, shards),
        route_of(a, shards) < shards,
        shards == 1 ==> route_of(a, shards) == 0,
{
}

} // verus!
