//! The keyed hash of byte strings.

use vstd::prelude::*;
use siphasher::sip::SipHasher13;

verus! {

/// The SipHash-1-3 of `data` under the key (0, 0).
pub uninterp spec fn sip13_digest(data: Seq<u8>) -> u64;

/// `siphasher::sip::SipHasher13::hash` on a hasher made by
/// `SipHasher13::new`: the SipHash-1-3 of `data` under the key (0, 0). The
/// hash is a function of the bytes alone; it is named, not spelled out.
#[verifier::external_body]
pub(crate) fn sip13(data: &[u8]) -> (r: u64)
    ensures
        r == sip13_digest(data@),
{
    SipHasher13::new().hash(data)
}

} // verus!
