//! The estimator's window on the outside crates it leans on: the keyed
//! hash, the byte counter, and the random key source.  Each item here is
//! trusted: its contract states what the outside code does, and nothing
//! more is assumed of it.

use vstd::prelude::*;

verus! {

/// What SipHash-1-3 returns for a string hashed under a key pair.  The
/// result is a pure function of the two keys and the text: the same keys
/// and the same string give the same hash in every process, which is what
/// makes two counters built from the same keys mergeable.
pub uninterp spec fn sip13_of(key0: u64, key1: u64, s: Seq<char>) -> u64;

/// Relies on siphasher's `SipHasher13`: the hasher is seeded by the two
/// keys alone, and hashing a `str` through std's `Hash` feeds exactly the
/// string's bytes (plus a fixed terminator) into it, so the finished value
/// depends on the keys and the text and on nothing else.
#[verifier::external_body]
pub(crate) fn sip13_hash_str(key0: u64, key1: u64, value: &str) -> (r: u64)
    ensures
        r == sip13_of(key0, key1, value@),
{
    let mut hasher = siphasher::sip::SipHasher13::new_with_keys(key0, key1);
    std::hash::Hash::hash(value, &mut hasher);
    std::hash::Hasher::finish(&hasher)
}

/// Relies on `bytecount::count`: it returns the number of bytes in the
/// slice that equal the needle.
#[verifier::external_body]
pub(crate) fn count_byte(haystack: &Vec<u8>, needle: u8) -> (r: usize)
    ensures
        r as nat == crate::model::count_eq(haystack@, needle),
{
    bytecount::count(haystack.as_slice(), needle)
}

/// Relies on `rand::random`: it draws a value from the standard
/// distribution.  Nothing is promised of the result.
pub assume_specification<T>[ rand::random::<T> ]() -> (r: T)
    where
        rand::distributions::Standard: rand::distributions::Distribution<T>,
;

} // verus!
