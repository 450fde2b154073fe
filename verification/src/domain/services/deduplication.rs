//! Hash-based detection of repeated clipboard content.
use vstd::prelude::*;
use std::hash::BuildHasher;

verus! {

/// The hash that std's `DefaultHasher::new()` gives of a string.
pub uninterp spec fn std_hash_of_str(s: Seq<char>) -> u64;

/// The hash that std's `DefaultHasher::new()` gives of a byte slice.
pub uninterp spec fn std_hash_of_bytes(b: Seq<u8>) -> u64;

/// Hashes `text` with std's `BuildHasher::hash_one` on the builder of
/// `DefaultHasher::new()` hashers (`Hash for str`, then `Hasher::finish`).
/// Such hashers all start from the same keys, so the contract claims that the
/// hash is a function of the text.
#[verifier::external_body]
fn default_hash_str(text: &str) -> (r: u64)
    ensures
        r == std_hash_of_str(text@),
{
    std::hash::BuildHasherDefault::<std::collections::hash_map::DefaultHasher>::default().hash_one(text)
}

/// Hashes `bytes` with std's `BuildHasher::hash_one` on the builder of
/// `DefaultHasher::new()` hashers (`Hash for [u8]`, then `Hasher::finish`).
/// Such hashers all start from the same keys, so the contract claims that the
/// hash is a function of the bytes.
#[verifier::external_body]
pub(crate) fn default_hash_bytes(bytes: &[u8]) -> (r: u64)
    ensures
        r == std_hash_of_bytes(bytes@),
{
    std::hash::BuildHasherDefault::<std::collections::hash_map::DefaultHasher>::default().hash_one(bytes)
}

/// Tells repeated clipboard content by its hash.
pub struct DeduplicationService;

impl DeduplicationService {
    pub fn compute_text_hash(text: &str) -> (r: u64)
        ensures
            r == std_hash_of_str(text@),
    {
        default_hash_str(text)
    }

    pub fn compute_bytes_hash(bytes: &[u8]) -> (r: u64)
        ensures
            r == std_hash_of_bytes(bytes@),
    {
        default_hash_bytes(bytes)
    }

    /// Whether two texts hash alike; equal texts always do.
    pub fn is_duplicate_text(current: &str, last: &str) -> (r: bool)
        ensures
            r == (std_hash_of_str(current@) == std_hash_of_str(last@)),
            current@ == last@ ==> r,
    {
        Self::compute_text_hash(current) == Self::compute_text_hash(last)
    }

    /// Whether two byte strings hash alike; equal ones always do.
    pub fn is_duplicate_bytes(current: &[u8], last: &[u8]) -> (r: bool)
        ensures
            r == (std_hash_of_bytes(current@) == std_hash_of_bytes(last@)),
            current@ == last@ ==> r,
    {
        Self::compute_bytes_hash(current) == Self::compute_bytes_hash(last)
    }
}

} // verus!

