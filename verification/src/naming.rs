//! Deterministic, length-bounded chain names.
//!
//! A chain name is a fixed role prefix followed by at most
//! [`MAX_HASH_SIZE`] characters of the network hash, so that the full name
//! stays under the platform's chain-name ceiling however long the hash is.
use vstd::prelude::*;
use vstd::string::*;

verus! {

/// Greatest number of hash characters that may enter a chain name.
pub const MAX_HASH_SIZE: usize = 13;

/// Platform ceiling on the length of a chain name.
pub const MAX_CHAIN_NAME_LEN: usize = 28;

/// The hash portion contributed to a chain name: the hash itself, cut to
/// [`MAX_HASH_SIZE`] characters.
pub open spec fn spec_truncated_hash(hash: Seq<char>) -> Seq<char> {
    if hash.len() <= MAX_HASH_SIZE {
        hash
    } else {
        hash.subrange(0, MAX_HASH_SIZE as int)
    }
}

/// The chain name derived from a role prefix and a network hash.
pub open spec fn spec_chain_name(prefix: Seq<char>, hash: Seq<char>) -> Seq<char> {
    prefix + spec_truncated_hash(hash)
}

/// The hash contributes at most [`MAX_HASH_SIZE`] characters, so any prefix
/// short enough keeps every generated name under the platform ceiling,
/// whatever the hash's own length.
pub proof fn lemma_chain_name_length_bound(prefix: Seq<char>, hash: Seq<char>)
    requires
        prefix.len() + MAX_HASH_SIZE <= MAX_CHAIN_NAME_LEN,
    ensures
        spec_truncated_hash(hash).len() <= MAX_HASH_SIZE,
        spec_chain_name(prefix, hash).len() <= MAX_CHAIN_NAME_LEN,
{
}

/// The name is a function of the prefix and the hash alone: equal inputs give
/// equal names, so retried setup calls target the chains they created before.
pub proof fn lemma_chain_name_deterministic(
    n1: Seq<char>,
    n2: Seq<char>,
    prefix: Seq<char>,
    hash: Seq<char>,
)
    requires
        n1 == spec_chain_name(prefix, hash),
        n2 == spec_chain_name(prefix, hash),
    ensures
        n1 == n2,
{
}

/// Builds the chain name for one role prefix and one network hash.
pub fn chain_name(prefix: &str, hash: &str) -> (r: String)
    ensures
        r@ == spec_chain_name(prefix@, hash@),
        r@.len() <= prefix@.len() + MAX_HASH_SIZE,
{
    let n = hash.unicode_len();
    let truncated = if n > MAX_HASH_SIZE {
        hash.substring_char(0, MAX_HASH_SIZE)
    } else {
        hash
    };
    let r = String::from_str(prefix).concat(truncated);
    r
}

} // verus!
