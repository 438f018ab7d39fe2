//! Cache keys: the lowercase hexadecimal SHA-256 digest of a source text.

use vstd::prelude::*;
use vstd::string::*;
use sha2::{Digest, Sha256};
use std::collections::HashSet;
use super::{push_char, CompilationStage};

verus! {

/// A point in time of the system clock.
#[verifier::external_type_specification]
#[verifier::external_body]
pub struct ExSystemTime(std::time::SystemTime);

/// What is kept beside a cached result.
#[derive(Debug)]
pub struct CacheMetadata {
    /// The cache key of the source.
    pub hash: String,
    /// When the entry was made.
    pub created_at: std::time::SystemTime,
    /// The names the result depends on.
    pub dependencies: HashSet<String>,
    /// The stage that produced the result.
    pub stage: CompilationStage,
}

/// The SHA-256 digest of `data`.
pub uninterp spec fn sha256_of(data: Seq<u8>) -> Seq<u8>;

/// The SHA-256 digest of `data`: `Sha256::new`, `update`, `finalize`.
/// The result is `sha256_of(data)`, 32 bytes long (the output size of
/// SHA-256).
#[verifier::external_body]
fn sha256_digest(data: &[u8]) -> (d: Vec<u8>)
    ensures
        d@ == sha256_of(data@),
        d@.len() == 32,
{
    let mut hasher = Sha256::new();
    hasher.update(data);
    hasher.finalize().to_vec()
}

/// The lowercase hexadecimal digit of `d` (below 16).
pub open spec fn hex_digit(d: u8) -> char {
    if d < 10 {
        (48 + d) as char
    } else {
        (87 + d) as char
    }
}

/// `bytes` in lowercase hexadecimal, two digits per byte, high half first.
pub open spec fn lower_hex(bytes: Seq<u8>) -> Seq<char>
    decreases bytes.len(),
{
    if bytes.len() == 0 {
        Seq::empty()
    } else {
        let b = bytes.last();
        lower_hex(bytes.drop_last()).push(hex_digit(b / 16)).push(hex_digit(b % 16))
    }
}

/// The digit for `d`, computed.
fn hex_char(d: u8) -> (c: char)
    requires
        d < 16,
    ensures
        c == hex_digit(d),
{
    if d < 10 {
        (48 + d) as char
    } else {
        (87 + d) as char
    }
}

/// `digest` in lowercase hexadecimal.
pub fn digest_to_hex(digest: &[u8]) -> (s: String)
    ensures
        s@ == lower_hex(digest@),
{
    let mut s = String::new();
    let mut i: usize = 0;
    while i < digest.len()
        invariant
            i <= digest@.len(),
            s@ == lower_hex(digest@.subrange(0, i as int)),
        decreases digest@.len() - i,
    {
        let b = digest[i];
        push_char(&mut s, hex_char(b / 16));
        push_char(&mut s, hex_char(b % 16));
        proof {
            let next = digest@.subrange(0, i + 1);
            assert(next.drop_last() =~= digest@.subrange(0, i as int));
            assert(next.last() == b);
        }
        i = i + 1;
    }
    proof {
        assert(digest@.subrange(0, digest@.len() as int) =~= digest@);
    }
    s
}

/// The cache key of `source`: the SHA-256 digest of its UTF-8 bytes in
/// lowercase hexadecimal (64 characters).
pub fn compute_hash(source: &str) -> (h: String)
    ensures
        h@ == lower_hex(sha256_of(source.spec_bytes())),
        h@.len() == 64,
{
    let digest = sha256_digest(source.as_bytes());
    let h = digest_to_hex(digest.as_slice());
    proof {
        lemma_lower_hex_len(digest@);
    }
    h
}

/// Hexadecimal doubles the length.
pub proof fn lemma_lower_hex_len(bytes: Seq<u8>)
    ensures
        lower_hex(bytes).len() == 2 * bytes.len(),
    decreases bytes.len(),
{
    if bytes.len() > 0 {
        lemma_lower_hex_len(bytes.drop_last());
    }
}

} // verus!
