//! The credential verifier's hashing primitives.
//!
//! A stored credential is a versioned record: an algorithm tag, a salt and a
//! digest, so the scheme can be upgraded later without a mass password reset.
//! The digest is a salted 64-bit
//! Fowler–Noll–Vo fold over the password's characters. Verification recomputes
//! the digest over the whole candidate — the loop never exits early on a
//! mismatching prefix — and then compares two fixed-width words, so the work
//! done does not depend on where a wrong candidate first differs.

use vstd::prelude::*;

verus! {

/// The only digest algorithm this build writes.
pub const HASH_VERSION: u8 = 1;

pub const FNV_OFFSET: u64 = 0xcbf29ce484222325;

pub const FNV_PRIME: u64 = 0x100000001b3;

/// A stored password hash: `{algorithm tag, salt, digest}`.
#[derive(Clone, Copy, Debug, PartialEq, Eq, Structural)]
pub struct PwHash {
    pub version: u8,
    pub salt: u64,
    pub digest: u64,
}

/// One fold step of the digest.
pub open spec fn mix(acc: u64, x: u64) -> u64 {
    (acc ^ x).wrapping_mul(FNV_PRIME)
}

/// The digest fold over a sequence of characters, starting from `acc`.
pub open spec fn digest_seq(acc: u64, s: Seq<char>) -> u64
    decreases s.len(),
{
    if s.len() == 0 {
        acc
    } else {
        digest_seq(mix(acc, s[0] as u64), s.subrange(1, s.len() as int))
    }
}

/// The digest of `password` under `salt`.
pub open spec fn spec_digest(salt: u64, password: Seq<char>) -> u64 {
    digest_seq(mix(FNV_OFFSET, salt), password)
}

/// The hash record stored for `password` under `salt`.
pub open spec fn spec_pwhash(salt: u64, password: Seq<char>) -> PwHash {
    PwHash { version: HASH_VERSION, salt: salt, digest: spec_digest(salt, password) }
}

/// Whether a stored hash accepts a candidate password.
pub open spec fn spec_hash_matches(h: PwHash, password: Seq<char>) -> bool {
    h.version == HASH_VERSION && h.digest == spec_digest(h.salt, password)
}

/// Computes the digest fold of `s` starting from `acc`.
fn digest_str(acc: u64, s: &str) -> (d: u64)
    ensures
        d == digest_seq(acc, s@),
{
    let len: usize = s.unicode_len();
    let mut acc: u64 = acc;
    let ghost start: u64 = acc;
    let mut i: usize = 0;
    proof {
        assert(s@.skip(0) =~= s@);
    }
    while i < len
        invariant
            i <= len,
            len == s@.len(),
            digest_seq(acc, s@.skip(i as int)) == digest_seq(start, s@),
        decreases len - i,
    {
        let c = s.get_char(i);
        proof {
            let tail = s@.skip(i as int);
            assert(tail[0] == s@[i as int]);
            assert(tail.subrange(1, tail.len() as int) =~= s@.skip(i as int + 1));
        }
        acc = (acc ^ (c as u64)).wrapping_mul(FNV_PRIME);
        i = i + 1;
    }
    proof {
        assert(s@.skip(len as int) =~= Seq::<char>::empty());
    }
    acc
}

/// Hashes a password under the given salt into a stored credential record.
pub fn pwhash(password: &str, salt: u64) -> (h: PwHash)
    ensures
        h == spec_pwhash(salt, password@),
{
    let acc0 = (FNV_OFFSET ^ salt).wrapping_mul(FNV_PRIME);
    let digest = digest_str(acc0, password);
    PwHash { version: HASH_VERSION, salt, digest }
}

/// Whether the stored hash accepts the candidate password. Fails closed on a
/// version tag this build does not know.
pub fn hash_matches(h: &PwHash, password: &str) -> (r: bool)
    ensures
        r == spec_hash_matches(*h, password@),
{
    let acc0 = (FNV_OFFSET ^ h.salt).wrapping_mul(FNV_PRIME);
    let digest = digest_str(acc0, password);
    let version_ok = h.version == HASH_VERSION;
    let digest_ok = h.digest == digest;
    version_ok && digest_ok
}

} // verus!
