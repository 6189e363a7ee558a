//! The commit-reveal scheme.
//!
//! A round is bound at creation to the SHA-256 digest of a secret the admin
//! chose before any bets were visible. Finalizing the round reveals the
//! secret: the digest of the revealed bytes must equal the stored
//! commitment, and the winning bin is then a pure function of the first
//! three bytes of the secret.

use vstd::prelude::*;

use sha2::Digest;

verus! {

broadcast use vstd::array::group_array_axioms;

/// The SHA-256 digest of a byte sequence, as computed by the `sha2` crate.
/// The digest is a function of the input bytes alone; no contract of this
/// crate states what it is on given bytes.
pub uninterp spec fn sha256_of(input: Seq<u8>) -> Seq<u8>;

/// Relies on sha2::Sha256 (through digest::Digest::digest): the digest is
/// 32 bytes and depends on the input bytes alone.
#[verifier::external_body]
pub(crate) fn sha256(input: &[u8; 32]) -> (digest: [u8; 32])
    ensures
        digest@ == sha256_of(input@),
{
    sha2::Sha256::digest(input).into()
}

/// Whether two 32-byte values hold the same bytes.
pub(crate) fn bytes32_eq(a: &[u8; 32], b: &[u8; 32]) -> (r: bool)
    ensures
        r <==> a@ == b@,
{
    let mut i: usize = 0;
    while i < 32
        invariant
            i <= 32,
            forall|j: int| 0 <= j < i ==> a@[j] == b@[j],
        decreases 32 - i,
    {
        if a[i] != b[i] {
            assert(a@[i as int] != b@[i as int]);
            return false;
        }
        i = i + 1;
    }
    assert(a@ =~= b@);
    true
}

/// The winning bin a revealed secret selects: the first three bytes read as
/// a little-endian 24-bit number, reduced modulo the five bins.
pub open spec fn winning_bin_of(seed: Seq<u8>) -> int
    recommends
        seed.len() >= 3,
{
    (seed[0] + seed[1] * 256 + seed[2] * 65536) % 5
}

/// Derive the winning bin from a revealed secret.
pub fn derive_winning_bin(seed: &[u8; 32]) -> (bin: u32)
    ensures
        bin == winning_bin_of(seed@),
        bin < 5,
{
    let mixed: u32 = seed[0] as u32 + (seed[1] as u32) * 256 + (seed[2] as u32) * 65536;
    mixed % 5
}

} // verus!
