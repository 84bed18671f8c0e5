//! The hash of a name: which SHA-2 function a grid size calls for, and what
//! the digest gives: a fill colour first, then one bit for each cell.

use crate::canvas::Color;
use crate::rejection::Rejection;
use crypto::digest::Digest;
use vstd::prelude::*;

verus! {

/// The four hash functions a grid size can select.
#[derive(Clone, Copy, Debug, PartialEq, Eq, Structural)]
pub enum DigestAlgorithm {
    Sha224,
    Sha256,
    Sha384,
    Sha512,
}

/// The smallest grid size that has a hash function.
pub const MIN_GRID_SIZE: u32 = 1;

/// The largest grid size that has a hash function.
pub const MAX_GRID_SIZE: u32 = 21;

/// Number of leading digest bytes that give the fill colour.
pub const COLOR_BYTES: usize = 3;

/// The longest input, in bytes, that is hashed: SHA-224 and SHA-256 count the
/// bits of their input in 64 bits.
pub const MAX_INPUT_BYTES: u64 = 0x1fff_ffff_ffff_ffff;

/// The hash function of each grid size: a fixed table of four ranges, each
/// with a digest that has a bit for every cell of the grid after the colour
/// bytes. A grid size outside 1 to 21 has none.
pub open spec fn select_digest_spec(grid_size: u32) -> Result<DigestAlgorithm, Rejection> {
    if 1 <= grid_size <= 13 {
        Ok(DigestAlgorithm::Sha224)
    } else if grid_size == 14 {
        Ok(DigestAlgorithm::Sha256)
    } else if 15 <= grid_size <= 18 {
        Ok(DigestAlgorithm::Sha384)
    } else if 19 <= grid_size <= 21 {
        Ok(DigestAlgorithm::Sha512)
    } else {
        Err(Rejection::GridSizeOutOfRange)
    }
}

/// Picks the hash function for a grid size, and turns down a grid size
/// outside 1 to 21.
pub fn select_digest(grid_size: u32) -> (r: Result<DigestAlgorithm, Rejection>)
    ensures
        r == select_digest_spec(grid_size),
        r is Ok <==> MIN_GRID_SIZE <= grid_size <= MAX_GRID_SIZE,
{
    if grid_size == 0 {
        Err(Rejection::GridSizeOutOfRange)
    } else if grid_size <= 13 {
        Ok(DigestAlgorithm::Sha224)
    } else if grid_size == 14 {
        Ok(DigestAlgorithm::Sha256)
    } else if grid_size <= 18 {
        Ok(DigestAlgorithm::Sha384)
    } else if grid_size <= 21 {
        Ok(DigestAlgorithm::Sha512)
    } else {
        Err(Rejection::GridSizeOutOfRange)
    }
}

/// The SHA-224 digest of a byte string.
pub uninterp spec fn sha224(data: Seq<u8>) -> Seq<u8>;

/// The SHA-256 digest of a byte string.
pub uninterp spec fn sha256(data: Seq<u8>) -> Seq<u8>;

/// The SHA-384 digest of a byte string.
pub uninterp spec fn sha384(data: Seq<u8>) -> Seq<u8>;

/// The SHA-512 digest of a byte string.
pub uninterp spec fn sha512(data: Seq<u8>) -> Seq<u8>;

/// `crypto::sha2::Sha224` through `crypto::digest::Digest`: a fresh hasher is
/// fed `data` once and read out. The digest is that of `data`, 28 bytes long.
/// The hasher panics where the input's length in bits overflows 64 bits, which
/// `requires` leaves out.
#[verifier::external_body]
fn sha224_digest(data: &[u8]) -> (out: Vec<u8>)
    requires
        data@.len() <= MAX_INPUT_BYTES,
    ensures
        out@ == sha224(data@),
        out@.len() == 28,
{
    let mut hasher = crypto::sha2::Sha224::new();
    hasher.input(data);
    let mut out = vec![0u8; hasher.output_bytes()];
    hasher.result(&mut out);
    out
}

/// `crypto::sha2::Sha256` through `crypto::digest::Digest`: a fresh hasher is
/// fed `data` once and read out. The digest is that of `data`, 32 bytes long.
/// The hasher panics where the input's length in bits overflows 64 bits, which
/// `requires` leaves out.
#[verifier::external_body]
fn sha256_digest(data: &[u8]) -> (out: Vec<u8>)
    requires
        data@.len() <= MAX_INPUT_BYTES,
    ensures
        out@ == sha256(data@),
        out@.len() == 32,
{
    let mut hasher = crypto::sha2::Sha256::new();
    hasher.input(data);
    let mut out = vec![0u8; hasher.output_bytes()];
    hasher.result(&mut out);
    out
}

/// `crypto::sha2::Sha384` through `crypto::digest::Digest`: a fresh hasher is
/// fed `data` once and read out. The digest is that of `data`, 48 bytes long.
#[verifier::external_body]
fn sha384_digest(data: &[u8]) -> (out: Vec<u8>)
    ensures
        out@ == sha384(data@),
        out@.len() == 48,
{
    let mut hasher = crypto::sha2::Sha384::new();
    hasher.input(data);
    let mut out = vec![0u8; hasher.output_bytes()];
    hasher.result(&mut out);
    out
}

/// `crypto::sha2::Sha512` through `crypto::digest::Digest`: a fresh hasher is
/// fed `data` once and read out. The digest is that of `data`, 64 bytes long.
#[verifier::external_body]
fn sha512_digest(data: &[u8]) -> (out: Vec<u8>)
    ensures
        out@ == sha512(data@),
        out@.len() == 64,
{
    let mut hasher = crypto::sha2::Sha512::new();
    hasher.input(data);
    let mut out = vec![0u8; hasher.output_bytes()];
    hasher.result(&mut out);
    out
}

impl DigestAlgorithm {
    /// Length of the digest in bytes.
    pub open spec fn output_len(self) -> nat {
        match self {
            DigestAlgorithm::Sha224 => 28,
            DigestAlgorithm::Sha256 => 32,
            DigestAlgorithm::Sha384 => 48,
            DigestAlgorithm::Sha512 => 64,
        }
    }

    /// The digest of `data` under this hash function.
    pub open spec fn hash(self, data: Seq<u8>) -> Seq<u8> {
        match self {
            DigestAlgorithm::Sha224 => sha224(data),
            DigestAlgorithm::Sha256 => sha256(data),
            DigestAlgorithm::Sha384 => sha384(data),
            DigestAlgorithm::Sha512 => sha512(data),
        }
    }

    /// Length of the digest in bytes: 28, 32, 48 or 64.
    pub fn output_bytes(self) -> (n: usize)
        ensures
            n == self.output_len(),
    {
        match self {
            DigestAlgorithm::Sha224 => 28,
            DigestAlgorithm::Sha256 => 32,
            DigestAlgorithm::Sha384 => 48,
            DigestAlgorithm::Sha512 => 64,
        }
    }

    /// Hashes `data`, with no salt and no normalisation of the input.
    pub fn digest(self, data: &[u8]) -> (out: Vec<u8>)
        requires
            data@.len() <= MAX_INPUT_BYTES,
        ensures
            out@ == self.hash(data@),
            out@.len() == self.output_len(),
    {
        match self {
            DigestAlgorithm::Sha224 => sha224_digest(data),
            DigestAlgorithm::Sha256 => sha256_digest(data),
            DigestAlgorithm::Sha384 => sha384_digest(data),
            DigestAlgorithm::Sha512 => sha512_digest(data),
        }
    }
}

/// A larger grid never selects a shorter digest.
pub proof fn lemma_digest_grows_with_grid(smaller: u32, larger: u32)
    requires
        MIN_GRID_SIZE <= smaller <= larger <= MAX_GRID_SIZE,
    ensures
        select_digest_spec(smaller) is Ok,
        select_digest_spec(larger) is Ok,
        select_digest_spec(smaller)->Ok_0.output_len() <= select_digest_spec(
            larger,
        )->Ok_0.output_len(),
{
}

/// The digest that a grid size selects has, after its colour bytes, a bit for
/// every cell of the grid.
pub proof fn lemma_digest_covers_grid(grid_size: u32)
    requires
        MIN_GRID_SIZE <= grid_size <= MAX_GRID_SIZE,
    ensures
        select_digest_spec(grid_size) is Ok,
        grid_size * grid_size <= 8 * (select_digest_spec(grid_size)->Ok_0.output_len()
            - COLOR_BYTES),
{
    let g = grid_size as int;
    assert(g <= 13 ==> g * g <= 169) by (nonlinear_arith)
        requires
            g >= 1,
    ;
    assert(g <= 14 ==> g * g <= 196) by (nonlinear_arith)
        requires
            g >= 1,
    ;
    assert(g <= 18 ==> g * g <= 324) by (nonlinear_arith)
        requires
            g >= 1,
    ;
    assert(g <= 21 ==> g * g <= 441) by (nonlinear_arith)
        requires
            g >= 1,
    ;
}

/// The colour that a digest gives: its first three bytes as red, green and
/// blue, fully opaque.
pub open spec fn fill_color_spec(digest: Seq<u8>) -> Color {
    Color { r: digest[0], g: digest[1], b: digest[2], a: 255 }
}

/// Derives the fill colour from the leading bytes of a digest.
pub fn fill_color(digest: &[u8]) -> (c: Color)
    requires
        digest@.len() >= COLOR_BYTES,
    ensures
        c == fill_color_spec(digest@),
        c.r == digest@[0] && c.g == digest@[1] && c.b == digest@[2] && c.a == 255,
{
    Color { r: digest[0], g: digest[1], b: digest[2], a: 255 }
}

/// Bit `k` of a byte, counted from the least significant one.
pub open spec fn bit_of(byte: u8, k: nat) -> bool {
    (byte >> (k as u8)) & 1u8 == 1u8
}

/// The bits that a digest gives to the grid: those of every byte after the
/// colour bytes, each byte from its least significant bit up.
pub open spec fn pattern_bits(digest: Seq<u8>) -> Seq<bool> {
    Seq::new(
        (8 * (digest.len() - COLOR_BYTES)) as nat,
        |i: int| bit_of(digest[COLOR_BYTES as int + i / 8], (i % 8) as nat),
    )
}

/// The bits of a digest, handed out one at a time.
pub struct BitStream {
    bytes: Vec<u8>,
    /// Index of the byte that holds the next bit.
    byte: usize,
    /// Place of the next bit in that byte.
    bit: u8,
}

impl BitStream {
    /// Number of bits handed out so far.
    pub closed spec fn consumed(&self) -> nat {
        (8 * (self.byte - COLOR_BYTES) + self.bit) as nat
    }

    /// The bits that have not been handed out yet.
    pub closed spec fn remaining(&self) -> Seq<bool> {
        pattern_bits(self.bytes@).skip(self.consumed() as int)
    }

    /// The stream's own invariant.
    pub closed spec fn wf(&self) -> bool {
        &&& COLOR_BYTES <= self.byte <= self.bytes@.len()
        &&& self.bit < 8
        &&& self.byte == self.bytes@.len() ==> self.bit == 0
    }

    /// A stream over the bits of `digest` that follow its colour bytes.
    pub fn new(digest: Vec<u8>) -> (s: BitStream)
        requires
            digest@.len() >= COLOR_BYTES,
        ensures
            s.wf(),
            s.remaining() == pattern_bits(digest@),
    {
        BitStream { bytes: digest, byte: COLOR_BYTES, bit: 0 }
    }

    /// Hands out the next bit, or `None` when every bit has been handed out.
    pub fn next(&mut self) -> (bit: Option<bool>)
        requires
            old(self).wf(),
        ensures
            final(self).wf(),
            old(self).remaining().len() == 0 ==> bit is None && final(self).remaining() == old(
                self,
            ).remaining(),
            old(self).remaining().len() > 0 ==> bit == Some(old(self).remaining()[0])
                && final(self).remaining() == old(self).remaining().skip(1),
    {
        if self.byte >= self.bytes.len() {
            return None;
        }
        let ghost i = self.consumed() as int;
        let value: bool = (self.bytes[self.byte] >> self.bit) & 1u8 == 1u8;
        if self.bit == 7 {
            self.byte = self.byte + 1;
            self.bit = 0;
        } else {
            self.bit = self.bit + 1;
        }
        proof {
            let all = pattern_bits(self.bytes@);
            assert(self.consumed() == i + 1);
            assert(all.skip(i)[0] == all[i]);
            assert(all.skip(i).skip(1) =~= all.skip(i + 1));
        }
        Some(value)
    }
}

} // verus!
