//! Big-endian integers as they appear in frames.

use vstd::prelude::*;
use vstd::arithmetic::div_mod::lemma_fundamental_div_mod_converse;

verus! {

/// The four bytes of `x`, most significant first.
#[verifier::opaque]
pub open spec fn be_bytes_u32(x: u32) -> Seq<u8> {
    seq![
        (x as int / 0x100_0000) as u8,
        (x as int / 0x1_0000 % 0x100) as u8,
        (x as int / 0x100 % 0x100) as u8,
        (x as int % 0x100) as u8,
    ]
}

/// The number whose big-endian bytes are the first four of `bytes`.
#[verifier::opaque]
pub open spec fn u32_from_be_bytes(bytes: Seq<u8>) -> u32 {
    (bytes[0] as int * 0x100_0000 + bytes[1] as int * 0x1_0000 + bytes[2] as int * 0x100
        + bytes[3] as int) as u32
}

/// The eight bytes of `x`, most significant first.
pub open spec fn be_bytes_u64(x: u64) -> Seq<u8> {
    be_bytes_u32((x as int / 0x1_0000_0000) as u32) + be_bytes_u32((x as int % 0x1_0000_0000) as u32)
}

/// The number whose big-endian bytes are the first eight of `bytes`.
pub open spec fn u64_from_be_bytes(bytes: Seq<u8>) -> u64 {
    (u32_from_be_bytes(bytes.subrange(0, 4)) as int * 0x1_0000_0000 + u32_from_be_bytes(
        bytes.subrange(4, 8),
    ) as int) as u64
}

/// The sixteen bytes of `x`, most significant first.
pub open spec fn be_bytes_u128(x: u128) -> Seq<u8> {
    be_bytes_u64((x as int / 0x1_0000_0000_0000_0000) as u64) + be_bytes_u64(
        (x as int % 0x1_0000_0000_0000_0000) as u64,
    )
}

/// Reading back what `be_bytes_u32` wrote gives the number again.
pub proof fn lemma_u32_be_round_trip(x: u32)
    ensures
        be_bytes_u32(x).len() == 4,
        u32_from_be_bytes(be_bytes_u32(x)) == x,
{
    reveal(be_bytes_u32);
    reveal(u32_from_be_bytes);
    let n = x as int;
    let b0 = n / 0x100_0000;
    let b1 = n / 0x1_0000 % 0x100;
    let b2 = n / 0x100 % 0x100;
    let b3 = n % 0x100;
    assert(n == b0 * 0x100_0000 + b1 * 0x1_0000 + b2 * 0x100 + b3);
    assert(be_bytes_u32(x)[0] == b0 as u8);
    assert(be_bytes_u32(x)[1] == b1 as u8);
    assert(be_bytes_u32(x)[2] == b2 as u8);
    assert(be_bytes_u32(x)[3] == b3 as u8);
}

/// Writing what `u32_from_be_bytes` read gives the four bytes again.
pub proof fn lemma_be_u32_round_trip(bytes: Seq<u8>)
    requires
        bytes.len() == 4,
    ensures
        be_bytes_u32(u32_from_be_bytes(bytes)) == bytes,
{
    reveal(be_bytes_u32);
    reveal(u32_from_be_bytes);
    let b0 = bytes[0] as int;
    let b1 = bytes[1] as int;
    let b2 = bytes[2] as int;
    let b3 = bytes[3] as int;
    let x = b0 * 0x100_0000 + b1 * 0x1_0000 + b2 * 0x100 + b3;
    assert(u32_from_be_bytes(bytes) == x);
    lemma_fundamental_div_mod_converse(x, 0x100_0000, b0, b1 * 0x1_0000 + b2 * 0x100 + b3);
    lemma_fundamental_div_mod_converse(x, 0x1_0000, b0 * 0x100 + b1, b2 * 0x100 + b3);
    lemma_fundamental_div_mod_converse(b0 * 0x100 + b1, 0x100, b0, b1);
    lemma_fundamental_div_mod_converse(x, 0x100, b0 * 0x1_0000 + b1 * 0x100 + b2, b3);
    lemma_fundamental_div_mod_converse(b0 * 0x1_0000 + b1 * 0x100 + b2, 0x100, b0 * 0x100 + b1, b2);
    assert(be_bytes_u32(u32_from_be_bytes(bytes)) =~= bytes);
}

/// Reading back what `be_bytes_u64` wrote gives the number again.
pub proof fn lemma_u64_be_round_trip(x: u64)
    ensures
        be_bytes_u64(x).len() == 8,
        u64_from_be_bytes(be_bytes_u64(x)) == x,
{
    let hi = (x as int / 0x1_0000_0000) as u32;
    let lo = (x as int % 0x1_0000_0000) as u32;
    lemma_u32_be_round_trip(hi);
    lemma_u32_be_round_trip(lo);
    assert(be_bytes_u64(x).subrange(0, 4) =~= be_bytes_u32(hi));
    assert(be_bytes_u64(x).subrange(4, 8) =~= be_bytes_u32(lo));
    assert(x as int == hi as int * 0x1_0000_0000 + lo as int);
}

/// Writing what `u64_from_be_bytes` read gives the eight bytes again.
pub proof fn lemma_be_u64_round_trip(bytes: Seq<u8>)
    requires
        bytes.len() == 8,
    ensures
        be_bytes_u64(u64_from_be_bytes(bytes)) == bytes,
{
    let hi = bytes.subrange(0, 4);
    let lo = bytes.subrange(4, 8);
    lemma_be_u32_round_trip(hi);
    lemma_be_u32_round_trip(lo);
    let h = u32_from_be_bytes(hi);
    let l = u32_from_be_bytes(lo);
    let x = u64_from_be_bytes(bytes);
    assert(x as int == h as int * 0x1_0000_0000 + l as int);
    lemma_fundamental_div_mod_converse(x as int, 0x1_0000_0000, h as int, l as int);
    assert(be_bytes_u64(x) == be_bytes_u32(h) + be_bytes_u32(l));
    assert(hi + lo =~= bytes);
}

/// Appends the four big-endian bytes of `x` to `buf`.
pub fn push_be_u32(buf: &mut Vec<u8>, x: u32)
    ensures
        final(buf)@ == old(buf)@ + be_bytes_u32(x),
{
    buf.push((x / 0x100_0000) as u8);
    buf.push((x / 0x1_0000 % 0x100) as u8);
    buf.push((x / 0x100 % 0x100) as u8);
    buf.push((x % 0x100) as u8);
    proof {
        reveal(be_bytes_u32);
        assert(buf@ =~= old(buf)@ + be_bytes_u32(x));
    }
}

/// Appends the eight big-endian bytes of `x` to `buf`.
pub fn push_be_u64(buf: &mut Vec<u8>, x: u64)
    ensures
        final(buf)@ == old(buf)@ + be_bytes_u64(x),
{
    push_be_u32(buf, (x / 0x1_0000_0000) as u32);
    push_be_u32(buf, (x % 0x1_0000_0000) as u32);
    proof {
        lemma_u32_be_round_trip((x / 0x1_0000_0000) as u32);
        lemma_u32_be_round_trip((x % 0x1_0000_0000) as u32);
        assert(buf@ =~= old(buf)@ + be_bytes_u64(x));
    }
}

/// The sixteen big-endian bytes of `x`.
pub fn u128_to_be_bytes(x: u128) -> (bytes: Vec<u8>)
    ensures
        bytes@ == be_bytes_u128(x),
        bytes@.len() == 16,
{
    let mut bytes: Vec<u8> = Vec::new();
    push_be_u64(&mut bytes, (x / 0x1_0000_0000_0000_0000) as u64);
    push_be_u64(&mut bytes, (x % 0x1_0000_0000_0000_0000) as u64);
    proof {
        lemma_u64_be_round_trip((x / 0x1_0000_0000_0000_0000) as u64);
        lemma_u64_be_round_trip((x % 0x1_0000_0000_0000_0000) as u64);
        assert(bytes@ =~= be_bytes_u128(x));
    }
    bytes
}

/// Reads the big-endian number held in the four bytes of `bytes` from `at` on.
pub fn read_be_u32(bytes: &[u8], at: usize) -> (x: u32)
    requires
        at + 4 <= bytes@.len(),
    ensures
        x == u32_from_be_bytes(bytes@.subrange(at as int, at + 4)),
{
    let len: usize = bytes.len();
    assert(at + 4 <= len);
    let b0: u32 = bytes[at] as u32;
    let b1: u32 = bytes[at + 1] as u32;
    let b2: u32 = bytes[at + 2] as u32;
    let b3: u32 = bytes[at + 3] as u32;
    proof {
        reveal(u32_from_be_bytes);
    }
    b0 * 0x100_0000 + b1 * 0x1_0000 + b2 * 0x100 + b3
}

/// Reads the big-endian number held in the eight bytes of `bytes` from `at` on.
pub fn read_be_u64(bytes: &[u8], at: usize) -> (x: u64)
    requires
        at + 8 <= bytes@.len(),
    ensures
        x == u64_from_be_bytes(bytes@.subrange(at as int, at + 8)),
{
    let len: usize = bytes.len();
    assert(at + 8 <= len);
    let hi: u64 = read_be_u32(bytes, at) as u64;
    let lo: u64 = read_be_u32(bytes, at + 4) as u64;
    proof {
        let window = bytes@.subrange(at as int, at + 8);
        assert(window.subrange(0, 4) =~= bytes@.subrange(at as int, at + 4));
        assert(window.subrange(4, 8) =~= bytes@.subrange(at + 4, at + 8));
    }
    hi * 0x1_0000_0000 + lo
}

} // verus!
