//! Big-endian integers, as every multi-byte field of the protocol is laid out.

use byteorder::{BigEndian, ByteOrder};
use vstd::prelude::*;

verus! {

/// The number that a byte sequence denotes when read most significant byte first.
pub open spec fn be_nat(s: Seq<u8>) -> nat
    decreases s.len(),
{
    if s.len() == 0 {
        0
    } else {
        be_nat(s.drop_last()) * 256 + s.last() as nat
    }
}

/// The `width` low-order bytes of `n`, most significant first.
pub open spec fn be_bytes(n: nat, width: nat) -> Seq<u8>
    decreases width,
{
    if width == 0 {
        Seq::empty()
    } else {
        be_bytes(n / 256, (width - 1) as nat).push((n % 256) as u8)
    }
}

/// 256 to the power `k`: the number of values that `k` bytes can hold.
pub open spec fn pow256(k: nat) -> nat
    decreases k,
{
    if k == 0 {
        1
    } else {
        256 * pow256((k - 1) as nat)
    }
}

/// Reading of an unsigned `bytes`-byte number as a two's complement signed one.
pub open spec fn signed(n: nat, bytes: nat) -> int {
    if 2 * n >= pow256(bytes) {
        n - pow256(bytes)
    } else {
        n as int
    }
}

/// The unsigned number with the same `bytes`-byte pattern as the signed `i`.
pub open spec fn unsigned(i: int, bytes: nat) -> nat {
    if i < 0 {
        (i + pow256(bytes)) as nat
    } else {
        i as nat
    }
}

pub proof fn lemma_pow256_values()
    ensures
        pow256(0) == 1,
        pow256(1) == 0x100,
        pow256(2) == 0x1_0000,
        pow256(4) == 0x1_0000_0000,
        pow256(8) == 0x1_0000_0000_0000_0000,
        pow256(16) == 0x1_0000_0000_0000_0000_0000_0000_0000_0000,
{
    reveal_with_fuel(pow256, 17);
}

pub proof fn lemma_be_bytes_len(n: nat, width: nat)
    ensures
        be_bytes(n, width).len() == width,
    decreases width,
{
    if width > 0 {
        lemma_be_bytes_len(n / 256, (width - 1) as nat);
    }
}

pub proof fn lemma_be_nat_bound(s: Seq<u8>)
    ensures
        be_nat(s) < pow256(s.len()),
    decreases s.len(),
{
    if s.len() > 0 {
        lemma_be_nat_bound(s.drop_last());
    }
}

/// Writing a number that fits and reading it back gives the number.
pub proof fn lemma_be_nat_of_bytes(n: nat, width: nat)
    requires
        n < pow256(width),
    ensures
        be_nat(be_bytes(n, width)) == n,
    decreases width,
{
    if width > 0 {
        let rest = be_bytes(n / 256, (width - 1) as nat);
        lemma_be_nat_of_bytes(n / 256, (width - 1) as nat);
        assert(be_bytes(n, width).drop_last() =~= rest);
    }
}

/// A signed number within the range of its width survives the change of sign convention.
pub proof fn lemma_signed_of_unsigned(i: int, bytes: nat)
    requires
        -(pow256(bytes) as int) <= 2 * i < pow256(bytes),
    ensures
        unsigned(i, bytes) < pow256(bytes),
        signed(unsigned(i, bytes), bytes) == i,
{
}

/// Calls `byteorder::BigEndian::read_u16`: the first two bytes of `buf`, most significant
/// first. The outside function panics on a shorter buffer, which `requires` leaves out.
#[verifier::external_body]
pub(crate) fn read_u16(buf: &[u8]) -> (r: u16)
    requires
        buf@.len() >= 2,
    ensures
        r == be_nat(buf@.subrange(0, 2)),
{
    BigEndian::read_u16(buf)
}

/// Calls `byteorder::BigEndian::read_u32`: the first four bytes of `buf`, most significant
/// first. The outside function panics on a shorter buffer, which `requires` leaves out.
#[verifier::external_body]
pub(crate) fn read_u32(buf: &[u8]) -> (r: u32)
    requires
        buf@.len() >= 4,
    ensures
        r == be_nat(buf@.subrange(0, 4)),
{
    BigEndian::read_u32(buf)
}

/// Calls `byteorder::BigEndian::read_i32`: the first four bytes of `buf`, most significant
/// first, taken as a two's complement number. Panics of the outside function on a shorter
/// buffer are left out by `requires`.
#[verifier::external_body]
pub(crate) fn read_i32(buf: &[u8]) -> (r: i32)
    requires
        buf@.len() >= 4,
    ensures
        r == signed(be_nat(buf@.subrange(0, 4)), 4),
{
    BigEndian::read_i32(buf)
}

/// Calls `byteorder::BigEndian::read_i64`: the first eight bytes of `buf`, most significant
/// first, taken as a two's complement number. Panics of the outside function on a shorter
/// buffer are left out by `requires`.
#[verifier::external_body]
pub(crate) fn read_i64(buf: &[u8]) -> (r: i64)
    requires
        buf@.len() >= 8,
    ensures
        r == signed(be_nat(buf@.subrange(0, 8)), 8),
{
    BigEndian::read_i64(buf)
}

/// Calls `byteorder::BigEndian::read_u128`: the first sixteen bytes of `buf`, most
/// significant first. Panics of the outside function on a shorter buffer are left out by
/// `requires`.
#[verifier::external_body]
pub(crate) fn read_u128(buf: &[u8]) -> (r: u128)
    requires
        buf@.len() >= 16,
    ensures
        r == be_nat(buf@.subrange(0, 16)),
{
    BigEndian::read_u128(buf)
}

/// Calls `byteorder::BigEndian::write_u16` on a fresh two-byte buffer: the two bytes of
/// `n`, most significant first.
#[verifier::external_body]
pub(crate) fn u16_bytes(n: u16) -> (out: Vec<u8>)
    ensures
        out@ == be_bytes(n as nat, 2),
{
    let mut out = vec![0u8; 2];
    BigEndian::write_u16(&mut out, n);
    out
}

/// Calls `byteorder::BigEndian::write_i32` on a fresh four-byte buffer: the four bytes of
/// the two's complement pattern of `n`, most significant first.
#[verifier::external_body]
pub(crate) fn i32_bytes(n: i32) -> (out: Vec<u8>)
    ensures
        out@ == be_bytes(unsigned(n as int, 4), 4),
{
    let mut out = vec![0u8; 4];
    BigEndian::write_i32(&mut out, n);
    out
}

/// Calls `byteorder::BigEndian::write_i64` on a fresh eight-byte buffer: the eight bytes
/// of the two's complement pattern of `n`, most significant first.
#[verifier::external_body]
pub(crate) fn i64_bytes(n: i64) -> (out: Vec<u8>)
    ensures
        out@ == be_bytes(unsigned(n as int, 8), 8),
{
    let mut out = vec![0u8; 8];
    BigEndian::write_i64(&mut out, n);
    out
}

} // verus!
