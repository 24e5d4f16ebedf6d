//! IPv4 addresses as 32-bit numbers, and their four bytes in network order.

use vstd::prelude::*;

verus! {

/// The address `a.b.c.d` as a number: `a` is the most significant byte.
pub open spec fn spec_ipv4(a: u8, b: u8, c: u8, d: u8) -> u32 {
    (a as int * 0x100_0000 + b as int * 0x1_0000 + c as int * 0x100 + d as int) as u32
}

/// The four bytes at `at .. at + 4` of `bytes`, read as a big-endian number.
pub open spec fn spec_be_u32_at(bytes: Seq<u8>, at: int) -> u32 {
    spec_ipv4(bytes[at], bytes[at + 1], bytes[at + 2], bytes[at + 3])
}

/// The two bytes at `at .. at + 2` of `bytes`, read as a big-endian number.
pub open spec fn spec_be_u16_at(bytes: Seq<u8>, at: int) -> u16 {
    (bytes[at] as int * 0x100 + bytes[at + 1] as int) as u16
}

/// The big-endian bytes of `v`.
pub open spec fn spec_be_bytes(v: u32) -> Seq<u8> {
    seq![
        (v / 0x100_0000) as u8,
        (v / 0x1_0000 % 0x100) as u8,
        (v / 0x100 % 0x100) as u8,
        (v % 0x100) as u8,
    ]
}

/// The big-endian bytes of a 16-bit `v`.
pub open spec fn spec_be_bytes_u16(v: u16) -> Seq<u8> {
    seq![(v / 0x100) as u8, (v % 0x100) as u8]
}

/// Every address of `addrs` in turn, four bytes each.
pub open spec fn spec_addrs_bytes(addrs: Seq<u32>) -> Seq<u8>
    decreases addrs.len(),
{
    if addrs.len() == 0 {
        Seq::empty()
    } else {
        spec_addrs_bytes(addrs.drop_last()) + spec_be_bytes(addrs.last())
    }
}

/// The addresses that `bytes` holds, four bytes each; bytes past the last
/// whole address are not read.
pub open spec fn spec_bytes_addrs(bytes: Seq<u8>) -> Seq<u32> {
    Seq::new((bytes.len() / 4) as nat, |i: int| spec_be_u32_at(bytes, 4 * i))
}

/// The address `a.b.c.d` as a number.
pub fn ipv4(a: u8, b: u8, c: u8, d: u8) -> (v: u32)
    ensures
        v == spec_ipv4(a, b, c, d),
{
    (a as u32) * 0x100_0000 + (b as u32) * 0x1_0000 + (c as u32) * 0x100 + (d as u32)
}

/// The four bytes of `v`, the most significant first.
pub fn be_bytes(v: u32) -> (b: [u8; 4])
    ensures
        b@ == spec_be_bytes(v),
{
    let b = [
        (v / 0x100_0000) as u8,
        (v / 0x1_0000 % 0x100) as u8,
        (v / 0x100 % 0x100) as u8,
        (v % 0x100) as u8,
    ];
    assert(b@ =~= spec_be_bytes(v));
    b
}

/// Reading back the bytes of a number gives the number.
pub proof fn lemma_be_round_trip(v: u32)
    ensures
        spec_be_bytes(v).len() == 4,
        spec_be_u32_at(spec_be_bytes(v), 0) == v,
{
    let b = spec_be_bytes(v);
    assert(b[0] == (v / 0x100_0000) as u8);
    assert(b[1] == (v / 0x1_0000 % 0x100) as u8);
    assert(b[2] == (v / 0x100 % 0x100) as u8);
    assert(b[3] == (v % 0x100) as u8);
}

} // verus!
