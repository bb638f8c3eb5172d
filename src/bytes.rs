//! Little-endian fixed-offset codec shared by every record and payload.
use vstd::prelude::*;

verus! {

/// Number of bytes in an account address.
pub const KEY_LEN: usize = 32;

/// The `u16` stored little-endian at `at`.
pub open spec fn u16_at(b: Seq<u8>, at: int) -> int {
    b[at] + 0x100 * b[at + 1]
}

/// The `u64` stored little-endian at `at`.
pub open spec fn u64_at(b: Seq<u8>, at: int) -> int {
    b[at] + 0x100 * b[at + 1] + 0x1_0000 * b[at + 2] + 0x100_0000 * b[at + 3] + 0x1_0000_0000 * b[at
        + 4] + 0x100_0000_0000 * b[at + 5] + 0x1_0000_0000_0000 * b[at + 6] + 0x100_0000_0000_0000
        * b[at + 7]
}

/// The `i64` stored little-endian, in two's complement, at `at`.
pub open spec fn i64_at(b: Seq<u8>, at: int) -> int {
    let u = u64_at(b, at);
    if u < 0x8000_0000_0000_0000 {
        u
    } else {
        u - 0x1_0000_0000_0000_0000
    }
}

/// The address stored at `at`.
pub open spec fn key_at(b: Seq<u8>, at: int) -> Seq<u8> {
    b.subrange(at, at + KEY_LEN)
}

pub fn read_u16(data: &[u8], at: usize) -> (r: u16)
    requires
        at + 2 <= data@.len(),
    ensures
        r == u16_at(data@, at as int),
{
    (data[at] as u16) + (data[at + 1] as u16) * 0x100
}

pub fn read_u64(data: &[u8], at: usize) -> (r: u64)
    requires
        at + 8 <= data@.len(),
    ensures
        r == u64_at(data@, at as int),
{
    (data[at] as u64) + (data[at + 1] as u64) * 0x100 + (data[at + 2] as u64) * 0x1_0000 + (data[at
        + 3] as u64) * 0x100_0000 + (data[at + 4] as u64) * 0x1_0000_0000 + (data[at + 5] as u64)
        * 0x100_0000_0000 + (data[at + 6] as u64) * 0x1_0000_0000_0000 + (data[at + 7] as u64)
        * 0x100_0000_0000_0000
}

pub fn read_i64(data: &[u8], at: usize) -> (r: i64)
    requires
        at + 8 <= data@.len(),
    ensures
        r == i64_at(data@, at as int),
{
    let u = read_u64(data, at);
    if u < 0x8000_0000_0000_0000 {
        u as i64
    } else {
        ((u - 0x8000_0000_0000_0000) as i64) + i64::MIN
    }
}

pub fn read_key(data: &[u8], at: usize) -> (r: [u8; 32])
    requires
        at + KEY_LEN <= data@.len(),
    ensures
        r@ == key_at(data@, at as int),
{
    let mut key = [0u8; 32];
    let mut i: usize = 0;
    while i < KEY_LEN
        invariant
            i <= KEY_LEN,
            at + KEY_LEN <= data.len(),
            forall|j: int| 0 <= j < i ==> key[j] == data@[at + j],
        decreases KEY_LEN - i,
    {
        key[i] = data[at + i];
        i += 1;
    }
    assert(key@ =~= key_at(data@, at as int));
    key
}

/// Whether two addresses are the same.
pub fn keys_equal(a: &[u8; 32], b: &[u8; 32]) -> (r: bool)
    ensures
        r == (a@ == b@),
{
    let mut i: usize = 0;
    while i < KEY_LEN
        invariant
            i <= KEY_LEN,
            forall|j: int| 0 <= j < i ==> a[j] == b[j],
        decreases KEY_LEN - i,
    {
        if a[i] != b[i] {
            return false;
        }
        i += 1;
    }
    assert(a@ =~= b@);
    true
}

pub fn push_u16(out: &mut Vec<u8>, v: u16)
    ensures
        final(out)@.len() == old(out)@.len() + 2,
        final(out)@.subrange(0, old(out)@.len() as int) == old(out)@,
        u16_at(final(out)@, old(out)@.len() as int) == v,
{
    out.push((v % 0x100) as u8);
    out.push((v / 0x100) as u8);
}

pub fn push_u64(out: &mut Vec<u8>, v: u64)
    ensures
        final(out)@.len() == old(out)@.len() + 8,
        final(out)@.subrange(0, old(out)@.len() as int) == old(out)@,
        u64_at(final(out)@, old(out)@.len() as int) == v,
{
    let ghost start = out@;
    let r1 = v / 0x100;
    let r2 = r1 / 0x100;
    let r3 = r2 / 0x100;
    let r4 = r3 / 0x100;
    let r5 = r4 / 0x100;
    let r6 = r5 / 0x100;
    let r7 = r6 / 0x100;
    assert(r7 < 0x100);
    out.push((v % 0x100) as u8);
    out.push((r1 % 0x100) as u8);
    out.push((r2 % 0x100) as u8);
    out.push((r3 % 0x100) as u8);
    out.push((r4 % 0x100) as u8);
    out.push((r5 % 0x100) as u8);
    out.push((r6 % 0x100) as u8);
    out.push(r7 as u8);
    assert(out@.subrange(0, start.len() as int) =~= start);
}

/// Appends an address.
pub fn push_key(out: &mut Vec<u8>, key: &[u8; 32])
    ensures
        final(out)@ == old(out)@ + key@,
{
    let ghost start = out@;
    let mut i: usize = 0;
    while i < KEY_LEN
        invariant
            i <= KEY_LEN,
            out@ == start + key@.subrange(0, i as int),
        decreases KEY_LEN - i,
    {
        out.push(key[i]);
        i += 1;
        assert(out@ =~= start + key@.subrange(0, i as int));
    }
    assert(key@.subrange(0, KEY_LEN as int) =~= key@);
}

} // verus!
