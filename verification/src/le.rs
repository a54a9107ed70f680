//! Little-endian integers in byte buffers.

use vstd::prelude::*;

verus! {

/// So many zero bytes.
pub open spec fn zeros(n: int) -> Seq<u8> {
    Seq::new(n as nat, |i: int| 0u8)
}

/// The eight bytes of `x`, least significant first.
pub open spec fn u64_le(x: u64) -> Seq<u8> {
    seq![
        (x % 0x100) as u8,
        (x / 0x100 % 0x100) as u8,
        (x / 0x1_0000 % 0x100) as u8,
        (x / 0x100_0000 % 0x100) as u8,
        (x / 0x1_0000_0000 % 0x100) as u8,
        (x / 0x100_0000_0000 % 0x100) as u8,
        (x / 0x1_0000_0000_0000 % 0x100) as u8,
        (x / 0x100_0000_0000_0000 % 0x100) as u8,
    ]
}

/// The number whose little-endian form begins `b`, from four bytes.
pub open spec fn le_u32(b: Seq<u8>) -> u32 {
    (b[0] + b[1] * 0x100 + b[2] * 0x1_0000 + b[3] * 0x100_0000) as u32
}

/// The number whose little-endian form begins `b`, from eight bytes.
pub open spec fn le_u64(b: Seq<u8>) -> u64 {
    (b[0] + b[1] * 0x100 + b[2] * 0x1_0000 + b[3] * 0x100_0000 + b[4] * 0x1_0000_0000 + b[5]
        * 0x100_0000_0000 + b[6] * 0x1_0000_0000_0000 + b[7] * 0x100_0000_0000_0000) as u64
}

/// `s` with the bytes from `at` on replaced by those of `b`.
pub open spec fn overwrite(s: Seq<u8>, at: int, b: Seq<u8>) -> Seq<u8> {
    s.take(at) + b + s.skip(at + b.len())
}

/// Reading back a written number gives that number.
pub proof fn law_u64_round_trip(x: u64)
    ensures
        u64_le(x).len() == 8,
        le_u64(u64_le(x)) == x,
{
    assert(x % 0x100 + x / 0x100 % 0x100 * 0x100 + x / 0x1_0000 % 0x100 * 0x1_0000 + x / 0x100_0000
        % 0x100 * 0x100_0000 + x / 0x1_0000_0000 % 0x100 * 0x1_0000_0000 + x / 0x100_0000_0000
        % 0x100 * 0x100_0000_0000 + x / 0x1_0000_0000_0000 % 0x100 * 0x1_0000_0000_0000 + x
        / 0x100_0000_0000_0000 % 0x100 * 0x100_0000_0000_0000 == x) by (bit_vector);
}

/// What was overwritten is read back, and nothing else changed.
pub proof fn law_overwrite(s: Seq<u8>, at: int, b: Seq<u8>)
    requires
        0 <= at,
        at + b.len() <= s.len(),
    ensures
        overwrite(s, at, b).len() == s.len(),
        overwrite(s, at, b).subrange(at, at + b.len()) == b,
        overwrite(s, at, b).take(at) == s.take(at),
{
    assert(overwrite(s, at, b).subrange(at, at + b.len()) =~= b);
    assert(overwrite(s, at, b).take(at) =~= s.take(at));
}

pub fn read_u32(b: &[u8], at: usize) -> (x: u32)
    requires
        at + 4 <= b.len(),
    ensures
        x == le_u32(b@.subrange(at as int, at + 4)),
{
    let x0: u32 = b[at] as u32;
    let x1: u32 = b[at + 1] as u32;
    let x2: u32 = b[at + 2] as u32;
    let x3: u32 = b[at + 3] as u32;
    x0 + x1 * 0x100 + x2 * 0x1_0000 + x3 * 0x100_0000
}

pub fn read_u64(b: &[u8], at: usize) -> (x: u64)
    requires
        at + 8 <= b.len(),
    ensures
        x == le_u64(b@.subrange(at as int, at + 8)),
{
    let low: u64 = read_u32(b, at) as u64;
    let high: u64 = read_u32(b, at + 4) as u64;
    low + high * 0x1_0000_0000
}

/// The eight bytes of `x`, least significant first.
pub fn u64_to_le(x: u64) -> (b: Vec<u8>)
    ensures
        b@ == u64_le(x),
{
    let mut b: Vec<u8> = Vec::new();
    b.push((x % 0x100) as u8);
    b.push((x / 0x100 % 0x100) as u8);
    b.push((x / 0x1_0000 % 0x100) as u8);
    b.push((x / 0x100_0000 % 0x100) as u8);
    b.push((x / 0x1_0000_0000 % 0x100) as u8);
    b.push((x / 0x100_0000_0000 % 0x100) as u8);
    b.push((x / 0x1_0000_0000_0000 % 0x100) as u8);
    b.push((x / 0x100_0000_0000_0000 % 0x100) as u8);
    b
}

/// Writes `b` over the bytes of `s` from `at` on.
pub fn write_at(s: &mut Vec<u8>, at: usize, b: &[u8])
    requires
        at + b.len() <= old(s).len(),
    ensures
        final(s)@ == overwrite(old(s)@, at as int, b@),
{
    let mut i: usize = 0;
    while i < b.len()
        invariant
            i <= b.len(),
            at + b.len() <= s.len(),
            s@ =~= overwrite(old(s)@, at as int, b@.take(i as int)),
            s.len() == old(s).len(),
        decreases b.len() - i,
    {
        s.set(at + i, b[i]);
        i = i + 1;
    }
    assert(b@.take(i as int) =~= b@);
}

/// Whether `s` begins with the bytes `b`.
pub fn begins_with(s: &[u8], b: &[u8]) -> (yes: bool)
    ensures
        yes == (b.len() <= s.len() && s@.take(b.len() as int) == b@),
{
    if s.len() < b.len() {
        return false;
    }
    let mut i: usize = 0;
    while i < b.len()
        invariant
            i <= b.len() <= s.len(),
            forall|j: int| 0 <= j < i ==> s@[j] == b@[j],
        decreases b.len() - i,
    {
        if s[i] != b[i] {
            assert(s@.take(b.len() as int)[i as int] != b@[i as int]);
            return false;
        }
        i = i + 1;
    }
    assert(s@.take(b.len() as int) =~= b@);
    true
}

} // verus!
