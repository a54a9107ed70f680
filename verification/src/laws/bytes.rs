//! Numbers and byte strings.

use crate::le::{law_u64_round_trip, le_u32, le_u64, overwrite, u64_le, zeros};
use crate::schema::Pod;
use vstd::prelude::*;

verus! {

/// A number of eight bytes is the sum of its bytes, each weighted by its place, the first
/// one least.
pub proof fn law_eight_bytes_make_a_number(b: Seq<u8>)
    ensures
        le_u64(b) as int == b[0] + b[1] * 0x100 + b[2] * 0x1_0000 + b[3] * 0x100_0000
            + b[4] * 0x1_0000_0000 + b[5] * 0x100_0000_0000 + b[6] * 0x1_0000_0000_0000
            + b[7] * 0x100_0000_0000_0000,
{
}

/// A number of four bytes is the sum of its bytes, each weighted by its place, the first
/// one least.
pub proof fn law_four_bytes_make_a_number(b: Seq<u8>)
    ensures
        le_u32(b) as int == b[0] + b[1] * 0x100 + b[2] * 0x1_0000 + b[3] * 0x100_0000,
{
}

/// The bytes of a number add up to it, each weighted by its place, the first one least.
pub proof fn law_bytes_of_a_number_add_up(x: u64)
    ensures
        u64_le(x).len() == 8,
        ({
            let b = u64_le(x);
            x as int == b[0] + b[1] * 0x100 + b[2] * 0x1_0000 + b[3] * 0x100_0000
                + b[4] * 0x1_0000_0000 + b[5] * 0x100_0000_0000 + b[6] * 0x1_0000_0000_0000
                + b[7] * 0x100_0000_0000_0000
        }),
{
    law_u64_round_trip(x);
}

/// Overwriting puts the new bytes in their place and leaves every other byte as it was.
pub proof fn law_overwriting_changes_nothing_else(s: Seq<u8>, at: int, b: Seq<u8>)
    requires
        0 <= at,
        at + b.len() <= s.len(),
    ensures
        overwrite(s, at, b).len() == s.len(),
        forall|i: int| at <= i < at + b.len() ==> #[trigger] overwrite(s, at, b)[i] == b[i - at],
        forall|i: int|
            0 <= i < s.len() && !(at <= i < at + b.len()) ==> #[trigger] overwrite(s, at, b)[i]
                == s[i],
{
}

/// Zero bytes are zero, and as many as asked for.
pub proof fn law_zeros(n: int)
    requires
        n >= 0,
    ensures
        zeros(n).len() == n,
        forall|i: int| 0 <= i < n ==> #[trigger] zeros(n)[i] == 0,
{
}

/// The bytes of a number are those, and only those, that make it up.
pub proof fn law_same_bytes_of_a_number(x: u64, b: Seq<u8>)
    requires
        b.len() == 8,
        x as int == b[0] + b[1] * 0x100 + b[2] * 0x1_0000 + b[3] * 0x100_0000
            + b[4] * 0x1_0000_0000 + b[5] * 0x100_0000_0000 + b[6] * 0x1_0000_0000_0000
            + b[7] * 0x100_0000_0000_0000,
    ensures
        u64_le(x) == b,
{
    let b0 = b[0];
    let b1 = b[1];
    let b2 = b[2];
    let b3 = b[3];
    let b4 = b[4];
    let b5 = b[5];
    let b6 = b[6];
    let b7 = b[7];
    assert(x % 0x100 == b0 && x / 0x100 % 0x100 == b1 && x / 0x1_0000 % 0x100 == b2
        && x / 0x100_0000 % 0x100 == b3 && x / 0x1_0000_0000 % 0x100 == b4
        && x / 0x100_0000_0000 % 0x100 == b5 && x / 0x1_0000_0000_0000 % 0x100 == b6
        && x / 0x100_0000_0000_0000 % 0x100 == b7) by (bit_vector)
        requires
            x == b0 + b1 * 0x100 + b2 * 0x1_0000 + b3 * 0x100_0000 + b4 * 0x1_0000_0000
                + b5 * 0x100_0000_0000 + b6 * 0x1_0000_0000_0000 + b7 * 0x100_0000_0000_0000,
    ;
    assert(u64_le(x) =~= b);
}

/// A byte is encoded as itself.
pub proof fn law_byte_is_its_own_encoding(x: u8, b: Seq<u8>)
    ensures
        <u8 as Pod>::size() == 1,
        x.encoded() == seq![x],
        <u8 as Pod>::decoded(b) == b[0],
{
}

} // verus!
