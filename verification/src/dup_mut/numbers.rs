//! The numbers that accounts hold, byte by byte, and what the handlers make of them.

use crate::accounts::serialized::{AnchorAccountSerialize, BorshSerializer};
use crate::accounts::slab::Account;
use crate::dup_mut::state::{spec_id, BorshData, Data};
use crate::dup_mut::{requested, sum, written_optional, written_three, written_two};
use crate::laws::bytes::{law_bytes_of_a_number_add_up, law_eight_bytes_make_a_number};
use crate::laws::wrappers::law_slab_writes_its_header_alone;
use crate::le::u64_le;
use crate::memory::{AccountModel, AccountView, Held, Memory};
use crate::schema::{Discriminator, Owner, Pod, SlabSchema};
use crate::system_program::TransferRequest;
use solana_program_error::ProgramError;
use vstd::prelude::*;

verus! {

/// The accounts belong to the program and begin with eight bytes that tell their type;
/// the number takes the eight bytes after those.
#[verifier::rlimit(30)]
pub proof fn law_layout_of_the_accounts()
    ensures
        spec_id() == seq![
            0x15u8, 0xc3, 0x60, 0xf0, 0x5b, 0x2d, 0xcd, 0xdd, 0x1b, 0xbf, 0xa2, 0x01, 0xfb, 0x77,
            0x99, 0xd7, 0xcf, 0xa4, 0x01, 0x4c, 0x73, 0x32, 0x7b, 0x3e, 0x61, 0xac, 0x33, 0xb4,
            0x24, 0x11, 0x72, 0xdf,
        ],
        Data::spec_owner() == spec_id(),
        BorshData::spec_owner() == spec_id(),
        Data::spec_discriminator() == seq![0xceu8, 0x9c, 0x3b, 0xbc, 0x12, 0x4f, 0xf0, 0xe8],
        BorshData::spec_discriminator() == seq![0x14u8, 0xd2, 0x9e, 0x22, 0x29, 0xd7, 0xed, 0x8d],
        Data::size() == 8,
        <Data as SlabSchema>::spec_data_offset() == 8,
        <Data as SlabSchema>::spec_min_data_len() == 16,
{
}

/// A number in the Borsh format is its eight bytes, least first: it is encoded where there
/// is room for them, and decoded where they are there.
#[verifier::rlimit(30)]
pub proof fn law_borsh_number(data: BorshData, bytes: Seq<u8>, room: nat)
    ensures
        ({
            let b = <BorshSerializer as AnchorAccountSerialize<BorshData>>::encoded(data);
            &&& b.len() == 8
            &&& data.value as int == b[0] + b[1] * 0x100 + b[2] * 0x1_0000 + b[3] * 0x100_0000
                + b[4] * 0x1_0000_0000 + b[5] * 0x100_0000_0000 + b[6] * 0x1_0000_0000_0000
                + b[7] * 0x100_0000_0000_0000
        }),
        <BorshSerializer as AnchorAccountSerialize<BorshData>>::encode_error(data, room) == if room
            >= 8 {
            None::<ProgramError>
        } else {
            Some(ProgramError::AccountDataTooSmall)
        },
        ({
            let r = <BorshSerializer as AnchorAccountSerialize<BorshData>>::decoded(bytes);
            &&& r is Ok <==> bytes.len() >= 8
            &&& r matches Ok((value, n)) ==> {
                &&& n == 8
                &&& value.value as int == bytes[0] + bytes[1] * 0x100 + bytes[2] * 0x1_0000
                    + bytes[3] * 0x100_0000 + bytes[4] * 0x1_0000_0000
                    + bytes[5] * 0x100_0000_0000 + bytes[6] * 0x1_0000_0000_0000
                    + bytes[7] * 0x100_0000_0000_0000
            }
            &&& r matches Err(e) ==> e == ProgramError::InvalidAccountData
        }),
{
    law_bytes_of_a_number_add_up(data.value);
    law_eight_bytes_make_a_number(bytes);
}

/// The number of an account is that of its bytes eight to fifteen, least first.
#[verifier::rlimit(30)]
pub proof fn law_number_of_an_account(account: Account<Data>, m: Memory)
    requires
        account.view.slot < m.len(),
        m[account.view.slot as int].data.len() >= 16,
    ensures
        ({
            let d = m[account.view.slot as int].data;
            account.read(m).value as int == d[8] + d[9] * 0x100 + d[10] * 0x1_0000
                + d[11] * 0x100_0000 + d[12] * 0x1_0000_0000 + d[13] * 0x100_0000_0000
                + d[14] * 0x1_0000_0000_0000 + d[15] * 0x100_0000_0000_0000
        }),
{
    let d = m[account.view.slot as int].data;
    law_eight_bytes_make_a_number(d.subrange(8, 16));
}

/// Writing a number changes those eight bytes and nothing else.
#[verifier::rlimit(30)]
pub proof fn law_number_is_written_in_place(account: Account<Data>, m: Memory, data: Data)
    requires
        account.view.slot < m.len(),
        m[account.view.slot as int].data.len() >= 16,
    ensures
        ({
            let at = account.view.slot as int;
            let n = account.stored(m, data);
            let d = n[at].data;
            &&& n.len() == m.len()
            &&& forall|i: int| 0 <= i < m.len() && i != at ==> #[trigger] n[i] == m[i]
            &&& n[at] == (AccountModel { data: d, ..m[at] })
            &&& d.len() == m[at].data.len()
            &&& forall|i: int|
                0 <= i < d.len() && !(8 <= i < 16) ==> #[trigger] d[i] == m[at].data[i]
            &&& data.value as int == d[8] + d[9] * 0x100 + d[10] * 0x1_0000
                + d[11] * 0x100_0000 + d[12] * 0x1_0000_0000 + d[13] * 0x100_0000_0000
                + d[14] * 0x1_0000_0000_0000 + d[15] * 0x100_0000_0000_0000
        }),
{
    let at = account.view.slot as int;
    law_bytes_of_a_number_add_up(data.value);
    law_slab_writes_its_header_alone(account, m, data);
    let d = account.stored(m, data)[at].data;
    law_eight_bytes_make_a_number(d.subrange(8, 16));
    assert(d.subrange(8, 16) == u64_le(data.value));
}

/// `n` is `m` but for the bytes eight to fifteen of one account.
#[verifier::opaque]
spec fn differs_in_number(m: Memory, n: Memory, at: int) -> bool {
    &&& n.len() == m.len()
    &&& forall|i: int| 0 <= i < m.len() && i != at ==> #[trigger] n[i] == m[i]
    &&& n[at] == (AccountModel { data: n[at].data, ..m[at] })
    &&& n[at].data.len() == m[at].data.len()
    &&& forall|i: int|
        0 <= i < n[at].data.len() && !(8 <= i < 16) ==> #[trigger] n[at].data[i] == m[at].data[i]
}

/// The number in the bytes eight to fifteen.
#[verifier::opaque]
spec fn number_in(d: Seq<u8>) -> int {
    d[8] + d[9] * 0x100 + d[10] * 0x1_0000 + d[11] * 0x100_0000 + d[12] * 0x1_0000_0000
        + d[13] * 0x100_0000_0000 + d[14] * 0x1_0000_0000_0000 + d[15] * 0x100_0000_0000_0000
}

/// What [`law_number_is_written_in_place`] says, in short.
#[verifier::rlimit(30)]
proof fn lemma_written(account: Account<Data>, m: Memory, data: Data)
    requires
        account.view.slot < m.len(),
        m[account.view.slot as int].data.len() >= 16,
    ensures
        differs_in_number(m, account.stored(m, data), account.view.slot as int),
        number_in(account.stored(m, data)[account.view.slot as int].data) == data.value,
{
    reveal(differs_in_number);
    reveal(number_in);
    law_number_is_written_in_place(account, m, data);
}

/// An account that was not written is as it was.
#[verifier::rlimit(30)]
proof fn lemma_other_account(m: Memory, n: Memory, at: int, other: int)
    requires
        differs_in_number(m, n, at),
        0 <= other < m.len(),
        other != at,
    ensures
        n.len() == m.len(),
        n[other] == m[other],
{
    reveal(differs_in_number);
}

/// What two writes to different accounts leave as it was.
#[verifier::rlimit(30)]
proof fn lemma_two_writes(m: Memory, first: Memory, n: Memory, a: int, b: int)
    requires
        0 <= a < m.len(),
        0 <= b < m.len(),
        a != b,
        differs_in_number(m, first, a),
        differs_in_number(first, n, b),
    ensures
        n.len() == m.len(),
        n[a] == first[a],
        forall|i: int| 0 <= i < m.len() ==> {
            let account = #[trigger] n[i];
            &&& account == (AccountModel { data: account.data, ..m[i] })
            &&& account.data.len() == m[i].data.len()
            &&& i != a && i != b ==> account == m[i]
            &&& forall|k: int|
                0 <= k < account.data.len() && !(8 <= k < 16) ==> #[trigger] account.data[k]
                    == m[i].data[k]
        },
{
    reveal(differs_in_number);
}

/// What one more write to a third account leaves as it was.
#[verifier::rlimit(30)]
proof fn lemma_third_write(m: Memory, two: Memory, n: Memory, a: int, b: int, c: int)
    requires
        0 <= a < m.len(),
        0 <= b < m.len(),
        0 <= c < m.len(),
        a != c,
        b != c,
        two.len() == m.len(),
        forall|i: int| 0 <= i < m.len() ==> {
            let account = #[trigger] two[i];
            &&& account == (AccountModel { data: account.data, ..m[i] })
            &&& account.data.len() == m[i].data.len()
            &&& i != a && i != b ==> account == m[i]
            &&& forall|k: int|
                0 <= k < account.data.len() && !(8 <= k < 16) ==> #[trigger] account.data[k]
                    == m[i].data[k]
        },
        differs_in_number(two, n, c),
    ensures
        n.len() == m.len(),
        n[a] == two[a],
        n[b] == two[b],
        forall|i: int| 0 <= i < m.len() ==> {
            let account = #[trigger] n[i];
            &&& account == (AccountModel { data: account.data, ..m[i] })
            &&& account.data.len() == m[i].data.len()
            &&& i != a && i != b && i != c ==> account == m[i]
            &&& forall|k: int|
                0 <= k < account.data.len() && !(8 <= k < 16) ==> #[trigger] account.data[k]
                    == m[i].data[k]
        },
{
    reveal(differs_in_number);
    assert forall|i: int| 0 <= i < m.len() implies {
        let account = #[trigger] n[i];
        &&& account == (AccountModel { data: account.data, ..m[i] })
        &&& account.data.len() == m[i].data.len()
        &&& i != a && i != b && i != c ==> account == m[i]
        &&& forall|k: int|
            0 <= k < account.data.len() && !(8 <= k < 16) ==> #[trigger] account.data[k]
                == m[i].data[k]
    } by {
        let earlier = two[i];
        assert(earlier.data.len() == m[i].data.len());
        if i != c {
            assert(n[i] == earlier);
        }
    }
}

/// The number of some bytes is their sum, each weighted by its place.
#[verifier::rlimit(30)]
proof fn lemma_number_in(d: Seq<u8>)
    ensures
        number_in(d) == d[8] + d[9] * 0x100 + d[10] * 0x1_0000 + d[11] * 0x100_0000
            + d[12] * 0x1_0000_0000 + d[13] * 0x100_0000_0000 + d[14] * 0x1_0000_0000_0000
            + d[15] * 0x100_0000_0000_0000,
{
    reveal(number_in);
}

/// Counting on, beyond the limit from zero again.
#[verifier::rlimit(30)]
proof fn lemma_counting_on(value: u64)
    ensures
        value.wrapping_add(1) as int == (value + 1) % 0x1_0000_0000_0000_0000,
        value.wrapping_add(2) as int == (value + 2) % 0x1_0000_0000_0000_0000,
{
}

/// The sum is that of `value` and all eight bytes of the number that is read, beyond the
/// limit from zero again.
#[verifier::rlimit(30)]
pub proof fn law_sum_takes_the_whole_number(account: Account<Data>, m: Memory, value: u64)
    requires
        account.view.slot < m.len(),
        m[account.view.slot as int].data.len() >= 16,
    ensures
        ({
            let d = m[account.view.slot as int].data;
            sum(account, m, value).value as int == (value + (d[8] + d[9] * 0x100
                + d[10] * 0x1_0000 + d[11] * 0x100_0000 + d[12] * 0x1_0000_0000
                + d[13] * 0x100_0000_0000 + d[14] * 0x1_0000_0000_0000
                + d[15] * 0x100_0000_0000_0000)) % 0x1_0000_0000_0000_0000
        }),
{
    law_number_of_an_account(account, m);
}

/// An account that gets the sum holds, in its eight bytes, `value` and the whole number
/// that the other one held, added up, beyond the limit from zero again.
#[verifier::rlimit(30)]
pub proof fn law_sum_is_written(
    read: Account<Data>,
    written: Account<Data>,
    m: Memory,
    value: u64,
)
    requires
        read.view.slot < m.len(),
        written.view.slot < m.len(),
        m[read.view.slot as int].data.len() >= 16,
        m[written.view.slot as int].data.len() >= 16,
    ensures
        ({
            let d = m[read.view.slot as int].data;
            let e = written.stored(m, sum(read, m, value))[written.view.slot as int].data;
            (value + (d[8] + d[9] * 0x100 + d[10] * 0x1_0000 + d[11] * 0x100_0000
                + d[12] * 0x1_0000_0000 + d[13] * 0x100_0000_0000 + d[14] * 0x1_0000_0000_0000
                + d[15] * 0x100_0000_0000_0000)) % 0x1_0000_0000_0000_0000 == e[8]
                + e[9] * 0x100 + e[10] * 0x1_0000 + e[11] * 0x100_0000 + e[12] * 0x1_0000_0000
                + e[13] * 0x100_0000_0000 + e[14] * 0x1_0000_0000_0000
                + e[15] * 0x100_0000_0000_0000
        }),
{
    law_sum_takes_the_whole_number(read, m, value);
    lemma_written(written, m, sum(read, m, value));
    lemma_number_in(
        written.stored(m, sum(read, m, value))[written.view.slot as int].data,
    );
}

/// Two accounts that are written hold `value` and the number after it, each in its eight
/// bytes; nothing else changes.
#[verifier::rlimit(30)]
pub proof fn law_two_numbers_are_written(a: Account<Data>, b: Account<Data>, m: Memory, value: u64)
    requires
        a.view.slot < m.len(),
        b.view.slot < m.len(),
        a.view.slot != b.view.slot,
        m[a.view.slot as int].data.len() >= 16,
        m[b.view.slot as int].data.len() >= 16,
    ensures
        ({
            let n = written_two(a, b, m, value);
            let x = n[a.view.slot as int].data;
            let y = n[b.view.slot as int].data;
            &&& n.len() == m.len()
            &&& value as int == x[8] + x[9] * 0x100 + x[10] * 0x1_0000 + x[11] * 0x100_0000
                + x[12] * 0x1_0000_0000 + x[13] * 0x100_0000_0000 + x[14] * 0x1_0000_0000_0000
                + x[15] * 0x100_0000_0000_0000
            &&& (value + 1) % 0x1_0000_0000_0000_0000 == y[8] + y[9] * 0x100 + y[10] * 0x1_0000
                + y[11] * 0x100_0000 + y[12] * 0x1_0000_0000 + y[13] * 0x100_0000_0000
                + y[14] * 0x1_0000_0000_0000 + y[15] * 0x100_0000_0000_0000
            &&& forall|i: int| 0 <= i < m.len() ==> {
                let account = #[trigger] n[i];
                &&& account == (AccountModel { data: account.data, ..m[i] })
                &&& account.data.len() == m[i].data.len()
                &&& i != a.view.slot && i != b.view.slot ==> account == m[i]
                &&& forall|k: int|
                    0 <= k < account.data.len() && !(8 <= k < 16) ==> #[trigger] account.data[k]
                        == m[i].data[k]
            }
        }),
{
    let x = Data { value };
    let y = Data { value: value.wrapping_add(1) };
    let first = a.stored(m, x);
    lemma_written(a, m, x);
    lemma_other_account(m, first, a.view.slot as int, b.view.slot as int);
    lemma_written(b, first, y);
    lemma_two_writes(
        m,
        first,
        written_two(a, b, m, value),
        a.view.slot as int,
        b.view.slot as int,
    );
    lemma_counting_on(value);
    lemma_number_in(written_two(a, b, m, value)[a.view.slot as int].data);
    lemma_number_in(written_two(a, b, m, value)[b.view.slot as int].data);
}

/// Three accounts that are written hold `value` and the two numbers after it, each in its
/// eight bytes; nothing else changes.
#[verifier::rlimit(30)]
pub proof fn law_three_numbers_are_written(
    a: Account<Data>,
    b: Account<Data>,
    c: Account<Data>,
    m: Memory,
    value: u64,
)
    requires
        a.view.slot < m.len(),
        b.view.slot < m.len(),
        c.view.slot < m.len(),
        a.view.slot != b.view.slot,
        a.view.slot != c.view.slot,
        b.view.slot != c.view.slot,
        m[a.view.slot as int].data.len() >= 16,
        m[b.view.slot as int].data.len() >= 16,
        m[c.view.slot as int].data.len() >= 16,
    ensures
        ({
            let n = written_three(a, b, c, m, value);
            let x = n[a.view.slot as int].data;
            let y = n[b.view.slot as int].data;
            let z = n[c.view.slot as int].data;
            &&& n.len() == m.len()
            &&& value as int == x[8] + x[9] * 0x100 + x[10] * 0x1_0000 + x[11] * 0x100_0000
                + x[12] * 0x1_0000_0000 + x[13] * 0x100_0000_0000 + x[14] * 0x1_0000_0000_0000
                + x[15] * 0x100_0000_0000_0000
            &&& (value + 1) % 0x1_0000_0000_0000_0000 == y[8] + y[9] * 0x100 + y[10] * 0x1_0000
                + y[11] * 0x100_0000 + y[12] * 0x1_0000_0000 + y[13] * 0x100_0000_0000
                + y[14] * 0x1_0000_0000_0000 + y[15] * 0x100_0000_0000_0000
            &&& (value + 2) % 0x1_0000_0000_0000_0000 == z[8] + z[9] * 0x100 + z[10] * 0x1_0000
                + z[11] * 0x100_0000 + z[12] * 0x1_0000_0000 + z[13] * 0x100_0000_0000
                + z[14] * 0x1_0000_0000_0000 + z[15] * 0x100_0000_0000_0000
            &&& forall|i: int| 0 <= i < m.len() ==> {
                let account = #[trigger] n[i];
                &&& account == (AccountModel { data: account.data, ..m[i] })
                &&& account.data.len() == m[i].data.len()
                &&& i != a.view.slot && i != b.view.slot && i != c.view.slot ==> account == m[i]
                &&& forall|k: int|
                    0 <= k < account.data.len() && !(8 <= k < 16) ==> #[trigger] account.data[k]
                        == m[i].data[k]
            }
        }),
{
    let two = written_two(a, b, m, value);
    law_two_numbers_are_written(a, b, m, value);
    assert(two[c.view.slot as int].data.len() >= 16);
    lemma_written(c, two, Data { value: value.wrapping_add(2) });
    lemma_third_write(
        m,
        two,
        written_three(a, b, c, m, value),
        a.view.slot as int,
        b.view.slot as int,
        c.view.slot as int,
    );
    lemma_counting_on(value);
    lemma_number_in(written_three(a, b, c, m, value)[c.view.slot as int].data);
}

/// Where the first of two accounts is absent, only the second is written, with the number
/// after `value`; where it is there, both are.
#[verifier::rlimit(30)]
pub proof fn law_absent_account_is_not_written(
    a: Option<Account<Data>>,
    b: Account<Data>,
    m: Memory,
    value: u64,
)
    requires
        b.view.slot < m.len(),
        m[b.view.slot as int].data.len() >= 16,
    ensures
        a matches Some(there) ==> written_optional(a, b, m, value) == written_two(
            there,
            b,
            m,
            value,
        ),
        a is None ==> {
            let at = b.view.slot as int;
            let n = written_optional(a, b, m, value);
            let y = n[at].data;
            &&& n.len() == m.len()
            &&& (value + 1) % 0x1_0000_0000_0000_0000 == y[8] + y[9] * 0x100 + y[10] * 0x1_0000
                + y[11] * 0x100_0000 + y[12] * 0x1_0000_0000 + y[13] * 0x100_0000_0000
                + y[14] * 0x1_0000_0000_0000 + y[15] * 0x100_0000_0000_0000
            &&& forall|i: int| 0 <= i < m.len() && i != at ==> #[trigger] n[i] == m[i]
            &&& n[at] == (AccountModel { data: y, ..m[at] })
            &&& y.len() == m[at].data.len()
            &&& forall|i: int|
                0 <= i < y.len() && !(8 <= i < 16) ==> #[trigger] y[i] == m[at].data[i]
        },
{
    law_number_is_written_in_place(b, m, Data { value: value.wrapping_add(1) });
}

/// A transfer is asked for exactly where neither account is borrowed, and asks the program
/// at the address given for exactly that transfer; otherwise the error is that the data is
/// borrowed.
#[verifier::rlimit(30)]
pub proof fn law_what_is_asked_for(
    r: Result<TransferRequest, ProgramError>,
    m: Memory,
    program: AccountView,
    from: AccountView,
    to: AccountView,
    lamports: u64,
)
    ensures
        requested(r, m, program, from, to, lamports) <==> {
            let free = m[from.slot as int].borrow_state == 255 && m[to.slot as int].borrow_state
                == 255;
            &&& !free ==> r == Err::<TransferRequest, ProgramError>(
                ProgramError::AccountBorrowFailed,
            )
            &&& free ==> {
                &&& r matches Ok(request)
                &&& request.program.bytes@ == m[program.slot as int].address
                &&& request.from.slot == from.slot
                &&& request.to.slot == to.slot
                &&& request.lamports == lamports
            }
        },
{
}

} // verus!
