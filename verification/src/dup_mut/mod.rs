//! A program whose accounts may alias each other.
//!
//! Data-carrying wrappers (`Account<T>`, `BorshAccount<T>`, `Box<_>`) hold a borrow on
//! the account's runtime borrow state, so loading a conflicting alias fails. Wrappers
//! that expose no typed data (`Signer`, `SystemAccount`, `UncheckedAccount`) hold no
//! borrow and accept aliases; raw borrows and handles for other programs through them
//! still honor the data wrappers' borrows.

pub mod accounts;
pub mod creation;
pub mod declared;
pub mod init;
pub mod instruction;
pub mod laws;
pub mod loading;
pub mod numbers;
pub mod outcomes;
pub mod state;
pub mod validation;

use crate::accounts::serialized::SerializedAccount;
use crate::accounts::slab::{law_slab_reads_what_was_stored, Account};
use crate::accounts::AnchorAccount;
use crate::context::Context;
use crate::dispatch::steady;
use crate::dup_mut::accounts::{
    ReadTwo, SignerRoles, TouchBorshMutAndReadonly, TouchBoxedMutAndReadonly, TouchDataAndRaw,
    TouchMutAndReadonly, TouchNestedMutReadonly, TouchNestedTwoMut, TouchOptionalMutAndMut,
    TouchOuterMutPlusNested, TouchReadonlyAndMut, TouchThreeMut, TouchTwoMut, TransferToRawAlias,
    TransferToRecipient,
};
use crate::dup_mut::init::{Initialize, InitializeBorsh};
use crate::dup_mut::numbers::{
    law_absent_account_is_not_written, law_number_is_written_in_place, law_number_of_an_account,
    law_sum_is_written, law_three_numbers_are_written, law_two_numbers_are_written,
};
use crate::dup_mut::state::{law_data_is_read_back, BorshData, Data};
use crate::laws::borrows::law_shared_borrow_counts_down;
use crate::memory::{
    borrow_states, can_take, held, law_exclusively_held_accounts_differ,
    law_release_undoes_borrow, lemma_same_states, same_shape, shared_hold, AccountMemory,
    AccountView, Held, Memory, Release,
};
use crate::system_program::{borrowed, transfer, CpiContext, Transfer, TransferRequest};
use solana_program_error::ProgramError;
use vstd::multiset::Multiset;
use vstd::prelude::*;

verus! {

/// The memory with `value` and the number after it written into two accounts.
pub open spec fn written_two(
    a: Account<Data>,
    b: Account<Data>,
    m: Memory,
    value: u64,
) -> Memory {
    b.stored(a.stored(m, Data { value }), Data { value: value.wrapping_add(1) })
}

/// The memory with `value` and the two numbers after it written into three accounts.
pub open spec fn written_three(
    a: Account<Data>,
    b: Account<Data>,
    c: Account<Data>,
    m: Memory,
    value: u64,
) -> Memory {
    c.stored(written_two(a, b, m, value), Data { value: value.wrapping_add(2) })
}

/// `value` and what an account holds, added up.
pub open spec fn sum(read: Account<Data>, m: Memory, value: u64) -> Data {
    Data { value: value.wrapping_add(read.read(m).value) }
}

/// The memory with `value` written into the first account, where it is there, and the
/// number after it into the second.
pub open spec fn written_optional(
    a: Option<Account<Data>>,
    b: Account<Data>,
    m: Memory,
    value: u64,
) -> Memory {
    match a {
        Some(a) => written_two(a, b, m, value),
        None => b.stored(m, Data { value: value.wrapping_add(1) }),
    }
}

/// What asking the System program for a transfer gives: a request for exactly that
/// transfer, unless one of the two accounts is borrowed.
pub open spec fn requested(
    r: Result<TransferRequest, ProgramError>,
    m: Memory,
    program: AccountView,
    from: AccountView,
    to: AccountView,
    lamports: u64,
) -> bool {
    &&& r is Err <==> borrowed(m, from) || borrowed(m, to)
    &&& match r {
        Err(e) => e == ProgramError::AccountBorrowFailed,
        Ok(request) => {
            &&& request.program@ == m[program.slot as int].address
            &&& request.from == from
            &&& request.to == to
            &&& request.lamports == lamports
        },
    }
}

/// A number that was written is read back, every other account is as it was, and so
/// are all borrow states.
pub proof fn law_stored_number_is_read_back(slab: Account<Data>, m: Memory, data: Data)
    requires
        slab.live(m),
    ensures
        slab.read(slab.stored(m, data)) == data,
        forall|i: int|
            0 <= i < m.len() && i != slab.view.slot ==> #[trigger] slab.stored(m, data)[i] == m[i],
        borrow_states(slab.stored(m, data)) == borrow_states(m),
        same_shape(m, slab.stored(m, data)),
{
    law_data_is_read_back(data);
    law_slab_reads_what_was_stored(slab, m, data);
}

/// Writing a number into a slab keeps a struct of accounts steady.
proof fn lemma_stored_steady<T: Held>(accounts: T, slab: Account<Data>, m: Memory, data: Data)
    requires
        accounts.live(m),
        held(m, accounts.holds()),
        slab.live(m),
    ensures
        steady(accounts, m, accounts, slab.stored(m, data)),
{
    law_stored_number_is_read_back(slab, m, data);
    lemma_same_states(m, slab.stored(m, data), accounts.holds());
    accounts.lemma_live_stays(m, slab.stored(m, data));
}

/// Two numbers written into accounts that are held exclusively are both read back.
proof fn lemma_stored_twice<T: Held>(
    accounts: T,
    a: Account<Data>,
    b: Account<Data>,
    m: Memory,
    x: Data,
    y: Data,
)
    requires
        accounts.live(m),
        held(m, accounts.holds()),
        accounts.holds() == a.holds().add(b.holds()),
        a.live(m),
        b.live(m),
        a.mutable,
        b.mutable,
    ensures
        a.read(b.stored(a.stored(m, x), y)) == x,
        b.read(b.stored(a.stored(m, x), y)) == y,
        b.live(a.stored(m, x)),
        steady(accounts, m, accounts, b.stored(a.stored(m, x), y)),
        a.view.slot != b.view.slot,
{
    let n = a.stored(m, x);
    lemma_stored_steady(accounts, a, m, x);
    law_stored_number_is_read_back(a, m, x);
    b.lemma_live_stays(m, n);
    lemma_stored_steady(accounts, b, n, y);
    law_stored_number_is_read_back(b, n, y);
    assert(accounts.holds() =~= accounts.holds().add(Multiset::empty()));
    law_exclusively_held_accounts_differ(m, a.view, b.view, Multiset::empty());
}

/// Three numbers written into accounts that are held exclusively are all read back.
proof fn lemma_stored_thrice<T: Held>(
    accounts: T,
    a: Account<Data>,
    b: Account<Data>,
    c: Account<Data>,
    m: Memory,
    x: Data,
    y: Data,
    z: Data,
)
    requires
        accounts.live(m),
        held(m, accounts.holds()),
        accounts.holds() =~= a.holds().add(b.holds()).add(c.holds()),
        a.live(m),
        b.live(m),
        c.live(m),
        a.mutable,
        b.mutable,
        c.mutable,
    ensures
        a.read(c.stored(b.stored(a.stored(m, x), y), z)) == x,
        b.read(c.stored(b.stored(a.stored(m, x), y), z)) == y,
        c.read(c.stored(b.stored(a.stored(m, x), y), z)) == z,
        b.live(a.stored(m, x)),
        c.live(b.stored(a.stored(m, x), y)),
        steady(accounts, m, accounts, c.stored(b.stored(a.stored(m, x), y), z)),
        a.view.slot != b.view.slot,
        a.view.slot != c.view.slot,
        b.view.slot != c.view.slot,
{
    let n = a.stored(m, x);
    lemma_stored_steady(accounts, a, m, x);
    law_stored_number_is_read_back(a, m, x);
    b.lemma_live_stays(m, n);
    c.lemma_live_stays(m, n);
    let k = b.stored(n, y);
    lemma_stored_steady(accounts, b, n, y);
    law_stored_number_is_read_back(b, n, y);
    c.lemma_live_stays(n, k);
    lemma_stored_steady(accounts, c, k, z);
    law_stored_number_is_read_back(c, k, z);
    law_exclusively_held_accounts_differ(m, a.view, b.view, c.holds());
    let h = accounts.holds();
    assert(h =~= a.holds().add(c.holds()).add(b.holds()));
    law_exclusively_held_accounts_differ(m, a.view, c.view, b.holds());
    assert(h =~= b.holds().add(c.holds()).add(a.holds()));
    law_exclusively_held_accounts_differ(m, b.view, c.view, a.holds());
}

/// Leaves the new account as it is.
pub fn initialize<'a>(ctx: &mut Context<'a, Initialize>, seed: u8) -> (r: Result<(), ProgramError>)
    ensures
        r == Ok::<(), ProgramError>(()),
        *final(ctx) == *old(ctx),
{
    let _ = seed;
    Ok(())
}

/// Leaves the new account as it is.
pub fn initialize_borsh<'a>(ctx: &mut Context<'a, InitializeBorsh>, seed: u8) -> (r: Result<
    (),
    ProgramError,
>)
    ensures
        r == Ok::<(), ProgramError>(()),
        *final(ctx) == *old(ctx),
{
    let _ = seed;
    Ok(())
}

/// Writes `value` and the number after it.
#[verifier::rlimit(40)]
pub fn touch_two_mut<'a>(
    ctx: &mut Context<'a, TouchTwoMut>,
    memory: &mut AccountMemory,
    value: u64,
) -> (r: Result<(), ProgramError>)
    requires
        old(ctx).accounts.live(old(memory)@),
        held(old(memory)@, old(ctx).accounts.holds()),
    ensures
        r == Ok::<(), ProgramError>(()),
        *final(ctx) == *old(ctx),
        ({
            let a = old(ctx).accounts.data_a;
            let b = old(ctx).accounts.data_b;
            &&& final(memory)@ == written_two(a, b, old(memory)@, value)
            &&& a.read(final(memory)@).value == value
            &&& b.read(final(memory)@).value == value.wrapping_add(1)
        }),
        ({
            let x = final(memory)@[old(ctx).accounts.data_a.view.slot as int].data;
            let y = final(memory)@[old(ctx).accounts.data_b.view.slot as int].data;
            &&& value as int == x[8] + x[9] * 0x100 + x[10] * 0x1_0000 + x[11] * 0x100_0000
                + x[12] * 0x1_0000_0000 + x[13] * 0x100_0000_0000 + x[14] * 0x1_0000_0000_0000
                + x[15] * 0x100_0000_0000_0000
            &&& (value + 1) % 0x1_0000_0000_0000_0000 == y[8] + y[9] * 0x100 + y[10] * 0x1_0000
                + y[11] * 0x100_0000 + y[12] * 0x1_0000_0000 + y[13] * 0x100_0000_0000
                + y[14] * 0x1_0000_0000_0000 + y[15] * 0x100_0000_0000_0000
        }),
        steady(old(ctx).accounts, old(memory)@, final(ctx).accounts, final(memory)@),
{
    proof {
        lemma_stored_twice(
            ctx.accounts,
            ctx.accounts.data_a,
            ctx.accounts.data_b,
            memory@,
            Data { value },
            Data { value: value.wrapping_add(1) },
        );
        law_two_numbers_are_written(
            ctx.accounts.data_a,
            ctx.accounts.data_b,
            memory@,
            value,
        );
    }
    ctx.accounts.data_a.set(memory, Data { value });
    ctx.accounts.data_b.set(memory, Data { value: value.wrapping_add(1) });
    Ok(())
}

/// Writes `value` and the two numbers after it.
#[verifier::rlimit(40)]
pub fn touch_three_mut<'a>(
    ctx: &mut Context<'a, TouchThreeMut>,
    memory: &mut AccountMemory,
    value: u64,
) -> (r: Result<(), ProgramError>)
    requires
        old(ctx).accounts.live(old(memory)@),
        held(old(memory)@, old(ctx).accounts.holds()),
    ensures
        r == Ok::<(), ProgramError>(()),
        *final(ctx) == *old(ctx),
        ({
            let a = old(ctx).accounts.data_a;
            let b = old(ctx).accounts.data_b;
            let c = old(ctx).accounts.data_c;
            &&& final(memory)@ == written_three(a, b, c, old(memory)@, value)
            &&& a.read(final(memory)@).value == value
            &&& b.read(final(memory)@).value == value.wrapping_add(1)
            &&& c.read(final(memory)@).value == value.wrapping_add(2)
        }),
        ({
            let x = final(memory)@[old(ctx).accounts.data_a.view.slot as int].data;
            let y = final(memory)@[old(ctx).accounts.data_b.view.slot as int].data;
            let z = final(memory)@[old(ctx).accounts.data_c.view.slot as int].data;
            &&& value as int == x[8] + x[9] * 0x100 + x[10] * 0x1_0000 + x[11] * 0x100_0000
                + x[12] * 0x1_0000_0000 + x[13] * 0x100_0000_0000 + x[14] * 0x1_0000_0000_0000
                + x[15] * 0x100_0000_0000_0000
            &&& (value + 1) % 0x1_0000_0000_0000_0000 == y[8] + y[9] * 0x100 + y[10] * 0x1_0000
                + y[11] * 0x100_0000 + y[12] * 0x1_0000_0000 + y[13] * 0x100_0000_0000
                + y[14] * 0x1_0000_0000_0000 + y[15] * 0x100_0000_0000_0000
            &&& (value + 2) % 0x1_0000_0000_0000_0000 == z[8] + z[9] * 0x100 + z[10] * 0x1_0000
                + z[11] * 0x100_0000 + z[12] * 0x1_0000_0000 + z[13] * 0x100_0000_0000
                + z[14] * 0x1_0000_0000_0000 + z[15] * 0x100_0000_0000_0000
        }),
        steady(old(ctx).accounts, old(memory)@, final(ctx).accounts, final(memory)@),
{
    proof {
        lemma_stored_thrice(
            ctx.accounts,
            ctx.accounts.data_a,
            ctx.accounts.data_b,
            ctx.accounts.data_c,
            memory@,
            Data { value },
            Data { value: value.wrapping_add(1) },
            Data { value: value.wrapping_add(2) },
        );
        law_three_numbers_are_written(
            ctx.accounts.data_a,
            ctx.accounts.data_b,
            ctx.accounts.data_c,
            memory@,
            value,
        );
    }
    ctx.accounts.data_a.set(memory, Data { value });
    ctx.accounts.data_b.set(memory, Data { value: value.wrapping_add(1) });
    ctx.accounts.data_c.set(memory, Data { value: value.wrapping_add(2) });
    Ok(())
}

/// Writes into the first account `value` and what the second holds, added up.
#[verifier::rlimit(40)]
pub fn touch_mut_and_readonly<'a>(
    ctx: &mut Context<'a, TouchMutAndReadonly>,
    memory: &mut AccountMemory,
    value: u64,
) -> (r: Result<(), ProgramError>)
    requires
        old(ctx).accounts.live(old(memory)@),
        held(old(memory)@, old(ctx).accounts.holds()),
    ensures
        r == Ok::<(), ProgramError>(()),
        *final(ctx) == *old(ctx),
        ({
            let written = old(ctx).accounts.data_a;
            let x = sum(old(ctx).accounts.data_b, old(memory)@, value);
            &&& final(memory)@ == written.stored(old(memory)@, x)
            &&& written.read(final(memory)@) == x
        }),
        ({
            let d = old(memory)@[old(ctx).accounts.data_b.view.slot as int].data;
            let e = final(memory)@[old(ctx).accounts.data_a.view.slot as int].data;
            (value + (d[8] + d[9] * 0x100 + d[10] * 0x1_0000 + d[11] * 0x100_0000
                + d[12] * 0x1_0000_0000 + d[13] * 0x100_0000_0000 + d[14] * 0x1_0000_0000_0000
                + d[15] * 0x100_0000_0000_0000)) % 0x1_0000_0000_0000_0000 == e[8]
                + e[9] * 0x100 + e[10] * 0x1_0000 + e[11] * 0x100_0000 + e[12] * 0x1_0000_0000
                + e[13] * 0x100_0000_0000 + e[14] * 0x1_0000_0000_0000
                + e[15] * 0x100_0000_0000_0000
        }),
        steady(old(ctx).accounts, old(memory)@, final(ctx).accounts, final(memory)@),
{
    let read = ctx.accounts.data_b.get(memory);
    let total = Data { value: value.wrapping_add(read.value) };
    proof {
        lemma_stored_steady(ctx.accounts, ctx.accounts.data_a, memory@, total);
        law_stored_number_is_read_back(ctx.accounts.data_a, memory@, total);
        law_sum_is_written(ctx.accounts.data_b, ctx.accounts.data_a, memory@, value);
    }
    ctx.accounts.data_a.set(memory, total);
    Ok(())
}

/// Writes into the second account `value` and what the first holds, added up.
#[verifier::rlimit(40)]
pub fn touch_readonly_and_mut<'a>(
    ctx: &mut Context<'a, TouchReadonlyAndMut>,
    memory: &mut AccountMemory,
    value: u64,
) -> (r: Result<(), ProgramError>)
    requires
        old(ctx).accounts.live(old(memory)@),
        held(old(memory)@, old(ctx).accounts.holds()),
    ensures
        r == Ok::<(), ProgramError>(()),
        *final(ctx) == *old(ctx),
        ({
            let written = old(ctx).accounts.data_b;
            let x = sum(old(ctx).accounts.data_a, old(memory)@, value);
            &&& final(memory)@ == written.stored(old(memory)@, x)
            &&& written.read(final(memory)@) == x
        }),
        ({
            let d = old(memory)@[old(ctx).accounts.data_a.view.slot as int].data;
            let e = final(memory)@[old(ctx).accounts.data_b.view.slot as int].data;
            (value + (d[8] + d[9] * 0x100 + d[10] * 0x1_0000 + d[11] * 0x100_0000
                + d[12] * 0x1_0000_0000 + d[13] * 0x100_0000_0000 + d[14] * 0x1_0000_0000_0000
                + d[15] * 0x100_0000_0000_0000)) % 0x1_0000_0000_0000_0000 == e[8]
                + e[9] * 0x100 + e[10] * 0x1_0000 + e[11] * 0x100_0000 + e[12] * 0x1_0000_0000
                + e[13] * 0x100_0000_0000 + e[14] * 0x1_0000_0000_0000
                + e[15] * 0x100_0000_0000_0000
        }),
        steady(old(ctx).accounts, old(memory)@, final(ctx).accounts, final(memory)@),
{
    let read = ctx.accounts.data_a.get(memory);
    let total = Data { value: value.wrapping_add(read.value) };
    proof {
        lemma_stored_steady(ctx.accounts, ctx.accounts.data_b, memory@, total);
        law_stored_number_is_read_back(ctx.accounts.data_b, memory@, total);
        law_sum_is_written(ctx.accounts.data_a, ctx.accounts.data_b, memory@, value);
    }
    ctx.accounts.data_b.set(memory, total);
    Ok(())
}

/// Checks that both accounts hold `expected`.
#[verifier::rlimit(40)]
pub fn read_two<'a>(
    ctx: &mut Context<'a, ReadTwo>,
    memory: &AccountMemory,
    expected: u64,
) -> (r: Result<(), ProgramError>)
    requires
        old(ctx).accounts.live(memory@),
    ensures
        r == if old(ctx).accounts.data_a.read(memory@).value == expected
            && old(ctx).accounts.data_b.read(memory@).value == expected {
            Ok::<(), ProgramError>(())
        } else {
            Err(ProgramError::InvalidAccountData)
        },
        *final(ctx) == *old(ctx),
        ({
            let x = memory@[old(ctx).accounts.data_a.view.slot as int].data;
            let y = memory@[old(ctx).accounts.data_b.view.slot as int].data;
            r is Ok <==> expected as int == x[8] + x[9] * 0x100 + x[10] * 0x1_0000
                + x[11] * 0x100_0000 + x[12] * 0x1_0000_0000 + x[13] * 0x100_0000_0000
                + x[14] * 0x1_0000_0000_0000 + x[15] * 0x100_0000_0000_0000 && expected as int
                == y[8] + y[9] * 0x100 + y[10] * 0x1_0000 + y[11] * 0x100_0000
                + y[12] * 0x1_0000_0000 + y[13] * 0x100_0000_0000 + y[14] * 0x1_0000_0000_0000
                + y[15] * 0x100_0000_0000_0000
        }),
{
    proof {
        law_number_of_an_account(ctx.accounts.data_a, memory@);
        law_number_of_an_account(ctx.accounts.data_b, memory@);
    }
    if ctx.accounts.data_a.get(memory).value != expected {
        return Err(ProgramError::InvalidAccountData);
    }
    if ctx.accounts.data_b.get(memory).value != expected {
        return Err(ProgramError::InvalidAccountData);
    }
    Ok(())
}

/// Sets the first account to `value` and what the second holds, added up. What was set
/// is written back when the accounts exit.
#[verifier::rlimit(40)]
pub fn touch_borsh_mut_and_readonly<'a>(
    ctx: &mut Context<'a, TouchBorshMutAndReadonly>,
    value: u64,
) -> (r: Result<(), ProgramError>)
    requires
        old(ctx).accounts.data_a.mutable,
        old(ctx).accounts.data_a.borrowed,
        old(ctx).accounts.data_b.borrowed,
    ensures
        r == Ok::<(), ProgramError>(()),
        final(ctx).accounts.data_a == (SerializedAccount {
            data: BorshData {
                value: value.wrapping_add(old(ctx).accounts.data_b.data.value),
            },
            ..old(ctx).accounts.data_a
        }),
        final(ctx).accounts.data_b == old(ctx).accounts.data_b,
        final(ctx).program_id == old(ctx).program_id,
        final(ctx).bumps == old(ctx).bumps,
        final(ctx).remaining_accounts == old(ctx).remaining_accounts,
        forall|m: Memory| #[trigger]
            old(ctx).accounts.live(m) && held(m, old(ctx).accounts.holds()) ==> steady(
                old(ctx).accounts,
                m,
                final(ctx).accounts,
                m,
            ),
{
    let sum: u64 = value.wrapping_add(ctx.accounts.data_b.get().value);
    ctx.accounts.data_a.set(BorshData { value: sum });
    Ok(())
}

/// Writes into the boxed account `value` and what the other holds, added up.
#[verifier::rlimit(40)]
pub fn touch_boxed_mut_and_readonly<'a>(
    ctx: &mut Context<'a, TouchBoxedMutAndReadonly>,
    memory: &mut AccountMemory,
    value: u64,
) -> (r: Result<(), ProgramError>)
    requires
        old(ctx).accounts.live(old(memory)@),
        held(old(memory)@, old(ctx).accounts.holds()),
    ensures
        r == Ok::<(), ProgramError>(()),
        *final(ctx) == *old(ctx),
        ({
            let written = *old(ctx).accounts.data_a;
            let x = sum(old(ctx).accounts.data_b, old(memory)@, value);
            &&& final(memory)@ == written.stored(old(memory)@, x)
            &&& written.read(final(memory)@) == x
        }),
        ({
            let d = old(memory)@[old(ctx).accounts.data_b.view.slot as int].data;
            let e = final(memory)@[old(ctx).accounts.data_a.view.slot as int].data;
            (value + (d[8] + d[9] * 0x100 + d[10] * 0x1_0000 + d[11] * 0x100_0000
                + d[12] * 0x1_0000_0000 + d[13] * 0x100_0000_0000 + d[14] * 0x1_0000_0000_0000
                + d[15] * 0x100_0000_0000_0000)) % 0x1_0000_0000_0000_0000 == e[8]
                + e[9] * 0x100 + e[10] * 0x1_0000 + e[11] * 0x100_0000 + e[12] * 0x1_0000_0000
                + e[13] * 0x100_0000_0000 + e[14] * 0x1_0000_0000_0000
                + e[15] * 0x100_0000_0000_0000
        }),
        steady(old(ctx).accounts, old(memory)@, final(ctx).accounts, final(memory)@),
{
    let read = ctx.accounts.data_b.get(memory);
    let total = Data { value: value.wrapping_add(read.value) };
    proof {
        lemma_stored_steady(ctx.accounts, *ctx.accounts.data_a, memory@, total);
        law_stored_number_is_read_back(*ctx.accounts.data_a, memory@, total);
        law_sum_is_written(ctx.accounts.data_b, *ctx.accounts.data_a, memory@, value);
    }
    (*ctx.accounts.data_a).set(memory, total);
    Ok(())
}

/// Writes `value` into the first account, where it is there, and the number after it
/// into the second.
#[verifier::rlimit(40)]
pub fn touch_optional_mut_and_mut<'a>(
    ctx: &mut Context<'a, TouchOptionalMutAndMut>,
    memory: &mut AccountMemory,
    value: u64,
) -> (r: Result<(), ProgramError>)
    requires
        old(ctx).accounts.live(old(memory)@),
        held(old(memory)@, old(ctx).accounts.holds()),
    ensures
        r == Ok::<(), ProgramError>(()),
        *final(ctx) == *old(ctx),
        ({
            let a = old(ctx).accounts.data_a;
            let b = old(ctx).accounts.data_b;
            &&& final(memory)@ == written_optional(a, b, old(memory)@, value)
            &&& a matches Some(data) ==> data.read(final(memory)@).value == value
            &&& b.read(final(memory)@).value == value.wrapping_add(1)
        }),
        old(ctx).accounts.data_a matches Some(data) ==> {
            let x = final(memory)@[data.view.slot as int].data;
            value as int == x[8] + x[9] * 0x100 + x[10] * 0x1_0000 + x[11] * 0x100_0000
                + x[12] * 0x1_0000_0000 + x[13] * 0x100_0000_0000 + x[14] * 0x1_0000_0000_0000
                + x[15] * 0x100_0000_0000_0000
        },
        ({
            let y = final(memory)@[old(ctx).accounts.data_b.view.slot as int].data;
            (value + 1) % 0x1_0000_0000_0000_0000 == y[8] + y[9] * 0x100 + y[10] * 0x1_0000
                + y[11] * 0x100_0000 + y[12] * 0x1_0000_0000 + y[13] * 0x100_0000_0000
                + y[14] * 0x1_0000_0000_0000 + y[15] * 0x100_0000_0000_0000
        }),
        steady(old(ctx).accounts, old(memory)@, final(ctx).accounts, final(memory)@),
{
    let ghost m = memory@;
    let ghost y = Data { value: value.wrapping_add(1) };
    proof {
        if let Some(a) = &ctx.accounts.data_a {
            lemma_stored_twice(ctx.accounts, *a, ctx.accounts.data_b, m, Data { value }, y);
            law_two_numbers_are_written(*a, ctx.accounts.data_b, m, value);
        } else {
            lemma_stored_steady(ctx.accounts, ctx.accounts.data_b, m, y);
            law_stored_number_is_read_back(ctx.accounts.data_b, m, y);
            law_absent_account_is_not_written(ctx.accounts.data_a, ctx.accounts.data_b, m, value);
        }
    }
    if let Some(data_a) = &ctx.accounts.data_a {
        data_a.set(memory, Data { value });
    }
    ctx.accounts.data_b.set(memory, Data { value: value.wrapping_add(1) });
    Ok(())
}

/// Writes `value` and the number after it into the nested accounts.
#[verifier::rlimit(40)]
pub fn touch_nested_two_mut<'a>(
    ctx: &mut Context<'a, TouchNestedTwoMut>,
    memory: &mut AccountMemory,
    value: u64,
) -> (r: Result<(), ProgramError>)
    requires
        old(ctx).accounts.live(old(memory)@),
        held(old(memory)@, old(ctx).accounts.holds()),
    ensures
        r == Ok::<(), ProgramError>(()),
        *final(ctx) == *old(ctx),
        ({
            let a = old(ctx).accounts.pair.inner.data_a;
            let b = old(ctx).accounts.pair.inner.data_b;
            &&& final(memory)@ == written_two(a, b, old(memory)@, value)
            &&& a.read(final(memory)@).value == value
            &&& b.read(final(memory)@).value == value.wrapping_add(1)
        }),
        ({
            let x = final(memory)@[old(ctx).accounts.pair.inner.data_a.view.slot as int].data;
            let y = final(memory)@[old(ctx).accounts.pair.inner.data_b.view.slot as int].data;
            &&& value as int == x[8] + x[9] * 0x100 + x[10] * 0x1_0000 + x[11] * 0x100_0000
                + x[12] * 0x1_0000_0000 + x[13] * 0x100_0000_0000 + x[14] * 0x1_0000_0000_0000
                + x[15] * 0x100_0000_0000_0000
            &&& (value + 1) % 0x1_0000_0000_0000_0000 == y[8] + y[9] * 0x100 + y[10] * 0x1_0000
                + y[11] * 0x100_0000 + y[12] * 0x1_0000_0000 + y[13] * 0x100_0000_0000
                + y[14] * 0x1_0000_0000_0000 + y[15] * 0x100_0000_0000_0000
        }),
        steady(old(ctx).accounts, old(memory)@, final(ctx).accounts, final(memory)@),
{
    proof {
        lemma_stored_twice(
            ctx.accounts,
            ctx.accounts.pair.inner.data_a,
            ctx.accounts.pair.inner.data_b,
            memory@,
            Data { value },
            Data { value: value.wrapping_add(1) },
        );
        law_two_numbers_are_written(
            ctx.accounts.pair.inner.data_a,
            ctx.accounts.pair.inner.data_b,
            memory@,
            value,
        );
    }
    ctx.accounts.pair.inner.data_a.set(memory, Data { value });
    ctx.accounts.pair.inner.data_b.set(memory, Data { value: value.wrapping_add(1) });
    Ok(())
}

/// Writes into the first nested account `value` and what the second holds, added up.
#[verifier::rlimit(40)]
pub fn touch_nested_mut_readonly<'a>(
    ctx: &mut Context<'a, TouchNestedMutReadonly>,
    memory: &mut AccountMemory,
    value: u64,
) -> (r: Result<(), ProgramError>)
    requires
        old(ctx).accounts.live(old(memory)@),
        held(old(memory)@, old(ctx).accounts.holds()),
    ensures
        r == Ok::<(), ProgramError>(()),
        *final(ctx) == *old(ctx),
        ({
            let written = old(ctx).accounts.pair.inner.data_a;
            let x = sum(old(ctx).accounts.pair.inner.data_b, old(memory)@, value);
            &&& final(memory)@ == written.stored(old(memory)@, x)
            &&& written.read(final(memory)@) == x
        }),
        ({
            let d = old(memory)@[old(ctx).accounts.pair.inner.data_b.view.slot as int].data;
            let e = final(memory)@[old(ctx).accounts.pair.inner.data_a.view.slot as int].data;
            (value + (d[8] + d[9] * 0x100 + d[10] * 0x1_0000 + d[11] * 0x100_0000
                + d[12] * 0x1_0000_0000 + d[13] * 0x100_0000_0000 + d[14] * 0x1_0000_0000_0000
                + d[15] * 0x100_0000_0000_0000)) % 0x1_0000_0000_0000_0000 == e[8]
                + e[9] * 0x100 + e[10] * 0x1_0000 + e[11] * 0x100_0000 + e[12] * 0x1_0000_0000
                + e[13] * 0x100_0000_0000 + e[14] * 0x1_0000_0000_0000
                + e[15] * 0x100_0000_0000_0000
        }),
        steady(old(ctx).accounts, old(memory)@, final(ctx).accounts, final(memory)@),
{
    let read = ctx.accounts.pair.inner.data_b.get(memory);
    let total = Data { value: value.wrapping_add(read.value) };
    proof {
        lemma_stored_steady(ctx.accounts, ctx.accounts.pair.inner.data_a, memory@, total);
        law_stored_number_is_read_back(ctx.accounts.pair.inner.data_a, memory@, total);
        law_sum_is_written(
            ctx.accounts.pair.inner.data_b,
            ctx.accounts.pair.inner.data_a,
            memory@,
            value,
        );
    }
    ctx.accounts.pair.inner.data_a.set(memory, total);
    Ok(())
}

/// Writes `value` into the outer account and the two numbers after it into the nested
/// ones.
#[verifier::rlimit(40)]
pub fn touch_outer_mut_plus_nested<'a>(
    ctx: &mut Context<'a, TouchOuterMutPlusNested>,
    memory: &mut AccountMemory,
    value: u64,
) -> (r: Result<(), ProgramError>)
    requires
        old(ctx).accounts.live(old(memory)@),
        held(old(memory)@, old(ctx).accounts.holds()),
    ensures
        r == Ok::<(), ProgramError>(()),
        *final(ctx) == *old(ctx),
        ({
            let a = old(ctx).accounts.outer;
            let b = old(ctx).accounts.pair.inner.data_a;
            let c = old(ctx).accounts.pair.inner.data_b;
            &&& final(memory)@ == written_three(a, b, c, old(memory)@, value)
            &&& a.read(final(memory)@).value == value
            &&& b.read(final(memory)@).value == value.wrapping_add(1)
            &&& c.read(final(memory)@).value == value.wrapping_add(2)
        }),
        ({
            let x = final(memory)@[old(ctx).accounts.outer.view.slot as int].data;
            let y = final(memory)@[old(ctx).accounts.pair.inner.data_a.view.slot as int].data;
            let z = final(memory)@[old(ctx).accounts.pair.inner.data_b.view.slot as int].data;
            &&& value as int == x[8] + x[9] * 0x100 + x[10] * 0x1_0000 + x[11] * 0x100_0000
                + x[12] * 0x1_0000_0000 + x[13] * 0x100_0000_0000 + x[14] * 0x1_0000_0000_0000
                + x[15] * 0x100_0000_0000_0000
            &&& (value + 1) % 0x1_0000_0000_0000_0000 == y[8] + y[9] * 0x100 + y[10] * 0x1_0000
                + y[11] * 0x100_0000 + y[12] * 0x1_0000_0000 + y[13] * 0x100_0000_0000
                + y[14] * 0x1_0000_0000_0000 + y[15] * 0x100_0000_0000_0000
            &&& (value + 2) % 0x1_0000_0000_0000_0000 == z[8] + z[9] * 0x100 + z[10] * 0x1_0000
                + z[11] * 0x100_0000 + z[12] * 0x1_0000_0000 + z[13] * 0x100_0000_0000
                + z[14] * 0x1_0000_0000_0000 + z[15] * 0x100_0000_0000_0000
        }),
        steady(old(ctx).accounts, old(memory)@, final(ctx).accounts, final(memory)@),
{
    proof {
        lemma_stored_thrice(
            ctx.accounts,
            ctx.accounts.outer,
            ctx.accounts.pair.inner.data_a,
            ctx.accounts.pair.inner.data_b,
            memory@,
            Data { value },
            Data { value: value.wrapping_add(1) },
            Data { value: value.wrapping_add(2) },
        );
        law_three_numbers_are_written(
            ctx.accounts.outer,
            ctx.accounts.pair.inner.data_a,
            ctx.accounts.pair.inner.data_b,
            memory@,
            value,
        );
    }
    ctx.accounts.outer.set(memory, Data { value });
    ctx.accounts.pair.inner.data_a.set(memory, Data { value: value.wrapping_add(1) });
    ctx.accounts.pair.inner.data_b.set(memory, Data { value: value.wrapping_add(2) });
    Ok(())
}

/// Takes a look at who signed.
pub fn signer_roles<'a>(ctx: &mut Context<'a, SignerRoles>, memory: &AccountMemory) -> (r: Result<
    (),
    ProgramError,
>)
    requires
        old(ctx).accounts.live(memory@),
    ensures
        r == Ok::<(), ProgramError>(()),
        *final(ctx) == *old(ctx),
{
    let _ = ctx.accounts.payer.address(memory);
    let _ = ctx.accounts.authority.address(memory);
    Ok(())
}

/// Asks the System program to move a balance from who pays to who is paid. They may be
/// one account.
#[verifier::rlimit(40)]
pub fn transfer_to_recipient<'a>(
    ctx: &mut Context<'a, TransferToRecipient>,
    memory: &AccountMemory,
    lamports: u64,
) -> (r: Result<TransferRequest, ProgramError>)
    requires
        old(ctx).accounts.live(memory@),
    ensures
        *final(ctx) == *old(ctx),
        requested(
            r,
            memory@,
            old(ctx).accounts.system_program.view,
            old(ctx).accounts.payer.view,
            old(ctx).accounts.recipient.view,
            lamports,
        ),
        ({
            let free = memory@[old(ctx).accounts.payer.view.slot as int].borrow_state == 255
                && memory@[old(ctx).accounts.recipient.view.slot as int].borrow_state == 255;
            &&& !free ==> r == Err::<TransferRequest, ProgramError>(
                ProgramError::AccountBorrowFailed,
            )
            &&& free ==> {
                &&& r matches Ok(request)
                &&& request.program.bytes@ == memory@[old(
                    ctx,
                ).accounts.system_program.view.slot as int].address
                &&& request.from == old(ctx).accounts.payer.view
                &&& request.to == old(ctx).accounts.recipient.view
                &&& request.lamports == lamports
            }
        }),
{
    let cpi_accounts = Transfer {
        from: ctx.accounts.payer.cpi_handle_mut(),
        to: ctx.accounts.recipient.cpi_handle_mut(),
    };
    let cpi_ctx = CpiContext::new(ctx.accounts.system_program.address(memory), cpi_accounts);
    transfer(cpi_ctx, memory, lamports)
}

/// Writes `value`, and where `borrow_raw` says so, borrows the other account's data for a
/// moment.
#[verifier::rlimit(40)]
pub fn touch_data_and_raw<'a>(
    ctx: &mut Context<'a, TouchDataAndRaw>,
    memory: &mut AccountMemory,
    value: u64,
    borrow_raw: bool,
) -> (r: Result<(), ProgramError>)
    requires
        old(ctx).accounts.live(old(memory)@),
        held(old(memory)@, old(ctx).accounts.holds()),
    ensures
        *final(ctx) == *old(ctx),
        ({
            let data = old(ctx).accounts.data;
            let x = Data { value };
            &&& final(memory)@ == data.stored(old(memory)@, x)
            &&& data.read(final(memory)@) == x
        }),
        r == if borrow_raw && !can_take(old(memory)@, shared_hold(old(ctx).accounts.raw.view)) {
            Err::<(), ProgramError>(ProgramError::AccountBorrowFailed)
        } else {
            Ok(())
        },
        ({
            let x = final(memory)@[old(ctx).accounts.data.view.slot as int].data;
            value as int == x[8] + x[9] * 0x100 + x[10] * 0x1_0000 + x[11] * 0x100_0000
                + x[12] * 0x1_0000_0000 + x[13] * 0x100_0000_0000 + x[14] * 0x1_0000_0000_0000
                + x[15] * 0x100_0000_0000_0000
        }),
        r == if borrow_raw
            && old(memory)@[old(ctx).accounts.raw.view.slot as int].borrow_state < 2 {
            Err::<(), ProgramError>(ProgramError::AccountBorrowFailed)
        } else {
            Ok(())
        },
        steady(old(ctx).accounts, old(memory)@, final(ctx).accounts, final(memory)@),
{
    let ghost m = memory@;
    let ghost n = ctx.accounts.data.stored(m, Data { value });
    let ghost h = shared_hold(ctx.accounts.raw.view);
    proof {
        lemma_stored_steady(ctx.accounts, ctx.accounts.data, m, Data { value });
        law_stored_number_is_read_back(ctx.accounts.data, m, Data { value });
        lemma_same_states(m, n, h);
        law_number_is_written_in_place(ctx.accounts.data, m, Data { value });
        law_shared_borrow_counts_down(m, ctx.accounts.raw.view);
    }
    ctx.accounts.data.set(memory, Data { value });
    if borrow_raw {
        match ctx.accounts.raw.account().try_borrow(memory) {
            Ok(guard) => {
                proof {
                    law_release_undoes_borrow(n, h);
                }
                guard.release(memory);
            },
            Err(e) => {
                return Err(e);
            },
        }
    }
    Ok(())
}

/// Writes `value` and asks the System program to move nothing to an account that is taken
/// as it is. Where that account is the one that was written, its data is borrowed and
/// the request is refused.
#[verifier::rlimit(40)]
pub fn transfer_to_raw_alias<'a>(
    ctx: &mut Context<'a, TransferToRawAlias>,
    memory: &mut AccountMemory,
    value: u64,
) -> (r: Result<TransferRequest, ProgramError>)
    requires
        old(ctx).accounts.live(old(memory)@),
        held(old(memory)@, old(ctx).accounts.holds()),
    ensures
        *final(ctx) == *old(ctx),
        ({
            let data = old(ctx).accounts.data;
            let x = Data { value };
            &&& final(memory)@ == data.stored(old(memory)@, x)
            &&& data.read(final(memory)@) == x
        }),
        requested(
            r,
            old(memory)@,
            old(ctx).accounts.system_program.view,
            old(ctx).accounts.payer.view,
            old(ctx).accounts.raw.view,
            0,
        ),
        ({
            let x = final(memory)@[old(ctx).accounts.data.view.slot as int].data;
            value as int == x[8] + x[9] * 0x100 + x[10] * 0x1_0000 + x[11] * 0x100_0000
                + x[12] * 0x1_0000_0000 + x[13] * 0x100_0000_0000 + x[14] * 0x1_0000_0000_0000
                + x[15] * 0x100_0000_0000_0000
        }),
        ({
            let free = old(memory)@[old(ctx).accounts.payer.view.slot as int].borrow_state == 255
                && old(memory)@[old(ctx).accounts.raw.view.slot as int].borrow_state == 255;
            &&& !free ==> r == Err::<TransferRequest, ProgramError>(
                ProgramError::AccountBorrowFailed,
            )
            &&& free ==> {
                &&& r matches Ok(request)
                &&& request.program.bytes@ == old(memory)@[old(
                    ctx,
                ).accounts.system_program.view.slot as int].address
                &&& request.from == old(ctx).accounts.payer.view
                &&& request.to == old(ctx).accounts.raw.view
                &&& request.lamports == 0
            }
        }),
        steady(old(ctx).accounts, old(memory)@, final(ctx).accounts, final(memory)@),
{
    proof {
        lemma_stored_steady(ctx.accounts, ctx.accounts.data, memory@, Data { value });
        law_stored_number_is_read_back(ctx.accounts.data, memory@, Data { value });
        law_number_is_written_in_place(ctx.accounts.data, memory@, Data { value });
    }
    ctx.accounts.data.set(memory, Data { value });
    let cpi_accounts = Transfer {
        from: ctx.accounts.payer.cpi_handle_mut(),
        to: ctx.accounts.raw.cpi_handle_mut(),
    };
    let cpi_ctx = CpiContext::new(ctx.accounts.system_program.address(memory), cpi_accounts);
    transfer(cpi_ctx, memory, 0)
}

} // verus!
