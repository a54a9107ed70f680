//! The program's instructions, from serialized accounts to outcome.
//!
//! Each function loads the declared accounts, runs the handler, writes back what is left
//! to write, and gives all borrows back.

use crate::accounts::compose::{pair_exited, pair_loaded};
use crate::accounts::program::{Program, System};
use crate::accounts::serialized::{BorshAccount, SerializedAccount};
use crate::accounts::slab::Account;
use crate::address::{program_address, Address};
use crate::context::Context;
use crate::cursor::AccountCursor;
use crate::dispatch::{no_borrow_left, past_declared, run_handler, steady, walkable};
use crate::dup_mut;
use crate::dup_mut::accounts::{
    law_header_sizes, ReadTwo, SignerRoles, TouchBorshMutAndReadonly, TouchBoxedMutAndReadonly,
    TouchDataAndRaw, TouchMutAndReadonly, TouchNestedMutReadonly, TouchNestedTwoMut,
    TouchOptionalMutAndMut, TouchOuterMutPlusNested, TouchReadonlyAndMut, TouchThreeMut,
    TouchTwoMut, TransferToRawAlias, TransferToRecipient,
};
use crate::dup_mut::init::{
    checked_init, law_init_header_sizes, seed_of, Initialize, InitializeBorsh, BORSH_PREFIX,
    DATA_PREFIX,
};
use crate::dup_mut::state::{BorshData, Data};
use crate::dup_mut::{requested, sum, written_optional, written_three, written_two};
use crate::memory::{
    borrow_states, can_take, freed, held, shared_hold, taken, AccountMemory, Held,
};
use crate::system_program::TransferRequest;
use solana_program_error::ProgramError;
use vstd::prelude::*;

verus! {

/// Writes `value` and the number after it into two accounts.
pub fn touch_two_mut<'a>(
    program_id: &'a Address,
    memory: &mut AccountMemory,
    cursor: &'a mut AccountCursor,
    ix_data: &'a [u8],
    num_accounts: usize,
    value: u64,
) -> (r: Result<(), ProgramError>)
    requires
        walkable(old(cursor)@, old(memory)@, 2, num_accounts),
    ensures
        num_accounts < 2 ==> {
            &&& r == Err::<(), ProgramError>(ProgramError::NotEnoughAccountKeys)
            &&& final(memory)@ == old(memory)@
        },
        num_accounts >= 2 ==> {
            let m = old(cursor)@.walked_memory(old(memory)@, 2);
            let views = old(cursor)@.walked_views(old(memory)@, 2);
            match TouchTwoMut::loaded(m, views) {
                Err(e) => r == Err::<(), ProgramError>(e) && final(memory)@ == m,
                Ok(accounts) => {
                    let n = taken(m, accounts.holds());
                    &&& r == Ok::<(), ProgramError>(())
                    &&& final(memory)@ == freed(
                        written_two(
                            accounts.data_a,
                            accounts.data_b,
                            n,
                            value,
                        ),
                        accounts.holds(),
                    )
                },
            }
        },
        no_borrow_left(borrow_states(old(memory)@), borrow_states(final(memory)@)),
        final(cursor)@ == past_declared(old(cursor)@, old(memory)@, 2, num_accounts),
{
    proof {
        law_header_sizes();
    }
    let handler = |
        ctx: &mut Context<'a, TouchTwoMut>,
        m: &mut AccountMemory,
        args: (),
    | -> (x: Result<(), ProgramError>)
        requires
            ctx.accounts.live(m@),
            held(m@, ctx.accounts.holds()),
        ensures
            steady(old(ctx).accounts, old(m)@, final(ctx).accounts, final(m)@),
            x == Ok::<(), ProgramError>(()),
            *final(ctx) == *old(ctx),
            final(m)@ == written_two(
                old(ctx).accounts.data_a,
                old(ctx).accounts.data_b,
                old(m)@,
                value,
            ),
        { dup_mut::touch_two_mut(ctx, m, value) };
    run_handler::<TouchTwoMut, ()>(
        program_id,
        memory,
        cursor,
        ix_data,
        num_accounts,
        handler,
    )
}

/// Writes `value` and the two numbers after it into three accounts.
pub fn touch_three_mut<'a>(
    program_id: &'a Address,
    memory: &mut AccountMemory,
    cursor: &'a mut AccountCursor,
    ix_data: &'a [u8],
    num_accounts: usize,
    value: u64,
) -> (r: Result<(), ProgramError>)
    requires
        walkable(old(cursor)@, old(memory)@, 3, num_accounts),
    ensures
        num_accounts < 3 ==> {
            &&& r == Err::<(), ProgramError>(ProgramError::NotEnoughAccountKeys)
            &&& final(memory)@ == old(memory)@
        },
        num_accounts >= 3 ==> {
            let m = old(cursor)@.walked_memory(old(memory)@, 3);
            let views = old(cursor)@.walked_views(old(memory)@, 3);
            match TouchThreeMut::loaded(m, views) {
                Err(e) => r == Err::<(), ProgramError>(e) && final(memory)@ == m,
                Ok(accounts) => {
                    let n = taken(m, accounts.holds());
                    &&& r == Ok::<(), ProgramError>(())
                    &&& final(memory)@ == freed(
                        written_three(
                            accounts.data_a,
                            accounts.data_b,
                            accounts.data_c,
                            n,
                            value,
                        ),
                        accounts.holds(),
                    )
                },
            }
        },
        no_borrow_left(borrow_states(old(memory)@), borrow_states(final(memory)@)),
        final(cursor)@ == past_declared(old(cursor)@, old(memory)@, 3, num_accounts),
{
    proof {
        law_header_sizes();
    }
    let handler = |
        ctx: &mut Context<'a, TouchThreeMut>,
        m: &mut AccountMemory,
        args: (),
    | -> (x: Result<(), ProgramError>)
        requires
            ctx.accounts.live(m@),
            held(m@, ctx.accounts.holds()),
        ensures
            steady(old(ctx).accounts, old(m)@, final(ctx).accounts, final(m)@),
            x == Ok::<(), ProgramError>(()),
            *final(ctx) == *old(ctx),
            final(m)@ == written_three(
                old(ctx).accounts.data_a,
                old(ctx).accounts.data_b,
                old(ctx).accounts.data_c,
                old(m)@,
                value,
            ),
        { dup_mut::touch_three_mut(ctx, m, value) };
    run_handler::<TouchThreeMut, ()>(
        program_id,
        memory,
        cursor,
        ix_data,
        num_accounts,
        handler,
    )
}

/// Writes into the first account `value` and what the second holds, added up.
pub fn touch_mut_and_readonly<'a>(
    program_id: &'a Address,
    memory: &mut AccountMemory,
    cursor: &'a mut AccountCursor,
    ix_data: &'a [u8],
    num_accounts: usize,
    value: u64,
) -> (r: Result<(), ProgramError>)
    requires
        walkable(old(cursor)@, old(memory)@, 2, num_accounts),
    ensures
        num_accounts < 2 ==> {
            &&& r == Err::<(), ProgramError>(ProgramError::NotEnoughAccountKeys)
            &&& final(memory)@ == old(memory)@
        },
        num_accounts >= 2 ==> {
            let m = old(cursor)@.walked_memory(old(memory)@, 2);
            let views = old(cursor)@.walked_views(old(memory)@, 2);
            match TouchMutAndReadonly::loaded(m, views) {
                Err(e) => r == Err::<(), ProgramError>(e) && final(memory)@ == m,
                Ok(accounts) => {
                    let n = taken(m, accounts.holds());
                    &&& r == Ok::<(), ProgramError>(())
                    &&& final(memory)@ == freed(
                        accounts.data_a.stored(
                            n,
                            sum(accounts.data_b, n, value),
                        ),
                        accounts.holds(),
                    )
                },
            }
        },
        no_borrow_left(borrow_states(old(memory)@), borrow_states(final(memory)@)),
        final(cursor)@ == past_declared(old(cursor)@, old(memory)@, 2, num_accounts),
{
    proof {
        law_header_sizes();
    }
    let handler = |
        ctx: &mut Context<'a, TouchMutAndReadonly>,
        m: &mut AccountMemory,
        args: (),
    | -> (x: Result<(), ProgramError>)
        requires
            ctx.accounts.live(m@),
            held(m@, ctx.accounts.holds()),
        ensures
            steady(old(ctx).accounts, old(m)@, final(ctx).accounts, final(m)@),
            x == Ok::<(), ProgramError>(()),
            *final(ctx) == *old(ctx),
            final(m)@ == old(ctx).accounts.data_a.stored(
                old(m)@,
                sum(old(ctx).accounts.data_b, old(m)@, value),
            ),
        { dup_mut::touch_mut_and_readonly(ctx, m, value) };
    run_handler::<TouchMutAndReadonly, ()>(
        program_id,
        memory,
        cursor,
        ix_data,
        num_accounts,
        handler,
    )
}

/// Writes into the second account `value` and what the first holds, added up.
pub fn touch_readonly_and_mut<'a>(
    program_id: &'a Address,
    memory: &mut AccountMemory,
    cursor: &'a mut AccountCursor,
    ix_data: &'a [u8],
    num_accounts: usize,
    value: u64,
) -> (r: Result<(), ProgramError>)
    requires
        walkable(old(cursor)@, old(memory)@, 2, num_accounts),
    ensures
        num_accounts < 2 ==> {
            &&& r == Err::<(), ProgramError>(ProgramError::NotEnoughAccountKeys)
            &&& final(memory)@ == old(memory)@
        },
        num_accounts >= 2 ==> {
            let m = old(cursor)@.walked_memory(old(memory)@, 2);
            let views = old(cursor)@.walked_views(old(memory)@, 2);
            match TouchReadonlyAndMut::loaded(m, views) {
                Err(e) => r == Err::<(), ProgramError>(e) && final(memory)@ == m,
                Ok(accounts) => {
                    let n = taken(m, accounts.holds());
                    &&& r == Ok::<(), ProgramError>(())
                    &&& final(memory)@ == freed(
                        accounts.data_b.stored(
                            n,
                            sum(accounts.data_a, n, value),
                        ),
                        accounts.holds(),
                    )
                },
            }
        },
        no_borrow_left(borrow_states(old(memory)@), borrow_states(final(memory)@)),
        final(cursor)@ == past_declared(old(cursor)@, old(memory)@, 2, num_accounts),
{
    proof {
        law_header_sizes();
    }
    let handler = |
        ctx: &mut Context<'a, TouchReadonlyAndMut>,
        m: &mut AccountMemory,
        args: (),
    | -> (x: Result<(), ProgramError>)
        requires
            ctx.accounts.live(m@),
            held(m@, ctx.accounts.holds()),
        ensures
            steady(old(ctx).accounts, old(m)@, final(ctx).accounts, final(m)@),
            x == Ok::<(), ProgramError>(()),
            *final(ctx) == *old(ctx),
            final(m)@ == old(ctx).accounts.data_b.stored(
                old(m)@,
                sum(old(ctx).accounts.data_a, old(m)@, value),
            ),
        { dup_mut::touch_readonly_and_mut(ctx, m, value) };
    run_handler::<TouchReadonlyAndMut, ()>(
        program_id,
        memory,
        cursor,
        ix_data,
        num_accounts,
        handler,
    )
}

/// Checks that two accounts hold `expected`.
pub fn read_two<'a>(
    program_id: &'a Address,
    memory: &mut AccountMemory,
    cursor: &'a mut AccountCursor,
    ix_data: &'a [u8],
    num_accounts: usize,
    expected: u64,
) -> (r: Result<(), ProgramError>)
    requires
        walkable(old(cursor)@, old(memory)@, 2, num_accounts),
    ensures
        num_accounts < 2 ==> {
            &&& r == Err::<(), ProgramError>(ProgramError::NotEnoughAccountKeys)
            &&& final(memory)@ == old(memory)@
        },
        num_accounts >= 2 ==> {
            let m = old(cursor)@.walked_memory(old(memory)@, 2);
            let views = old(cursor)@.walked_views(old(memory)@, 2);
            match ReadTwo::loaded(m, views) {
                Err(e) => r == Err::<(), ProgramError>(e) && final(memory)@ == m,
                Ok(accounts) => {
                    let n = taken(m, accounts.holds());
                    &&& r == if accounts.data_a.read(n).value == expected
                        && accounts.data_b.read(n).value == expected {
                        Ok::<(), ProgramError>(())
                    } else {
                        Err(ProgramError::InvalidAccountData)
                    }
                    &&& final(memory)@ == freed(n, accounts.holds())
                },
            }
        },
        no_borrow_left(borrow_states(old(memory)@), borrow_states(final(memory)@)),
        final(cursor)@ == past_declared(old(cursor)@, old(memory)@, 2, num_accounts),
{
    proof {
        law_header_sizes();
    }
    let handler = |
        ctx: &mut Context<'a, ReadTwo>,
        m: &mut AccountMemory,
        args: (),
    | -> (x: Result<(), ProgramError>)
        requires
            ctx.accounts.live(m@),
            held(m@, ctx.accounts.holds()),
        ensures
            steady(old(ctx).accounts, old(m)@, final(ctx).accounts, final(m)@),
            x == if old(ctx).accounts.data_a.read(old(m)@).value == expected
                && old(ctx).accounts.data_b.read(old(m)@).value == expected {
                Ok::<(), ProgramError>(())
            } else {
                Err(ProgramError::InvalidAccountData)
            },
            *final(ctx) == *old(ctx),
            final(m)@ == old(m)@,
        { dup_mut::read_two(ctx, m, expected) };
    run_handler::<ReadTwo, ()>(
        program_id,
        memory,
        cursor,
        ix_data,
        num_accounts,
        handler,
    )
}

/// Sets the first account to `value` and what the second holds, added up, and writes it
/// back.
pub fn touch_borsh_mut_and_readonly<'a>(
    program_id: &'a Address,
    memory: &mut AccountMemory,
    cursor: &'a mut AccountCursor,
    ix_data: &'a [u8],
    num_accounts: usize,
    value: u64,
) -> (r: Result<(), ProgramError>)
    requires
        walkable(old(cursor)@, old(memory)@, 2, num_accounts),
    ensures
        num_accounts < 2 ==> {
            &&& r == Err::<(), ProgramError>(ProgramError::NotEnoughAccountKeys)
            &&& final(memory)@ == old(memory)@
        },
        num_accounts >= 2 ==> {
            let m = old(cursor)@.walked_memory(old(memory)@, 2);
            let views = old(cursor)@.walked_views(old(memory)@, 2);
            match TouchBorshMutAndReadonly::loaded(m, views) {
                Err(e) => r == Err::<(), ProgramError>(e) && final(memory)@ == m,
                Ok(accounts) => {
                    let n = taken(m, accounts.holds());
                    let a = SerializedAccount {
                        data: BorshData { value: value.wrapping_add(accounts.data_b.data.value) },
                        ..accounts.data_a
                    };
                    let exit = pair_exited(a, accounts.data_b, n);
                    &&& r == exit.result
                    &&& final(memory)@ == freed(exit.memory, exit.account.holds())
                },
            }
        },
        no_borrow_left(borrow_states(old(memory)@), borrow_states(final(memory)@)),
        final(cursor)@ == past_declared(old(cursor)@, old(memory)@, 2, num_accounts),
{
    proof {
        law_header_sizes();
    }
    let handler = |
        ctx: &mut Context<'a, TouchBorshMutAndReadonly>,
        m: &mut AccountMemory,
        args: (),
    | -> (x: Result<(), ProgramError>)
        requires
            ctx.accounts.live(m@),
            held(m@, ctx.accounts.holds()),
            ctx.accounts.data_a.mutable,
            ctx.accounts.data_a.borrowed,
            ctx.accounts.data_b.borrowed,
        ensures
            steady(old(ctx).accounts, old(m)@, final(ctx).accounts, final(m)@),
            x == Ok::<(), ProgramError>(()),
            final(ctx).accounts.data_a == (SerializedAccount {
                data: BorshData {
                    value: value.wrapping_add(old(ctx).accounts.data_b.data.value),
                },
                ..old(ctx).accounts.data_a
            }),
            final(ctx).accounts.data_b == old(ctx).accounts.data_b,
            final(ctx).remaining_accounts == old(ctx).remaining_accounts,
            final(m)@ == old(m)@,
        { dup_mut::touch_borsh_mut_and_readonly(ctx, value) };
    run_handler::<TouchBorshMutAndReadonly, ()>(
        program_id,
        memory,
        cursor,
        ix_data,
        num_accounts,
        handler,
    )
}

/// Writes into the boxed account `value` and what the other holds, added up.
pub fn touch_boxed_mut_and_readonly<'a>(
    program_id: &'a Address,
    memory: &mut AccountMemory,
    cursor: &'a mut AccountCursor,
    ix_data: &'a [u8],
    num_accounts: usize,
    value: u64,
) -> (r: Result<(), ProgramError>)
    requires
        walkable(old(cursor)@, old(memory)@, 2, num_accounts),
    ensures
        num_accounts < 2 ==> {
            &&& r == Err::<(), ProgramError>(ProgramError::NotEnoughAccountKeys)
            &&& final(memory)@ == old(memory)@
        },
        num_accounts >= 2 ==> {
            let m = old(cursor)@.walked_memory(old(memory)@, 2);
            let views = old(cursor)@.walked_views(old(memory)@, 2);
            match TouchBoxedMutAndReadonly::loaded(m, views) {
                Err(e) => r == Err::<(), ProgramError>(e) && final(memory)@ == m,
                Ok(accounts) => {
                    let n = taken(m, accounts.holds());
                    &&& r == Ok::<(), ProgramError>(())
                    &&& final(memory)@ == freed(
                        accounts.data_a.stored(
                            n,
                            sum(accounts.data_b, n, value),
                        ),
                        accounts.holds(),
                    )
                },
            }
        },
        no_borrow_left(borrow_states(old(memory)@), borrow_states(final(memory)@)),
        final(cursor)@ == past_declared(old(cursor)@, old(memory)@, 2, num_accounts),
{
    proof {
        law_header_sizes();
    }
    let handler = |
        ctx: &mut Context<'a, TouchBoxedMutAndReadonly>,
        m: &mut AccountMemory,
        args: (),
    | -> (x: Result<(), ProgramError>)
        requires
            ctx.accounts.live(m@),
            held(m@, ctx.accounts.holds()),
        ensures
            steady(old(ctx).accounts, old(m)@, final(ctx).accounts, final(m)@),
            x == Ok::<(), ProgramError>(()),
            *final(ctx) == *old(ctx),
            final(m)@ == old(ctx).accounts.data_a.stored(
                old(m)@,
                sum(old(ctx).accounts.data_b, old(m)@, value),
            ),
        { dup_mut::touch_boxed_mut_and_readonly(ctx, m, value) };
    run_handler::<TouchBoxedMutAndReadonly, ()>(
        program_id,
        memory,
        cursor,
        ix_data,
        num_accounts,
        handler,
    )
}

/// Writes `value` into the first account, where it is there, and the number after it into
/// the second.
pub fn touch_optional_mut_and_mut<'a>(
    program_id: &'a Address,
    memory: &mut AccountMemory,
    cursor: &'a mut AccountCursor,
    ix_data: &'a [u8],
    num_accounts: usize,
    value: u64,
) -> (r: Result<(), ProgramError>)
    requires
        walkable(old(cursor)@, old(memory)@, 2, num_accounts),
    ensures
        num_accounts < 2 ==> {
            &&& r == Err::<(), ProgramError>(ProgramError::NotEnoughAccountKeys)
            &&& final(memory)@ == old(memory)@
        },
        num_accounts >= 2 ==> {
            let m = old(cursor)@.walked_memory(old(memory)@, 2);
            let views = old(cursor)@.walked_views(old(memory)@, 2);
            match TouchOptionalMutAndMut::loaded(program_id@, m, views) {
                Err(e) => r == Err::<(), ProgramError>(e) && final(memory)@ == m,
                Ok(accounts) => {
                    let n = taken(m, accounts.holds());
                    &&& r == Ok::<(), ProgramError>(())
                    &&& final(memory)@ == freed(
                        written_optional(
                            accounts.data_a,
                            accounts.data_b,
                            n,
                            value,
                        ),
                        accounts.holds(),
                    )
                },
            }
        },
        no_borrow_left(borrow_states(old(memory)@), borrow_states(final(memory)@)),
        final(cursor)@ == past_declared(old(cursor)@, old(memory)@, 2, num_accounts),
{
    proof {
        law_header_sizes();
    }
    let handler = |
        ctx: &mut Context<'a, TouchOptionalMutAndMut>,
        m: &mut AccountMemory,
        args: (),
    | -> (x: Result<(), ProgramError>)
        requires
            ctx.accounts.live(m@),
            held(m@, ctx.accounts.holds()),
        ensures
            steady(old(ctx).accounts, old(m)@, final(ctx).accounts, final(m)@),
            x == Ok::<(), ProgramError>(()),
            *final(ctx) == *old(ctx),
            final(m)@ == written_optional(
                old(ctx).accounts.data_a,
                old(ctx).accounts.data_b,
                old(m)@,
                value,
            ),
        { dup_mut::touch_optional_mut_and_mut(ctx, m, value) };
    run_handler::<TouchOptionalMutAndMut, ()>(
        program_id,
        memory,
        cursor,
        ix_data,
        num_accounts,
        handler,
    )
}

/// Writes `value` and the number after it into two nested accounts.
pub fn touch_nested_two_mut<'a>(
    program_id: &'a Address,
    memory: &mut AccountMemory,
    cursor: &'a mut AccountCursor,
    ix_data: &'a [u8],
    num_accounts: usize,
    value: u64,
) -> (r: Result<(), ProgramError>)
    requires
        walkable(old(cursor)@, old(memory)@, 2, num_accounts),
    ensures
        num_accounts < 2 ==> {
            &&& r == Err::<(), ProgramError>(ProgramError::NotEnoughAccountKeys)
            &&& final(memory)@ == old(memory)@
        },
        num_accounts >= 2 ==> {
            let m = old(cursor)@.walked_memory(old(memory)@, 2);
            let views = old(cursor)@.walked_views(old(memory)@, 2);
            match TouchNestedTwoMut::loaded(m, views) {
                Err(e) => r == Err::<(), ProgramError>(e) && final(memory)@ == m,
                Ok(accounts) => {
                    let n = taken(m, accounts.holds());
                    &&& r == Ok::<(), ProgramError>(())
                    &&& final(memory)@ == freed(
                        written_two(
                            accounts.pair.inner.data_a,
                            accounts.pair.inner.data_b,
                            n,
                            value,
                        ),
                        accounts.holds(),
                    )
                },
            }
        },
        no_borrow_left(borrow_states(old(memory)@), borrow_states(final(memory)@)),
        final(cursor)@ == past_declared(old(cursor)@, old(memory)@, 2, num_accounts),
{
    proof {
        law_header_sizes();
    }
    let handler = |
        ctx: &mut Context<'a, TouchNestedTwoMut>,
        m: &mut AccountMemory,
        args: (),
    | -> (x: Result<(), ProgramError>)
        requires
            ctx.accounts.live(m@),
            held(m@, ctx.accounts.holds()),
        ensures
            steady(old(ctx).accounts, old(m)@, final(ctx).accounts, final(m)@),
            x == Ok::<(), ProgramError>(()),
            *final(ctx) == *old(ctx),
            final(m)@ == written_two(
                old(ctx).accounts.pair.inner.data_a,
                old(ctx).accounts.pair.inner.data_b,
                old(m)@,
                value,
            ),
        { dup_mut::touch_nested_two_mut(ctx, m, value) };
    run_handler::<TouchNestedTwoMut, ()>(
        program_id,
        memory,
        cursor,
        ix_data,
        num_accounts,
        handler,
    )
}

/// Writes into the first nested account `value` and what the second holds, added up.
pub fn touch_nested_mut_readonly<'a>(
    program_id: &'a Address,
    memory: &mut AccountMemory,
    cursor: &'a mut AccountCursor,
    ix_data: &'a [u8],
    num_accounts: usize,
    value: u64,
) -> (r: Result<(), ProgramError>)
    requires
        walkable(old(cursor)@, old(memory)@, 2, num_accounts),
    ensures
        num_accounts < 2 ==> {
            &&& r == Err::<(), ProgramError>(ProgramError::NotEnoughAccountKeys)
            &&& final(memory)@ == old(memory)@
        },
        num_accounts >= 2 ==> {
            let m = old(cursor)@.walked_memory(old(memory)@, 2);
            let views = old(cursor)@.walked_views(old(memory)@, 2);
            match TouchNestedMutReadonly::loaded(m, views) {
                Err(e) => r == Err::<(), ProgramError>(e) && final(memory)@ == m,
                Ok(accounts) => {
                    let n = taken(m, accounts.holds());
                    &&& r == Ok::<(), ProgramError>(())
                    &&& final(memory)@ == freed(
                        accounts.pair.inner.data_a.stored(
                            n,
                            sum(accounts.pair.inner.data_b, n, value),
                        ),
                        accounts.holds(),
                    )
                },
            }
        },
        no_borrow_left(borrow_states(old(memory)@), borrow_states(final(memory)@)),
        final(cursor)@ == past_declared(old(cursor)@, old(memory)@, 2, num_accounts),
{
    proof {
        law_header_sizes();
    }
    let handler = |
        ctx: &mut Context<'a, TouchNestedMutReadonly>,
        m: &mut AccountMemory,
        args: (),
    | -> (x: Result<(), ProgramError>)
        requires
            ctx.accounts.live(m@),
            held(m@, ctx.accounts.holds()),
        ensures
            steady(old(ctx).accounts, old(m)@, final(ctx).accounts, final(m)@),
            x == Ok::<(), ProgramError>(()),
            *final(ctx) == *old(ctx),
            final(m)@ == old(ctx).accounts.pair.inner.data_a.stored(
                old(m)@,
                sum(old(ctx).accounts.pair.inner.data_b, old(m)@, value),
            ),
        { dup_mut::touch_nested_mut_readonly(ctx, m, value) };
    run_handler::<TouchNestedMutReadonly, ()>(
        program_id,
        memory,
        cursor,
        ix_data,
        num_accounts,
        handler,
    )
}

/// Writes `value` into the outer account and the two numbers after it into the nested
/// ones.
pub fn touch_outer_mut_plus_nested<'a>(
    program_id: &'a Address,
    memory: &mut AccountMemory,
    cursor: &'a mut AccountCursor,
    ix_data: &'a [u8],
    num_accounts: usize,
    value: u64,
) -> (r: Result<(), ProgramError>)
    requires
        walkable(old(cursor)@, old(memory)@, 3, num_accounts),
    ensures
        num_accounts < 3 ==> {
            &&& r == Err::<(), ProgramError>(ProgramError::NotEnoughAccountKeys)
            &&& final(memory)@ == old(memory)@
        },
        num_accounts >= 3 ==> {
            let m = old(cursor)@.walked_memory(old(memory)@, 3);
            let views = old(cursor)@.walked_views(old(memory)@, 3);
            match TouchOuterMutPlusNested::loaded(m, views) {
                Err(e) => r == Err::<(), ProgramError>(e) && final(memory)@ == m,
                Ok(accounts) => {
                    let n = taken(m, accounts.holds());
                    &&& r == Ok::<(), ProgramError>(())
                    &&& final(memory)@ == freed(
                        written_three(
                            accounts.outer,
                            accounts.pair.inner.data_a,
                            accounts.pair.inner.data_b,
                            n,
                            value,
                        ),
                        accounts.holds(),
                    )
                },
            }
        },
        no_borrow_left(borrow_states(old(memory)@), borrow_states(final(memory)@)),
        final(cursor)@ == past_declared(old(cursor)@, old(memory)@, 3, num_accounts),
{
    proof {
        law_header_sizes();
    }
    let handler = |
        ctx: &mut Context<'a, TouchOuterMutPlusNested>,
        m: &mut AccountMemory,
        args: (),
    | -> (x: Result<(), ProgramError>)
        requires
            ctx.accounts.live(m@),
            held(m@, ctx.accounts.holds()),
        ensures
            steady(old(ctx).accounts, old(m)@, final(ctx).accounts, final(m)@),
            x == Ok::<(), ProgramError>(()),
            *final(ctx) == *old(ctx),
            final(m)@ == written_three(
                old(ctx).accounts.outer,
                old(ctx).accounts.pair.inner.data_a,
                old(ctx).accounts.pair.inner.data_b,
                old(m)@,
                value,
            ),
        { dup_mut::touch_outer_mut_plus_nested(ctx, m, value) };
    run_handler::<TouchOuterMutPlusNested, ()>(
        program_id,
        memory,
        cursor,
        ix_data,
        num_accounts,
        handler,
    )
}

/// Takes a look at who signed.
pub fn signer_roles<'a>(
    program_id: &'a Address,
    memory: &mut AccountMemory,
    cursor: &'a mut AccountCursor,
    ix_data: &'a [u8],
    num_accounts: usize,
) -> (r: Result<(), ProgramError>)
    requires
        walkable(old(cursor)@, old(memory)@, 2, num_accounts),
    ensures
        num_accounts < 2 ==> {
            &&& r == Err::<(), ProgramError>(ProgramError::NotEnoughAccountKeys)
            &&& final(memory)@ == old(memory)@
        },
        num_accounts >= 2 ==> {
            let m = old(cursor)@.walked_memory(old(memory)@, 2);
            let views = old(cursor)@.walked_views(old(memory)@, 2);
            match SignerRoles::loaded(m, views) {
                Err(e) => r == Err::<(), ProgramError>(e) && final(memory)@ == m,
                Ok(accounts) => {
                    let n = taken(m, accounts.holds());
                    &&& r == Ok::<(), ProgramError>(())
                    &&& final(memory)@ == freed(n, accounts.holds())
                },
            }
        },
        no_borrow_left(borrow_states(old(memory)@), borrow_states(final(memory)@)),
        final(cursor)@ == past_declared(old(cursor)@, old(memory)@, 2, num_accounts),
{
    proof {
        law_header_sizes();
    }
    let handler = |
        ctx: &mut Context<'a, SignerRoles>,
        m: &mut AccountMemory,
        args: (),
    | -> (x: Result<(), ProgramError>)
        requires
            ctx.accounts.live(m@),
            held(m@, ctx.accounts.holds()),
        ensures
            steady(old(ctx).accounts, old(m)@, final(ctx).accounts, final(m)@),
            x == Ok::<(), ProgramError>(()),
            *final(ctx) == *old(ctx),
            final(m)@ == old(m)@,
        { dup_mut::signer_roles(ctx, m) };
    run_handler::<SignerRoles, ()>(
        program_id,
        memory,
        cursor,
        ix_data,
        num_accounts,
        handler,
    )
}

/// Asks the System program to move a balance from who pays to who is paid.
pub fn transfer_to_recipient<'a>(
    program_id: &'a Address,
    memory: &mut AccountMemory,
    cursor: &'a mut AccountCursor,
    ix_data: &'a [u8],
    num_accounts: usize,
    lamports: u64,
) -> (r: Result<TransferRequest, ProgramError>)
    requires
        walkable(old(cursor)@, old(memory)@, 3, num_accounts),
    ensures
        num_accounts < 3 ==> {
            &&& r == Err::<TransferRequest, ProgramError>(ProgramError::NotEnoughAccountKeys)
            &&& final(memory)@ == old(memory)@
        },
        num_accounts >= 3 ==> {
            let m = old(cursor)@.walked_memory(old(memory)@, 3);
            let views = old(cursor)@.walked_views(old(memory)@, 3);
            match TransferToRecipient::loaded(m, views) {
                Err(e) => r == Err::<TransferRequest, ProgramError>(e) && final(memory)@ == m,
                Ok(accounts) => {
                    let n = taken(m, accounts.holds());
                    &&& requested(
                        r,
                        n,
                        accounts.system_program.view,
                        accounts.payer.view,
                        accounts.recipient.view,
                        lamports,
                    )
                    &&& final(memory)@ == freed(n, accounts.holds())
                },
            }
        },
        no_borrow_left(borrow_states(old(memory)@), borrow_states(final(memory)@)),
        final(cursor)@ == past_declared(old(cursor)@, old(memory)@, 3, num_accounts),
{
    proof {
        law_header_sizes();
    }
    let handler = |
        ctx: &mut Context<'a, TransferToRecipient>,
        m: &mut AccountMemory,
        args: (),
    | -> (x: Result<TransferRequest, ProgramError>)
        requires
            ctx.accounts.live(m@),
            held(m@, ctx.accounts.holds()),
        ensures
            steady(old(ctx).accounts, old(m)@, final(ctx).accounts, final(m)@),
            requested(
                x,
                old(m)@,
                old(ctx).accounts.system_program.view,
                old(ctx).accounts.payer.view,
                old(ctx).accounts.recipient.view,
                lamports,
            ),
            *final(ctx) == *old(ctx),
            final(m)@ == old(m)@,
        { dup_mut::transfer_to_recipient(ctx, m, lamports) };
    run_handler::<TransferToRecipient, TransferRequest>(
        program_id,
        memory,
        cursor,
        ix_data,
        num_accounts,
        handler,
    )
}

/// Writes `value`, and where `borrow_raw` says so, borrows the other account's data for a
/// moment.
pub fn touch_data_and_raw<'a>(
    program_id: &'a Address,
    memory: &mut AccountMemory,
    cursor: &'a mut AccountCursor,
    ix_data: &'a [u8],
    num_accounts: usize,
    value: u64,
    borrow_raw: bool,
) -> (r: Result<(), ProgramError>)
    requires
        walkable(old(cursor)@, old(memory)@, 2, num_accounts),
    ensures
        num_accounts < 2 ==> {
            &&& r == Err::<(), ProgramError>(ProgramError::NotEnoughAccountKeys)
            &&& final(memory)@ == old(memory)@
        },
        num_accounts >= 2 ==> {
            let m = old(cursor)@.walked_memory(old(memory)@, 2);
            let views = old(cursor)@.walked_views(old(memory)@, 2);
            match TouchDataAndRaw::loaded(m, views) {
                Err(e) => r == Err::<(), ProgramError>(e) && final(memory)@ == m,
                Ok(accounts) => {
                    let n = taken(m, accounts.holds());
                    &&& r == if borrow_raw && !can_take(n, shared_hold(accounts.raw.view)) {
                        Err::<(), ProgramError>(ProgramError::AccountBorrowFailed)
                    } else {
                        Ok(())
                    }
                    &&& final(memory)@ == freed(
                        accounts.data.stored(n, Data { value }),
                        accounts.holds(),
                    )
                },
            }
        },
        no_borrow_left(borrow_states(old(memory)@), borrow_states(final(memory)@)),
        final(cursor)@ == past_declared(old(cursor)@, old(memory)@, 2, num_accounts),
{
    proof {
        law_header_sizes();
    }
    let handler = |
        ctx: &mut Context<'a, TouchDataAndRaw>,
        m: &mut AccountMemory,
        args: (),
    | -> (x: Result<(), ProgramError>)
        requires
            ctx.accounts.live(m@),
            held(m@, ctx.accounts.holds()),
        ensures
            steady(old(ctx).accounts, old(m)@, final(ctx).accounts, final(m)@),
            x == if borrow_raw && !can_take(old(m)@, shared_hold(old(ctx).accounts.raw.view)) {
                Err::<(), ProgramError>(ProgramError::AccountBorrowFailed)
            } else {
                Ok(())
            },
            *final(ctx) == *old(ctx),
            final(m)@ == old(ctx).accounts.data.stored(old(m)@, Data { value }),
        { dup_mut::touch_data_and_raw(ctx, m, value, borrow_raw) };
    run_handler::<TouchDataAndRaw, ()>(
        program_id,
        memory,
        cursor,
        ix_data,
        num_accounts,
        handler,
    )
}

/// Writes `value` and asks the System program to move nothing to an account that is taken
/// as it is.
pub fn transfer_to_raw_alias<'a>(
    program_id: &'a Address,
    memory: &mut AccountMemory,
    cursor: &'a mut AccountCursor,
    ix_data: &'a [u8],
    num_accounts: usize,
    value: u64,
) -> (r: Result<TransferRequest, ProgramError>)
    requires
        walkable(old(cursor)@, old(memory)@, 4, num_accounts),
    ensures
        num_accounts < 4 ==> {
            &&& r == Err::<TransferRequest, ProgramError>(ProgramError::NotEnoughAccountKeys)
            &&& final(memory)@ == old(memory)@
        },
        num_accounts >= 4 ==> {
            let m = old(cursor)@.walked_memory(old(memory)@, 4);
            let views = old(cursor)@.walked_views(old(memory)@, 4);
            match TransferToRawAlias::loaded(m, views) {
                Err(e) => r == Err::<TransferRequest, ProgramError>(e) && final(memory)@ == m,
                Ok(accounts) => {
                    let n = taken(m, accounts.holds());
                    &&& requested(
                        r,
                        n,
                        accounts.system_program.view,
                        accounts.payer.view,
                        accounts.raw.view,
                        0,
                    )
                    &&& final(memory)@ == freed(
                        accounts.data.stored(n, Data { value }),
                        accounts.holds(),
                    )
                },
            }
        },
        no_borrow_left(borrow_states(old(memory)@), borrow_states(final(memory)@)),
        final(cursor)@ == past_declared(old(cursor)@, old(memory)@, 4, num_accounts),
{
    proof {
        law_header_sizes();
    }
    let handler = |
        ctx: &mut Context<'a, TransferToRawAlias>,
        m: &mut AccountMemory,
        args: (),
    | -> (x: Result<TransferRequest, ProgramError>)
        requires
            ctx.accounts.live(m@),
            held(m@, ctx.accounts.holds()),
        ensures
            steady(old(ctx).accounts, old(m)@, final(ctx).accounts, final(m)@),
            requested(
                x,
                old(m)@,
                old(ctx).accounts.system_program.view,
                old(ctx).accounts.payer.view,
                old(ctx).accounts.raw.view,
                0,
            ),
            *final(ctx) == *old(ctx),
            final(m)@ == old(ctx).accounts.data.stored(old(m)@, Data { value }),
        { dup_mut::transfer_to_raw_alias(ctx, m, value) };
    run_handler::<TransferToRawAlias, TransferRequest>(
        program_id,
        memory,
        cursor,
        ix_data,
        num_accounts,
        handler,
    )
}

/// Gives an account that was just created its discriminator.
pub fn initialize<'a>(
    program_id: &'a Address,
    memory: &mut AccountMemory,
    cursor: &'a mut AccountCursor,
    ix_data: &'a [u8],
    num_accounts: usize,
) -> (r: Result<(), ProgramError>)
    requires
        walkable(old(cursor)@, old(memory)@, 3, num_accounts),
    ensures
        num_accounts < 3 ==> {
            &&& r == Err::<(), ProgramError>(ProgramError::NotEnoughAccountKeys)
            &&& final(memory)@ == old(memory)@
        },
        num_accounts >= 3 ==> {
            let m = old(cursor)@.walked_memory(old(memory)@, 3);
            let views = old(cursor)@.walked_views(old(memory)@, 3);
            let checked = match seed_of(ix_data@) {
                Err(e) => Err(e),
                Ok(seed) => checked_init(
                    m,
                    views,
                    seed,
                    program_address(seq![seq![DATA_PREFIX], seq![seed]], program_id@),
                ),
            };
            match checked {
                Err(e) => r == Err::<(), ProgramError>(e) && final(memory)@ == m,
                Ok(_) => match Initialize::prepared(m, views) {
                    Err(e) => r == Err::<(), ProgramError>(e) && final(memory)@ == m,
                    Ok(p) => match pair_loaded::<Account<Data>, Program<System>>(
                        p,
                        (views[1], true),
                        (views[2], false),
                    ) {
                        Err(e) => r == Err::<(), ProgramError>(e) && final(memory)@ == p,
                        Ok(loaded) => {
                            &&& r == Ok::<(), ProgramError>(())
                            &&& final(memory)@ == p
                        },
                    },
                },
            }
        },
        no_borrow_left(borrow_states(old(memory)@), borrow_states(final(memory)@)),
        final(cursor)@ == past_declared(old(cursor)@, old(memory)@, 3, num_accounts),
{
    proof {
        law_init_header_sizes();
    }
    let handler = |
        ctx: &mut Context<'a, Initialize>,
        m: &mut AccountMemory,
        seed: u8,
    | -> (x: Result<(), ProgramError>)
        requires
            ctx.accounts.live(m@),
            held(m@, ctx.accounts.holds()),
        ensures
            steady(old(ctx).accounts, old(m)@, final(ctx).accounts, final(m)@),
            x == Ok::<(), ProgramError>(()),
            *final(ctx) == *old(ctx),
            final(m)@ == old(m)@,
        { dup_mut::initialize(ctx, seed) };
    run_handler::<Initialize, ()>(program_id, memory, cursor, ix_data, num_accounts, handler)
}

/// Gives an account in the Borsh format that was just created its discriminator.
pub fn initialize_borsh<'a>(
    program_id: &'a Address,
    memory: &mut AccountMemory,
    cursor: &'a mut AccountCursor,
    ix_data: &'a [u8],
    num_accounts: usize,
) -> (r: Result<(), ProgramError>)
    requires
        walkable(old(cursor)@, old(memory)@, 3, num_accounts),
    ensures
        num_accounts < 3 ==> {
            &&& r == Err::<(), ProgramError>(ProgramError::NotEnoughAccountKeys)
            &&& final(memory)@ == old(memory)@
        },
        num_accounts >= 3 ==> {
            let m = old(cursor)@.walked_memory(old(memory)@, 3);
            let views = old(cursor)@.walked_views(old(memory)@, 3);
            let checked = match seed_of(ix_data@) {
                Err(e) => Err(e),
                Ok(seed) => checked_init(
                    m,
                    views,
                    seed,
                    program_address(seq![seq![BORSH_PREFIX], seq![seed]], program_id@),
                ),
            };
            match checked {
                Err(e) => r == Err::<(), ProgramError>(e) && final(memory)@ == m,
                Ok(_) => match InitializeBorsh::prepared(m, views) {
                    Err(e) => r == Err::<(), ProgramError>(e) && final(memory)@ == m,
                    Ok(p) => match pair_loaded::<BorshAccount<BorshData>, Program<System>>(
                        p,
                        (views[1], true),
                        (views[2], false),
                    ) {
                        Err(e) => r == Err::<(), ProgramError>(e) && final(memory)@ == p,
                        Ok(loaded) => {
                            let exit = pair_exited(loaded.0, loaded.1, taken(p, loaded.holds()));
                            &&& r == exit.result
                            &&& final(memory)@ == freed(exit.memory, exit.account.holds())
                        },
                    },
                },
            }
        },
        no_borrow_left(borrow_states(old(memory)@), borrow_states(final(memory)@)),
        final(cursor)@ == past_declared(old(cursor)@, old(memory)@, 3, num_accounts),
{
    proof {
        law_init_header_sizes();
    }
    let handler = |
        ctx: &mut Context<'a, InitializeBorsh>,
        m: &mut AccountMemory,
        seed: u8,
    | -> (x: Result<(), ProgramError>)
        requires
            ctx.accounts.live(m@),
            held(m@, ctx.accounts.holds()),
        ensures
            steady(old(ctx).accounts, old(m)@, final(ctx).accounts, final(m)@),
            x == Ok::<(), ProgramError>(()),
            *final(ctx) == *old(ctx),
            final(m)@ == old(m)@,
        { dup_mut::initialize_borsh(ctx, seed) };
    run_handler::<InitializeBorsh, ()>(program_id, memory, cursor, ix_data, num_accounts, handler)
}

} // verus!
