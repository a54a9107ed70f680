//! A program whose accounts ask for updates: they are validated first, then updated, and
//! only then does the handler see them.

pub mod accounts;
pub mod declared;
pub mod laws;
pub mod state;

use crate::accounts::Wrapper;
use crate::address::Address;
use crate::context::Context;
use crate::cursor::{law_walk_remembers_views, AccountCursor};
use crate::dispatch::{
    no_borrow_left, past_declared, run_handler, steady, views_within, walkable, TryAccounts,
};
use crate::error::ErrorCode;
use crate::laws::borrows::law_exclusive_borrow_empties_the_state;
use crate::memory::{borrow_states, freed, held, taken, AccountMemory, Held};
use crate::updates::accounts::{law_updated_header_sizes, RotateAuthority};
use crate::updates::laws::{
    law_authority_of_an_account, law_rotated_vault_is_written_back, law_who_may_rotate,
};
use solana_program_error::ProgramError;
use vstd::prelude::*;

verus! {

/// Checks that the vault has the authority that is expected.
pub fn rotate<'a>(ctx: &mut Context<'a, RotateAuthority>, expected: &Address) -> (r: Result<
    (),
    ProgramError,
>)
    requires
        old(ctx).accounts.vault.borrowed,
    ensures
        r == if old(ctx).accounts.vault.data.current_authority@ == expected@ {
            Ok::<(), ProgramError>(())
        } else {
            Err(ErrorCode::ConstraintAddress.program_error())
        },
        *final(ctx) == *old(ctx),
{
    if !ctx.accounts.vault.get().current_authority.same_as(expected) {
        return Err(ErrorCode::ConstraintAddress.into());
    }
    Ok(())
}

/// Replaces the authority of a vault: the accounts are validated, then updated, then the
/// handler runs, and what was updated is written back.
pub fn rotate_authority<'a>(
    program_id: &'a Address,
    memory: &mut AccountMemory,
    cursor: &'a mut AccountCursor,
    ix_data: &'a [u8],
    num_accounts: usize,
    expected: &Address,
) -> (r: Result<(), ProgramError>)
    requires
        walkable(old(cursor)@, old(memory)@, 3, num_accounts),
    ensures
        num_accounts < 3 ==> {
            &&& r == Err::<(), ProgramError>(ProgramError::NotEnoughAccountKeys)
            &&& final(memory)@ == old(memory)@
        },
        num_accounts >= 3 ==> {
            let m = old(cursor)@.walked_memory(old(memory)@, 3);
            let views = old(cursor)@.walked_views(old(memory)@, 3);
            match RotateAuthority::validated(m, views) {
                Err(e) => r == Err::<(), ProgramError>(e) && final(memory)@ == m,
                Ok(accounts) => {
                    let n = taken(m, accounts.holds());
                    let vault = accounts.updated(n).vault;
                    if vault.data.current_authority@ != expected@ {
                        &&& r == Err::<(), ProgramError>(
                            ErrorCode::ConstraintAddress.program_error(),
                        )
                        &&& final(memory)@ == freed(n, accounts.holds())
                    } else {
                        let exit = vault.exited(n);
                        &&& r == exit.result
                        &&& final(memory)@ == freed(exit.memory, exit.account.holds())
                    }
                },
            }
        },
        num_accounts >= 3 && r is Ok ==> {
            let m = old(cursor)@.walked_memory(old(memory)@, 3);
            let views = old(cursor)@.walked_views(old(memory)@, 3);
            let vault = final(memory)@[views[0].slot as int].data;
            &&& m[views[1].slot as int].is_signer
            &&& m[views[0].slot as int].data.subrange(8, 40) == m[views[1].slot as int].address
            &&& m[views[2].slot as int].address == expected.bytes@
            &&& vault.subrange(8, 40) == m[views[2].slot as int].address
        },
        no_borrow_left(borrow_states(old(memory)@), borrow_states(final(memory)@)),
        final(cursor)@ == past_declared(old(cursor)@, old(memory)@, 3, num_accounts),
{
    proof {
        law_updated_header_sizes();
    }
    let handler = |
        ctx: &mut Context<'a, RotateAuthority>,
        m: &mut AccountMemory,
        args: (),
    | -> (x: Result<(), ProgramError>)
        requires
            ctx.accounts.live(m@),
            held(m@, ctx.accounts.holds()),
        ensures
            steady(old(ctx).accounts, old(m)@, final(ctx).accounts, final(m)@),
            x == if old(ctx).accounts.updated(old(m)@).vault.data.current_authority@ == expected@ {
                Ok::<(), ProgramError>(())
            } else {
                Err(ErrorCode::ConstraintAddress.program_error())
            },
            final(ctx).accounts == old(ctx).accounts.updated(old(m)@),
            final(ctx).accounts.vault.data.current_authority.bytes@ == old(m)@[old(
                ctx,
            ).accounts.new_authority.view.slot as int].address,
            final(ctx).remaining_accounts == old(ctx).remaining_accounts,
            final(m)@ == old(m)@,
        {
            match ctx.accounts.update_accounts(m) {
                Ok(_) => {},
                Err(e) => {
                    return Err(e);
                },
            }
            rotate(ctx, expected)
        };
    let ghost c = cursor@;
    let ghost start = memory@;
    let ghost m = cursor@.walked_memory(memory@, 3);
    let ghost views = cursor@.walked_views(memory@, 3);
    let r = run_handler::<RotateAuthority, ()>(
        program_id,
        memory,
        cursor,
        ix_data,
        num_accounts,
        handler,
    );
    proof {
        if num_accounts >= 3 {
            law_walk_remembers_views(c, start, 3);
            assert(views_within(views, m));
            law_who_may_rotate(m, views);
            law_authority_of_an_account(m, views[0], true);
            law_exclusive_borrow_empties_the_state(m, views[0]);
            if let Ok(accounts) = RotateAuthority::validated(m, views) {
                let n = taken(m, accounts.holds());
                let vault = accounts.updated(n).vault;
                law_rotated_vault_is_written_back(vault, n, vault.data.current_authority);
                let exit = vault.exited(n);
                law_exclusive_borrow_empties_the_state(exit.memory, views[0]);
            }
        }
    }
    r
}

} // verus!
