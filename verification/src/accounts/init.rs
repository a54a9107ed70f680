//! Accounts that were just created.

use crate::address::Address;
use crate::le::overwrite;
use crate::memory::{
    borrow_states, can_take, exclusive_hold, same_shape, with_data, AccountMemory, AccountView,
    Memory,
};
use solana_program_error::ProgramError;
use vstd::prelude::*;

verus! {

/// Whether the first `n` bytes are zero.
pub open spec fn zeroed(data: Seq<u8>, n: int) -> bool {
    forall|i: int| 0 <= i < n ==> #[trigger] data[i] == 0
}

/// What giving a new account its discriminator comes to: the memory with the
/// discriminator written, unless the account is borrowed, belongs to another program, is
/// too small, or has a discriminator already.
pub open spec fn header_initialized(
    m: Memory,
    view: AccountView,
    owner: Seq<u8>,
    discriminator: Seq<u8>,
    min_len: nat,
) -> Result<Memory, ProgramError> {
    let account = m[view.slot as int];
    if !can_take(m, exclusive_hold(view)) {
        Err(ProgramError::AccountBorrowFailed)
    } else if account.owner != owner {
        Err(ProgramError::IllegalOwner)
    } else if account.data.len() < min_len {
        Err(ProgramError::AccountDataTooSmall)
    } else if !zeroed(account.data, discriminator.len() as int) {
        Err(ProgramError::AccountAlreadyInitialized)
    } else {
        Ok(with_data(m, view.slot as int, overwrite(account.data, 0, discriminator)))
    }
}

fn is_zeroed(data: &Vec<u8>, n: usize) -> (yes: bool)
    requires
        n <= data@.len(),
    ensures
        yes == zeroed(data@, n as int),
{
    let mut i: usize = 0;
    while i < n
        invariant
            i <= n <= data@.len(),
            zeroed(data@, i as int),
        decreases n - i,
    {
        if data[i] != 0 {
            return false;
        }
        i = i + 1;
    }
    true
}

/// Gives a new account its discriminator.
pub fn init_header(
    memory: &mut AccountMemory,
    view: AccountView,
    owner: &Address,
    discriminator: &Vec<u8>,
    min_len: usize,
) -> (r: Result<(), ProgramError>)
    requires
        view.slot < old(memory)@.len(),
        discriminator@.len() <= min_len,
    ensures
        match header_initialized(old(memory)@, view, owner@, discriminator@, min_len as nat) {
            Ok(n) => r == Ok::<(), ProgramError>(()) && final(memory)@ == n,
            Err(e) => r == Err::<(), ProgramError>(e) && final(memory)@ == old(memory)@,
        },
        borrow_states(final(memory)@) == borrow_states(old(memory)@),
        same_shape(old(memory)@, final(memory)@),
{
    match view.check_borrow_mut(memory) {
        Ok(_) => {},
        Err(e) => {
            return Err(e);
        },
    }
    if !view.owned_by(memory, owner) {
        return Err(ProgramError::IllegalOwner);
    }
    if view.data_len(memory) < min_len {
        return Err(ProgramError::AccountDataTooSmall);
    }
    if !is_zeroed(&memory.account(view).data, discriminator.len()) {
        return Err(ProgramError::AccountAlreadyInitialized);
    }
    let ghost m = memory@;
    memory.write(view, 0, discriminator.as_slice());
    assert(borrow_states(memory@) =~= borrow_states(m));
    Ok(())
}

} // verus!
