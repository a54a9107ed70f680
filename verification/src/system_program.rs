//! Calls to the System program.
//!
//! A call is made outside this library. Here it is decided whether it may be made and
//! what it asks for: the result is a request, and whoever performs it hands the reply
//! back.

use crate::address::Address;
use crate::memory::{AccountMemory, AccountView, Memory, NOT_BORROWED};
use solana_program_error::ProgramError;
use vstd::prelude::*;

verus! {

/// An account that is handed to another program, which may write it.
#[derive(Clone, Copy, Debug, PartialEq, Eq, Structural)]
pub struct CpiHandle {
    pub view: AccountView,
}

/// The accounts of a transfer.
#[derive(Clone, Copy, Debug, PartialEq, Eq, Structural)]
pub struct Transfer {
    pub from: CpiHandle,
    pub to: CpiHandle,
}

/// A program to call and the accounts to call it with.
pub struct CpiContext<A> {
    pub program: Address,
    pub accounts: A,
}

impl<A> CpiContext<A> {
    pub fn new(program: Address, accounts: A) -> (context: Self)
        ensures
            context.program == program,
            context.accounts == accounts,
    {
        CpiContext { program, accounts }
    }
}

/// A transfer that is to be performed.
pub struct TransferRequest {
    pub program: Address,
    pub from: AccountView,
    pub to: AccountView,
    pub lamports: u64,
}

impl TransferRequest {
    /// The outcome of the transfer, once the System program has replied.
    pub fn settle(self, reply: Result<(), ProgramError>) -> (r: Result<(), ProgramError>)
        ensures
            r == reply,
    {
        reply
    }
}

/// Whether anybody borrows the account's data. Such an account is not handed to another
/// program.
pub open spec fn borrowed(m: Memory, view: AccountView) -> bool {
    m[view.slot as int].borrow_state != NOT_BORROWED
}

/// Asks the System program to move a balance. An account whose data is borrowed is not
/// handed over.
pub fn transfer(
    context: CpiContext<Transfer>,
    memory: &AccountMemory,
    lamports: u64,
) -> (r: Result<TransferRequest, ProgramError>)
    requires
        context.accounts.from.view.slot < memory@.len(),
        context.accounts.to.view.slot < memory@.len(),
    ensures
        r == if borrowed(memory@, context.accounts.from.view) || borrowed(
            memory@,
            context.accounts.to.view,
        ) {
            Err::<TransferRequest, ProgramError>(ProgramError::AccountBorrowFailed)
        } else {
            Ok(
                TransferRequest {
                    program: context.program,
                    from: context.accounts.from.view,
                    to: context.accounts.to.view,
                    lamports,
                },
            )
        },
{
    let from = context.accounts.from.view;
    let to = context.accounts.to.view;
    if from.is_borrowed(memory) || to.is_borrowed(memory) {
        return Err(ProgramError::AccountBorrowFailed);
    }
    Ok(TransferRequest { program: context.program, from, to, lamports })
}

/// An account that is to be created at a program address.
pub struct CreateRequest {
    pub payer: AccountView,
    pub account: AccountView,
    pub space: usize,
    pub owner: Address,
    pub prefix: u8,
    pub seed: u8,
    pub bump: u8,
}

/// Asks the System program to create an account. An account whose data is borrowed is
/// not handed over.
pub fn create_account(request: CreateRequest, memory: &AccountMemory) -> (r: Result<
    CreateRequest,
    ProgramError,
>)
    requires
        request.payer.slot < memory@.len(),
        request.account.slot < memory@.len(),
    ensures
        r == if borrowed(memory@, request.payer) || borrowed(memory@, request.account) {
            Err::<CreateRequest, ProgramError>(ProgramError::AccountBorrowFailed)
        } else {
            Ok(request)
        },
{
    if request.payer.is_borrowed(memory) || request.account.is_borrowed(memory) {
        return Err(ProgramError::AccountBorrowFailed);
    }
    Ok(request)
}

} // verus!
