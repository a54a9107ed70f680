//! Typed wrappers around account views.
//!
//! Wrappers that expose typed data hold a borrow of the account's data from the
//! moment they are loaded, so loading a conflicting alias fails. Wrappers that
//! expose none hold no borrow and accept aliases.

pub mod compose;
pub mod fields;
pub mod init;
pub mod nested;
pub mod program;
pub mod serialized;
pub mod signer;
pub mod slab;
pub mod system_account;
pub mod unchecked_account;

use crate::accounts::slab::data_hold;
use crate::address::Address;
use crate::error::ErrorCode;
use crate::memory::{
    can_take, held, keeps_or_frees, same_shape, taken, AccountMemory, AccountView, Held, Hold,
    Memory, Release,
};
use solana_program_error::ProgramError;
use vstd::multiset::Multiset;
use vstd::prelude::*;

verus! {

/// What writing an account back comes to.
#[verifier::ext_equal]
pub struct Exit<A> {
    pub result: Result<(), ProgramError>,
    pub account: A,
    pub memory: Memory,
}

/// What a typed wrapper around one account means.
pub trait Wrapper: Held {
    /// The account that is wrapped.
    spec fn target(&self) -> AccountView;

    /// What loading `view` gives, for reading or, where `mutable`, for writing too.
    spec fn loaded(m: Memory, view: AccountView, mutable: bool) -> Result<Self, ProgramError>;

    /// What writing back gives.
    spec fn exited(&self, m: Memory) -> Exit<Self>;

    /// Whether the wrapper exposes data, and so holds a borrow from when it is loaded.
    spec fn keeps_data() -> bool;

    /// Whether the checks of loading, the borrow itself aside, look at no borrow state.
    spec fn ignores_borrows() -> bool;

    /// What is loaded is of the account it was loaded from, its borrows can be taken, and
    /// with them taken it is usable.
    proof fn lemma_loaded(m: Memory, view: AccountView, mutable: bool)
        requires
            view.slot < m.len(),
        ensures
            Self::loaded(m, view, mutable) matches Ok(a) ==> a.target() == view && can_take(
                m,
                a.holds(),
            ) && a.live(taken(m, a.holds())),
    ;

    /// What loads alone holds a borrow exactly where it exposes data. Beside other borrows
    /// it is refused where they conflict, and loads just the same where they do not.
    proof fn lemma_loaded_beside(m: Memory, k: Multiset<Hold>, view: AccountView, mutable: bool)
        requires
            view.slot < m.len(),
            can_take(m, k),
        ensures
            Self::loaded(m, view, mutable) matches Ok(a) ==> {
                let n = taken(m, k);
                &&& a.holds() == if Self::keeps_data() {
                    data_hold(view, mutable)
                } else {
                    Multiset::empty()
                }
                &&& !can_take(n, a.holds()) ==> Self::loaded(n, view, mutable) == Err::<
                    Self,
                    ProgramError,
                >(ProgramError::AccountBorrowFailed)
                &&& can_take(n, a.holds()) && Self::ignores_borrows() ==> Self::loaded(
                    n,
                    view,
                    mutable,
                ) == Ok::<Self, ProgramError>(a)
            },
    ;

    /// Writing back resizes no account and keeps the wrapper usable; its borrows stay as
    /// they are or are given back.
    proof fn lemma_exited(&self, m: Memory)
        requires
            self.live(m),
            held(m, self.holds()),
        ensures
            same_shape(m, self.exited(m).memory),
            self.exited(m).account.live(self.exited(m).memory),
            keeps_or_frees(
                m,
                self.holds(),
                self.exited(m).memory,
                self.exited(m).account.holds(),
            ),
    ;
}

/// A typed wrapper around one account.
pub trait AnchorAccount: Wrapper + Release {
    /// Loads an account for reading.
    fn load(memory: &mut AccountMemory, view: AccountView) -> (r: Result<Self, ProgramError>)
        requires
            view.slot < old(memory)@.len(),
        ensures
            r == Self::loaded(old(memory)@, view, false),
            final(memory)@ == match r {
                Ok(a) => taken(old(memory)@, a.holds()),
                Err(_) => old(memory)@,
            },
    ;

    /// Loads an account for reading and writing.
    fn load_mut(memory: &mut AccountMemory, view: AccountView) -> (r: Result<Self, ProgramError>)
        requires
            view.slot < old(memory)@.len(),
        ensures
            r == Self::loaded(old(memory)@, view, true),
            final(memory)@ == match r {
                Ok(a) => taken(old(memory)@, a.holds()),
                Err(_) => old(memory)@,
            },
    ;

    /// The account that is wrapped.
    fn account(&self) -> (view: AccountView)
        ensures
            view == self.target(),
    ;

    /// Writes back what the wrapper keeps in memory.
    fn exit(&mut self, memory: &mut AccountMemory) -> (r: Result<(), ProgramError>)
        requires
            old(self).live(old(memory)@),
            held(old(memory)@, old(self).holds()),
        ensures
            r == old(self).exited(old(memory)@).result,
            *final(self) == old(self).exited(old(memory)@).account,
            final(memory)@ == old(self).exited(old(memory)@).memory,
    ;
}

/// The address of the wrapped account.
pub fn address<A: AnchorAccount>(account: &A, memory: &AccountMemory) -> (address: Address)
    requires
        account.target().slot < memory@.len(),
    ensures
        address@ == memory@[account.target().slot as int].address,
{
    account.account().address(memory)
}

/// Refuses an account that the instruction may not write.
pub(crate) fn check_writable(memory: &AccountMemory, view: AccountView) -> (r: Result<
    (),
    ProgramError,
>)
    requires
        view.slot < memory@.len(),
    ensures
        r == if memory@[view.slot as int].is_writable {
            Ok::<(), ProgramError>(())
        } else {
            Err(ErrorCode::ConstraintMut.program_error())
        },
{
    if view.is_writable(memory) {
        Ok(())
    } else {
        Err(ErrorCode::ConstraintMut.into())
    }
}

} // verus!
