//! An account that is taken as it is.

use crate::accounts::{check_writable, AnchorAccount, Exit, Wrapper};
use crate::address::Address;
use crate::error::ErrorCode;
use crate::memory::{
    lemma_no_holds, taken, AccountMemory, AccountView, Held, Hold, Memory, Release,
};
use crate::system_program::CpiHandle;
use solana_program_error::ProgramError;
use vstd::multiset::Multiset;
use vstd::prelude::*;

verus! {

/// An account that nothing is known of. It exposes no data and holds no borrow; raw
/// borrows through its view honor the borrows of others.
#[derive(Clone, Copy, Debug, PartialEq, Eq, Structural)]
pub struct UncheckedAccount {
    pub view: AccountView,
}

impl UncheckedAccount {
    /// The account's address.
    pub fn address(&self, memory: &AccountMemory) -> (address: Address)
        requires
            self.live(memory@),
        ensures
            address@ == memory@[self.view.slot as int].address,
    {
        self.view.address(memory)
    }

    /// The account, to be handed to another program. There is no borrow to release.
    pub fn cpi_handle_mut(&mut self) -> (handle: CpiHandle)
        ensures
            handle.view == old(self).view,
            *final(self) == *old(self),
    {
        CpiHandle { view: self.view }
    }
}

impl Held for UncheckedAccount {
    open spec fn holds(&self) -> Multiset<Hold> {
        Multiset::empty()
    }

    open spec fn live(&self, m: Memory) -> bool {
        self.view.slot < m.len()
    }

    proof fn lemma_live_stays(&self, m: Memory, n: Memory) {
    }
}

impl Release for UncheckedAccount {
    fn release(self, memory: &mut AccountMemory) {
        proof {
            lemma_no_holds(memory@);
        }
    }
}

impl Wrapper for UncheckedAccount {
    open spec fn target(&self) -> AccountView {
        self.view
    }

    open spec fn loaded(m: Memory, view: AccountView, mutable: bool) -> Result<Self, ProgramError> {
        if mutable && !m[view.slot as int].is_writable {
            Err(ErrorCode::ConstraintMut.program_error())
        } else {
            Ok(UncheckedAccount { view })
        }
    }

    open spec fn exited(&self, m: Memory) -> Exit<Self> {
        Exit { result: Ok(()), account: *self, memory: m }
    }

    open spec fn keeps_data() -> bool {
        false
    }

    open spec fn ignores_borrows() -> bool {
        true
    }

    proof fn lemma_loaded(m: Memory, view: AccountView, mutable: bool) {
        lemma_no_holds(m);
    }

    proof fn lemma_loaded_beside(m: Memory, k: Multiset<Hold>, view: AccountView, mutable: bool) {
        lemma_no_holds(taken(m, k));
    }

    proof fn lemma_exited(&self, m: Memory) {
    }
}

impl AnchorAccount for UncheckedAccount {
    fn load(memory: &mut AccountMemory, view: AccountView) -> (r: Result<Self, ProgramError>) {
        proof {
            lemma_no_holds(memory@);
        }
        Ok(UncheckedAccount { view })
    }

    fn load_mut(memory: &mut AccountMemory, view: AccountView) -> (r: Result<Self, ProgramError>) {
        match check_writable(memory, view) {
            Ok(_) => Self::load(memory, view),
            Err(e) => Err(e),
        }
    }

    fn account(&self) -> (view: AccountView) {
        self.view
    }

    fn exit(&mut self, memory: &mut AccountMemory) -> (r: Result<(), ProgramError>) {
        Ok(())
    }
}

} // verus!
