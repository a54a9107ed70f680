//! Programs that an instruction calls.

use crate::accounts::{check_writable, AnchorAccount, Exit, Wrapper};
use crate::address::Address;
use crate::error::ErrorCode;
use crate::memory::{
    lemma_no_holds, taken, AccountMemory, AccountView, Held, Hold, Memory, Release,
};
use solana_program_error::ProgramError;
use std::marker::PhantomData;
use vstd::multiset::Multiset;
use vstd::prelude::*;

verus! {

/// A program with a known address.
pub trait Id {
    /// The program's address.
    open spec fn spec_id() -> Seq<u8> {
        Seq::empty()
    }

    /// The program's address.
    fn id() -> (id: Address)
        ensures
            id@ == Self::spec_id(),
    ;
}

/// The address of the System program: all zeros.
pub open spec fn system_program_id() -> Seq<u8> {
    Seq::new(32, |i: int| 0u8)
}

/// The System program.
pub struct System;

impl Id for System {
    open spec fn spec_id() -> Seq<u8> {
        system_program_id()
    }

    fn id() -> (id: Address) {
        let id = Address {
            bytes: [
                0, 0, 0, 0, 0, 0, 0, 0, 0, 0, 0, 0, 0, 0, 0, 0, 0, 0, 0, 0, 0, 0, 0, 0, 0, 0, 0, 0,
                0, 0, 0, 0,
            ],
        };
        assert(id@ =~= Self::spec_id());
        id
    }
}

/// The account of the program `T`. It exposes no data and holds no borrow.
pub struct Program<T: Id> {
    pub view: AccountView,
    pub kind: PhantomData<T>,
}

impl<T: Id> Program<T> {
    /// The program's address.
    pub fn address(&self, memory: &AccountMemory) -> (address: Address)
        requires
            self.live(memory@),
        ensures
            address@ == memory@[self.view.slot as int].address,
    {
        self.view.address(memory)
    }
}

impl<T: Id> Held for Program<T> {
    open spec fn holds(&self) -> Multiset<Hold> {
        Multiset::empty()
    }

    open spec fn live(&self, m: Memory) -> bool {
        self.view.slot < m.len()
    }

    proof fn lemma_live_stays(&self, m: Memory, n: Memory) {
    }
}

impl<T: Id> Release for Program<T> {
    fn release(self, memory: &mut AccountMemory) {
        proof {
            lemma_no_holds(memory@);
        }
    }
}

impl<T: Id> Wrapper for Program<T> {
    open spec fn target(&self) -> AccountView {
        self.view
    }

    open spec fn loaded(m: Memory, view: AccountView, mutable: bool) -> Result<Self, ProgramError> {
        if mutable && !m[view.slot as int].is_writable {
            Err(ErrorCode::ConstraintMut.program_error())
        } else if m[view.slot as int].address != T::spec_id() {
            Err(ProgramError::IncorrectProgramId)
        } else if !m[view.slot as int].executable {
            Err(ErrorCode::ConstraintExecutable.program_error())
        } else {
            Ok(Program { view, kind: PhantomData })
        }
    }

    open spec fn exited(&self, m: Memory) -> Exit<Self> {
        Exit { result: Ok(()), account: *self, memory: m }
    }

    open spec fn keeps_data() -> bool {
        false
    }

    open spec fn ignores_borrows() -> bool {
        true
    }

    proof fn lemma_loaded(m: Memory, view: AccountView, mutable: bool) {
        lemma_no_holds(m);
    }

    proof fn lemma_loaded_beside(m: Memory, k: Multiset<Hold>, view: AccountView, mutable: bool) {
        lemma_no_holds(taken(m, k));
    }

    proof fn lemma_exited(&self, m: Memory) {
    }
}

impl<T: Id> AnchorAccount for Program<T> {
    fn load(memory: &mut AccountMemory, view: AccountView) -> (r: Result<Self, ProgramError>) {
        proof {
            lemma_no_holds(memory@);
        }
        if !view.address(memory).same_as(&T::id()) {
            return Err(ProgramError::IncorrectProgramId);
        }
        if !view.executable(memory) {
            return Err(ErrorCode::ConstraintExecutable.into());
        }
        Ok(Program { view, kind: PhantomData })
    }

    fn load_mut(memory: &mut AccountMemory, view: AccountView) -> (r: Result<Self, ProgramError>) {
        match check_writable(memory, view) {
            Ok(_) => Self::load(memory, view),
            Err(e) => Err(e),
        }
    }

    fn account(&self) -> (view: AccountView) {
        self.view
    }

    fn exit(&mut self, memory: &mut AccountMemory) -> (r: Result<(), ProgramError>) {
        Ok(())
    }
}

} // verus!
