//! What a view tells of its account, and borrows of the account's data.

use crate::address::Address;
use crate::memory::{
    can_take, exclusive_hold, lemma_exclusive_hold, lemma_shared_hold, lemma_single_in_range,
    shared_hold, taken, AccountMemory, AccountView, Held, Hold, Memory, Release, NOT_BORROWED,
};
use solana_program_error::ProgramError;
use vstd::multiset::Multiset;
use vstd::prelude::*;

verus! {

impl AccountView {
    pub fn address(&self, memory: &AccountMemory) -> (address: Address)
        requires
            self.slot < memory@.len(),
        ensures
            address@ == memory@[self.slot as int].address,
    {
        memory.account(*self).address
    }

    /// The address, under its customary name.
    pub fn key(&self, memory: &AccountMemory) -> (address: Address)
        requires
            self.slot < memory@.len(),
        ensures
            address@ == memory@[self.slot as int].address,
    {
        self.address(memory)
    }

    pub fn owner(&self, memory: &AccountMemory) -> (owner: Address)
        requires
            self.slot < memory@.len(),
        ensures
            owner@ == memory@[self.slot as int].owner,
    {
        memory.account(*self).owner
    }

    pub fn owned_by(&self, memory: &AccountMemory, program: &Address) -> (owned: bool)
        requires
            self.slot < memory@.len(),
        ensures
            owned == (memory@[self.slot as int].owner == program@),
    {
        memory.account(*self).owner.same_as(program)
    }

    pub fn is_signer(&self, memory: &AccountMemory) -> (yes: bool)
        requires
            self.slot < memory@.len(),
        ensures
            yes == memory@[self.slot as int].is_signer,
    {
        memory.account(*self).is_signer
    }

    pub fn is_writable(&self, memory: &AccountMemory) -> (yes: bool)
        requires
            self.slot < memory@.len(),
        ensures
            yes == memory@[self.slot as int].is_writable,
    {
        memory.account(*self).is_writable
    }

    pub fn executable(&self, memory: &AccountMemory) -> (yes: bool)
        requires
            self.slot < memory@.len(),
        ensures
            yes == memory@[self.slot as int].executable,
    {
        memory.account(*self).executable
    }

    pub fn lamports(&self, memory: &AccountMemory) -> (lamports: u64)
        requires
            self.slot < memory@.len(),
        ensures
            lamports == memory@[self.slot as int].lamports,
    {
        memory.account(*self).lamports
    }

    pub fn data_len(&self, memory: &AccountMemory) -> (n: usize)
        requires
            self.slot < memory@.len(),
        ensures
            n == memory@[self.slot as int].data.len(),
    {
        memory.account(*self).data.len()
    }

    /// The data length; it can always be told.
    pub fn try_data_len(&self, memory: &AccountMemory) -> (n: Result<usize, ProgramError>)
        requires
            self.slot < memory@.len(),
        ensures
            n matches Ok(len) && len == memory@[self.slot as int].data.len(),
    {
        Ok(self.data_len(memory))
    }

    pub fn data_is_empty(&self, memory: &AccountMemory) -> (yes: bool)
        requires
            self.slot < memory@.len(),
        ensures
            yes == (memory@[self.slot as int].data.len() == 0),
    {
        self.data_len(memory) == 0
    }

    /// Whether anybody borrows the data.
    pub fn is_borrowed(&self, memory: &AccountMemory) -> (yes: bool)
        requires
            self.slot < memory@.len(),
        ensures
            yes == (memory@[self.slot as int].borrow_state != NOT_BORROWED),
    {
        memory.account(*self).borrow_state != NOT_BORROWED
    }

    /// Whether a shared borrow would be granted.
    pub fn check_borrow(&self, memory: &AccountMemory) -> (r: Result<(), ProgramError>)
        requires
            self.slot < memory@.len(),
        ensures
            r is Ok <==> can_take(memory@, shared_hold(*self)),
            r matches Err(e) ==> e == ProgramError::AccountBorrowFailed,
    {
        proof {
            lemma_shared_hold(memory@, *self);
        }
        if memory.account(*self).borrow_state < 2 {
            Err(ProgramError::AccountBorrowFailed)
        } else {
            Ok(())
        }
    }

    /// Whether an exclusive borrow would be granted.
    pub fn check_borrow_mut(&self, memory: &AccountMemory) -> (r: Result<(), ProgramError>)
        requires
            self.slot < memory@.len(),
        ensures
            r is Ok <==> can_take(memory@, exclusive_hold(*self)),
            r matches Err(e) ==> e == ProgramError::AccountBorrowFailed,
    {
        proof {
            lemma_exclusive_hold(memory@, *self);
        }
        if self.is_borrowed(memory) {
            Err(ProgramError::AccountBorrowFailed)
        } else {
            Ok(())
        }
    }

    /// Borrows the data, shared with other readers.
    pub fn try_borrow(&self, memory: &mut AccountMemory) -> (r: Result<Ref, ProgramError>)
        requires
            self.slot < old(memory)@.len(),
        ensures
            r is Ok <==> can_take(old(memory)@, shared_hold(*self)),
            match r {
                Ok(guard) => guard.view == *self && final(memory)@ == taken(
                    old(memory)@,
                    shared_hold(*self),
                ),
                Err(e) => e == ProgramError::AccountBorrowFailed && final(memory)@ == old(memory)@,
            },
    {
        match self.check_borrow(memory) {
            Err(e) => Err(e),
            Ok(_) => {
                proof {
                    lemma_shared_hold(memory@, *self);
                }
                let state: u8 = memory.account(*self).borrow_state;
                memory.set_borrow_state(*self, state - 1);
                Ok(Ref { view: *self })
            },
        }
    }

    /// Borrows the data for this borrower alone.
    pub fn try_borrow_mut(&self, memory: &mut AccountMemory) -> (r: Result<RefMut, ProgramError>)
        requires
            self.slot < old(memory)@.len(),
        ensures
            r is Ok <==> can_take(old(memory)@, exclusive_hold(*self)),
            match r {
                Ok(guard) => guard.view == *self && final(memory)@ == taken(
                    old(memory)@,
                    exclusive_hold(*self),
                ),
                Err(e) => e == ProgramError::AccountBorrowFailed && final(memory)@ == old(memory)@,
            },
    {
        match self.check_borrow_mut(memory) {
            Err(e) => Err(e),
            Ok(_) => {
                proof {
                    lemma_exclusive_hold(memory@, *self);
                }
                memory.set_borrow_state(*self, 0);
                Ok(RefMut { view: *self })
            },
        }
    }

    /// [`Self::try_borrow`], under its customary name.
    pub fn try_borrow_data(&self, memory: &mut AccountMemory) -> (r: Result<Ref, ProgramError>)
        requires
            self.slot < old(memory)@.len(),
        ensures
            r is Ok <==> can_take(old(memory)@, shared_hold(*self)),
            match r {
                Ok(guard) => guard.view == *self && final(memory)@ == taken(
                    old(memory)@,
                    shared_hold(*self),
                ),
                Err(e) => e == ProgramError::AccountBorrowFailed && final(memory)@ == old(memory)@,
            },
    {
        self.try_borrow(memory)
    }

    /// [`Self::try_borrow_mut`], under its customary name.
    pub fn try_borrow_mut_data(&self, memory: &mut AccountMemory) -> (r: Result<
        RefMut,
        ProgramError,
    >)
        requires
            self.slot < old(memory)@.len(),
        ensures
            r is Ok <==> can_take(old(memory)@, exclusive_hold(*self)),
            match r {
                Ok(guard) => guard.view == *self && final(memory)@ == taken(
                    old(memory)@,
                    exclusive_hold(*self),
                ),
                Err(e) => e == ProgramError::AccountBorrowFailed && final(memory)@ == old(memory)@,
            },
    {
        self.try_borrow_mut(memory)
    }
}

/// A shared borrow of an account's data.
pub struct Ref {
    pub view: AccountView,
}

/// An exclusive borrow of an account's data.
pub struct RefMut {
    pub view: AccountView,
}

impl Ref {
    /// The length of the borrowed data.
    pub fn len(&self, memory: &AccountMemory) -> (n: usize)
        requires
            self.view.slot < memory@.len(),
        ensures
            n == memory@[self.view.slot as int].data.len(),
    {
        self.view.data_len(memory)
    }
}

impl RefMut {
    /// The length of the borrowed data.
    pub fn len(&self, memory: &AccountMemory) -> (n: usize)
        requires
            self.view.slot < memory@.len(),
        ensures
            n == memory@[self.view.slot as int].data.len(),
    {
        self.view.data_len(memory)
    }
}

impl Held for Ref {
    open spec fn holds(&self) -> Multiset<Hold> {
        shared_hold(self.view)
    }

    open spec fn live(&self, m: Memory) -> bool {
        self.view.slot < m.len()
    }

    proof fn lemma_live_stays(&self, m: Memory, n: Memory) {
    }
}

impl Release for Ref {
    fn release(self, memory: &mut AccountMemory) {
        proof {
            lemma_single_in_range(
                Hold { slot: self.view.slot as int, exclusive: false },
                memory@.len(),
            );
            lemma_shared_hold(memory@, self.view);
        }
        let state: u8 = memory.account(self.view).borrow_state;
        memory.set_borrow_state(self.view, state + 1);
    }
}

impl Held for RefMut {
    open spec fn holds(&self) -> Multiset<Hold> {
        exclusive_hold(self.view)
    }

    open spec fn live(&self, m: Memory) -> bool {
        self.view.slot < m.len()
    }

    proof fn lemma_live_stays(&self, m: Memory, n: Memory) {
    }
}

impl Release for RefMut {
    fn release(self, memory: &mut AccountMemory) {
        proof {
            lemma_single_in_range(
                Hold { slot: self.view.slot as int, exclusive: true },
                memory@.len(),
            );
            lemma_exclusive_hold(memory@, self.view);
        }
        memory.set_borrow_state(self.view, NOT_BORROWED);
    }
}

} // verus!
