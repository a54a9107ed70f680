//! The declared accounts of the program's instructions.

use crate::accounts::compose::{
    exit_pair, load_account, load_next, load_optional, load_pair, load_triple, next_loaded,
    optional_loaded, pair_exited, pair_loaded, triple_loaded,
};
use crate::accounts::nested::Nested;
use crate::accounts::program::{Program, System};
use crate::accounts::serialized::BorshAccount;
use crate::accounts::signer::Signer;
use crate::accounts::slab::Account;
use crate::accounts::system_account::SystemAccount;
use crate::accounts::unchecked_account::UncheckedAccount;
use crate::accounts::Wrapper;
use crate::address::Address;
use crate::context::Bumps;
use crate::dispatch::{loaded_as, TryAccounts};
use crate::dup_mut::state::{BorshData, Data};
use crate::memory::{
    law_borrow_undoes_release, law_release_undoes_borrow, lemma_take_both, taken, AccountMemory,
    AccountView, Held, Hold, Memory, Release,
};
use solana_program_error::ProgramError;
use vstd::multiset::Multiset;
use vstd::prelude::*;
use vstd::slice::slice_subrange;

verus! {

/// Two accounts to write.
pub struct TouchTwoMut {
    pub data_a: Account<Data>,
    pub data_b: Account<Data>,
}

impl TouchTwoMut {
    /// What loading gives.
    pub open spec fn loaded(m: Memory, views: Seq<AccountView>) -> Result<Self, ProgramError> {
        match pair_loaded::<Account<Data>, Account<Data>>(
            m,
            (views[0], true),
            (views[1], true),
        ) {
            Ok((data_a, data_b)) => Ok(TouchTwoMut { data_a, data_b }),
            Err(e) => Err(e),
        }
    }
}

impl Bumps for TouchTwoMut {
    type Bumps = ();
}

impl Held for TouchTwoMut {
    open spec fn holds(&self) -> Multiset<Hold> {
        self.data_a.holds().add(self.data_b.holds())
    }

    open spec fn live(&self, m: Memory) -> bool {
        &&& self.data_a.live(m)
        &&& self.data_a.mutable
        &&& self.data_b.live(m)
        &&& self.data_b.mutable
    }

    proof fn lemma_live_stays(&self, m: Memory, n: Memory) {
        self.data_a.lemma_live_stays(m, n);
        self.data_b.lemma_live_stays(m, n);
    }
}

impl Release for TouchTwoMut {
    fn release(self, memory: &mut AccountMemory) {
        (self.data_a, self.data_b).release(memory);
    }
}

impl TryAccounts for TouchTwoMut {
    const HEADER_SIZE: usize = 2;

    type IxArgs<'ix> = ();

    fn try_accounts<'ix>(
        program_id: &Address,
        memory: &mut AccountMemory,
        views: &[AccountView],
        ix_data: &'ix [u8],
    ) -> (r: Result<(Self, (), ()), ProgramError>)
        ensures
            loaded_as(old(memory)@, Self::loaded(old(memory)@, views@), r, final(memory)@),
            r matches Ok(loaded) ==> loaded.0.data_a.view == views@[0] && loaded.0.data_b.view
                == views@[1],
    {
        match load_pair::<Account<Data>, Account<Data>>(
            memory,
            (views[0], true),
            (views[1], true),
        ) {
            Ok((data_a, data_b)) => Ok((TouchTwoMut { data_a, data_b }, (), ())),
            Err(e) => Err(e),
        }
    }

    fn update_accounts(&mut self, memory: &mut AccountMemory) -> (r: Result<(), ProgramError>)
        ensures
            r == Ok::<(), ProgramError>(()),
            *final(self) == *old(self),
            final(memory)@ == old(memory)@,
    {
        Ok(())
    }

    /// The accounts are written in place; nothing is left to write.
    fn exit_accounts<'ix>(&mut self, memory: &mut AccountMemory, ix_data: &'ix [u8]) -> (r: Result<
        (),
        ProgramError,
    >)
        ensures
            r == Ok::<(), ProgramError>(()),
            *final(self) == *old(self),
            final(memory)@ == old(memory)@,
    {
        Ok(())
    }
}

/// Three accounts to write.
pub struct TouchThreeMut {
    pub data_a: Account<Data>,
    pub data_b: Account<Data>,
    pub data_c: Account<Data>,
}

impl TouchThreeMut {
    /// What loading gives.
    pub open spec fn loaded(m: Memory, views: Seq<AccountView>) -> Result<Self, ProgramError> {
        match triple_loaded::<Account<Data>, Account<Data>, Account<Data>>(
            m,
            (views[0], true),
            (views[1], true),
            (views[2], true),
        ) {
            Ok(((data_a, data_b), data_c)) => Ok(TouchThreeMut { data_a, data_b, data_c }),
            Err(e) => Err(e),
        }
    }
}

impl Bumps for TouchThreeMut {
    type Bumps = ();
}

impl Held for TouchThreeMut {
    open spec fn holds(&self) -> Multiset<Hold> {
        self.data_a.holds().add(self.data_b.holds()).add(self.data_c.holds())
    }

    open spec fn live(&self, m: Memory) -> bool {
        &&& self.data_a.live(m)
        &&& self.data_a.mutable
        &&& self.data_b.live(m)
        &&& self.data_b.mutable
        &&& self.data_c.live(m)
        &&& self.data_c.mutable
    }

    proof fn lemma_live_stays(&self, m: Memory, n: Memory) {
        self.data_a.lemma_live_stays(m, n);
        self.data_b.lemma_live_stays(m, n);
        self.data_c.lemma_live_stays(m, n);
    }
}

impl Release for TouchThreeMut {
    fn release(self, memory: &mut AccountMemory) {
        ((self.data_a, self.data_b), self.data_c).release(memory);
    }
}

impl TryAccounts for TouchThreeMut {
    const HEADER_SIZE: usize = 3;

    type IxArgs<'ix> = ();

    fn try_accounts<'ix>(
        program_id: &Address,
        memory: &mut AccountMemory,
        views: &[AccountView],
        ix_data: &'ix [u8],
    ) -> (r: Result<(Self, (), ()), ProgramError>)
        ensures
            loaded_as(old(memory)@, Self::loaded(old(memory)@, views@), r, final(memory)@),
            r matches Ok(loaded) ==> loaded.0.data_a.view == views@[0] && loaded.0.data_b.view
                == views@[1] && loaded.0.data_c.view == views@[2],
    {
        match load_triple::<Account<Data>, Account<Data>, Account<Data>>(
            memory,
            (views[0], true),
            (views[1], true),
            (views[2], true),
        ) {
            Ok(((data_a, data_b), data_c)) => {
                Ok((TouchThreeMut { data_a, data_b, data_c }, (), ()))
            },
            Err(e) => Err(e),
        }
    }

    fn update_accounts(&mut self, memory: &mut AccountMemory) -> (r: Result<(), ProgramError>)
        ensures
            r == Ok::<(), ProgramError>(()),
            *final(self) == *old(self),
            final(memory)@ == old(memory)@,
    {
        Ok(())
    }

    /// The accounts are written in place; nothing is left to write.
    fn exit_accounts<'ix>(&mut self, memory: &mut AccountMemory, ix_data: &'ix [u8]) -> (r: Result<
        (),
        ProgramError,
    >)
        ensures
            r == Ok::<(), ProgramError>(()),
            *final(self) == *old(self),
            final(memory)@ == old(memory)@,
    {
        Ok(())
    }
}

/// An account to write and one to read.
pub struct TouchMutAndReadonly {
    pub data_a: Account<Data>,
    pub data_b: Account<Data>,
}

impl TouchMutAndReadonly {
    /// What loading gives.
    pub open spec fn loaded(m: Memory, views: Seq<AccountView>) -> Result<Self, ProgramError> {
        match pair_loaded::<Account<Data>, Account<Data>>(
            m,
            (views[0], true),
            (views[1], false),
        ) {
            Ok((data_a, data_b)) => Ok(TouchMutAndReadonly { data_a, data_b }),
            Err(e) => Err(e),
        }
    }
}

impl Bumps for TouchMutAndReadonly {
    type Bumps = ();
}

impl Held for TouchMutAndReadonly {
    open spec fn holds(&self) -> Multiset<Hold> {
        self.data_a.holds().add(self.data_b.holds())
    }

    open spec fn live(&self, m: Memory) -> bool {
        &&& self.data_a.live(m)
        &&& self.data_a.mutable
        &&& self.data_b.live(m)
    }

    proof fn lemma_live_stays(&self, m: Memory, n: Memory) {
        self.data_a.lemma_live_stays(m, n);
        self.data_b.lemma_live_stays(m, n);
    }
}

impl Release for TouchMutAndReadonly {
    fn release(self, memory: &mut AccountMemory) {
        (self.data_a, self.data_b).release(memory);
    }
}

impl TryAccounts for TouchMutAndReadonly {
    const HEADER_SIZE: usize = 2;

    type IxArgs<'ix> = ();

    fn try_accounts<'ix>(
        program_id: &Address,
        memory: &mut AccountMemory,
        views: &[AccountView],
        ix_data: &'ix [u8],
    ) -> (r: Result<(Self, (), ()), ProgramError>)
        ensures
            loaded_as(old(memory)@, Self::loaded(old(memory)@, views@), r, final(memory)@),
            r matches Ok(loaded) ==> loaded.0.data_a.view == views@[0] && loaded.0.data_b.view
                == views@[1],
    {
        match load_pair::<Account<Data>, Account<Data>>(
            memory,
            (views[0], true),
            (views[1], false),
        ) {
            Ok((data_a, data_b)) => Ok((TouchMutAndReadonly { data_a, data_b }, (), ())),
            Err(e) => Err(e),
        }
    }

    fn update_accounts(&mut self, memory: &mut AccountMemory) -> (r: Result<(), ProgramError>)
        ensures
            r == Ok::<(), ProgramError>(()),
            *final(self) == *old(self),
            final(memory)@ == old(memory)@,
    {
        Ok(())
    }

    /// The accounts are written in place; nothing is left to write.
    fn exit_accounts<'ix>(&mut self, memory: &mut AccountMemory, ix_data: &'ix [u8]) -> (r: Result<
        (),
        ProgramError,
    >)
        ensures
            r == Ok::<(), ProgramError>(()),
            *final(self) == *old(self),
            final(memory)@ == old(memory)@,
    {
        Ok(())
    }
}

/// An account to read and one to write.
pub struct TouchReadonlyAndMut {
    pub data_a: Account<Data>,
    pub data_b: Account<Data>,
}

impl TouchReadonlyAndMut {
    /// What loading gives.
    pub open spec fn loaded(m: Memory, views: Seq<AccountView>) -> Result<Self, ProgramError> {
        match pair_loaded::<Account<Data>, Account<Data>>(
            m,
            (views[0], false),
            (views[1], true),
        ) {
            Ok((data_a, data_b)) => Ok(TouchReadonlyAndMut { data_a, data_b }),
            Err(e) => Err(e),
        }
    }
}

impl Bumps for TouchReadonlyAndMut {
    type Bumps = ();
}

impl Held for TouchReadonlyAndMut {
    open spec fn holds(&self) -> Multiset<Hold> {
        self.data_a.holds().add(self.data_b.holds())
    }

    open spec fn live(&self, m: Memory) -> bool {
        &&& self.data_a.live(m)
        &&& self.data_b.live(m)
        &&& self.data_b.mutable
    }

    proof fn lemma_live_stays(&self, m: Memory, n: Memory) {
        self.data_a.lemma_live_stays(m, n);
        self.data_b.lemma_live_stays(m, n);
    }
}

impl Release for TouchReadonlyAndMut {
    fn release(self, memory: &mut AccountMemory) {
        (self.data_a, self.data_b).release(memory);
    }
}

impl TryAccounts for TouchReadonlyAndMut {
    const HEADER_SIZE: usize = 2;

    type IxArgs<'ix> = ();

    fn try_accounts<'ix>(
        program_id: &Address,
        memory: &mut AccountMemory,
        views: &[AccountView],
        ix_data: &'ix [u8],
    ) -> (r: Result<(Self, (), ()), ProgramError>)
        ensures
            loaded_as(old(memory)@, Self::loaded(old(memory)@, views@), r, final(memory)@),
            r matches Ok(loaded) ==> loaded.0.data_a.view == views@[0] && loaded.0.data_b.view
                == views@[1],
    {
        match load_pair::<Account<Data>, Account<Data>>(
            memory,
            (views[0], false),
            (views[1], true),
        ) {
            Ok((data_a, data_b)) => Ok((TouchReadonlyAndMut { data_a, data_b }, (), ())),
            Err(e) => Err(e),
        }
    }

    fn update_accounts(&mut self, memory: &mut AccountMemory) -> (r: Result<(), ProgramError>)
        ensures
            r == Ok::<(), ProgramError>(()),
            *final(self) == *old(self),
            final(memory)@ == old(memory)@,
    {
        Ok(())
    }

    /// The accounts are written in place; nothing is left to write.
    fn exit_accounts<'ix>(&mut self, memory: &mut AccountMemory, ix_data: &'ix [u8]) -> (r: Result<
        (),
        ProgramError,
    >)
        ensures
            r == Ok::<(), ProgramError>(()),
            *final(self) == *old(self),
            final(memory)@ == old(memory)@,
    {
        Ok(())
    }
}

/// Two accounts to read.
pub struct ReadTwo {
    pub data_a: Account<Data>,
    pub data_b: Account<Data>,
}

impl ReadTwo {
    /// What loading gives.
    pub open spec fn loaded(m: Memory, views: Seq<AccountView>) -> Result<Self, ProgramError> {
        match pair_loaded::<Account<Data>, Account<Data>>(
            m,
            (views[0], false),
            (views[1], false),
        ) {
            Ok((data_a, data_b)) => Ok(ReadTwo { data_a, data_b }),
            Err(e) => Err(e),
        }
    }
}

impl Bumps for ReadTwo {
    type Bumps = ();
}

impl Held for ReadTwo {
    open spec fn holds(&self) -> Multiset<Hold> {
        self.data_a.holds().add(self.data_b.holds())
    }

    open spec fn live(&self, m: Memory) -> bool {
        &&& self.data_a.live(m)
        &&& self.data_b.live(m)
    }

    proof fn lemma_live_stays(&self, m: Memory, n: Memory) {
        self.data_a.lemma_live_stays(m, n);
        self.data_b.lemma_live_stays(m, n);
    }
}

impl Release for ReadTwo {
    fn release(self, memory: &mut AccountMemory) {
        (self.data_a, self.data_b).release(memory);
    }
}

impl TryAccounts for ReadTwo {
    const HEADER_SIZE: usize = 2;

    type IxArgs<'ix> = ();

    fn try_accounts<'ix>(
        program_id: &Address,
        memory: &mut AccountMemory,
        views: &[AccountView],
        ix_data: &'ix [u8],
    ) -> (r: Result<(Self, (), ()), ProgramError>)
        ensures
            loaded_as(old(memory)@, Self::loaded(old(memory)@, views@), r, final(memory)@),
            r matches Ok(loaded) ==> loaded.0.data_a.view == views@[0] && loaded.0.data_b.view
                == views@[1],
    {
        match load_pair::<Account<Data>, Account<Data>>(
            memory,
            (views[0], false),
            (views[1], false),
        ) {
            Ok((data_a, data_b)) => Ok((ReadTwo { data_a, data_b }, (), ())),
            Err(e) => Err(e),
        }
    }

    fn update_accounts(&mut self, memory: &mut AccountMemory) -> (r: Result<(), ProgramError>)
        ensures
            r == Ok::<(), ProgramError>(()),
            *final(self) == *old(self),
            final(memory)@ == old(memory)@,
    {
        Ok(())
    }

    /// The accounts are written in place; nothing is left to write.
    fn exit_accounts<'ix>(&mut self, memory: &mut AccountMemory, ix_data: &'ix [u8]) -> (r: Result<
        (),
        ProgramError,
    >)
        ensures
            r == Ok::<(), ProgramError>(()),
            *final(self) == *old(self),
            final(memory)@ == old(memory)@,
    {
        Ok(())
    }
}

/// An account to write and one to read, in the Borsh format.
pub struct TouchBorshMutAndReadonly {
    pub data_a: BorshAccount<BorshData>,
    pub data_b: BorshAccount<BorshData>,
}

impl TouchBorshMutAndReadonly {
    /// What loading gives.
    pub open spec fn loaded(m: Memory, views: Seq<AccountView>) -> Result<Self, ProgramError> {
        match pair_loaded::<BorshAccount<BorshData>, BorshAccount<BorshData>>(
            m,
            (views[0], true),
            (views[1], false),
        ) {
            Ok((data_a, data_b)) => Ok(TouchBorshMutAndReadonly { data_a, data_b }),
            Err(e) => Err(e),
        }
    }
}

impl Bumps for TouchBorshMutAndReadonly {
    type Bumps = ();
}

impl Held for TouchBorshMutAndReadonly {
    open spec fn holds(&self) -> Multiset<Hold> {
        self.data_a.holds().add(self.data_b.holds())
    }

    open spec fn live(&self, m: Memory) -> bool {
        &&& self.data_a.live(m)
        &&& self.data_a.mutable
        &&& self.data_b.live(m)
    }

    proof fn lemma_live_stays(&self, m: Memory, n: Memory) {
        self.data_a.lemma_live_stays(m, n);
        self.data_b.lemma_live_stays(m, n);
    }
}

impl Release for TouchBorshMutAndReadonly {
    fn release(self, memory: &mut AccountMemory) {
        (self.data_a, self.data_b).release(memory);
    }
}

impl TryAccounts for TouchBorshMutAndReadonly {
    const HEADER_SIZE: usize = 2;

    type IxArgs<'ix> = ();

    fn try_accounts<'ix>(
        program_id: &Address,
        memory: &mut AccountMemory,
        views: &[AccountView],
        ix_data: &'ix [u8],
    ) -> (r: Result<(Self, (), ()), ProgramError>)
        ensures
            loaded_as(old(memory)@, Self::loaded(old(memory)@, views@), r, final(memory)@),
            r matches Ok(loaded) ==> loaded.0.data_a.view == views@[0] && loaded.0.data_b.view
                == views@[1],
    {
        match load_pair::<BorshAccount<BorshData>, BorshAccount<BorshData>>(
            memory,
            (views[0], true),
            (views[1], false),
        ) {
            Ok((data_a, data_b)) => Ok((TouchBorshMutAndReadonly { data_a, data_b }, (), ())),
            Err(e) => Err(e),
        }
    }

    fn update_accounts(&mut self, memory: &mut AccountMemory) -> (r: Result<(), ProgramError>)
        ensures
            r == Ok::<(), ProgramError>(()),
            *final(self) == *old(self),
            final(memory)@ == old(memory)@,
    {
        Ok(())
    }

    /// Writes the first account back, then the second.
    fn exit_accounts<'ix>(&mut self, memory: &mut AccountMemory, ix_data: &'ix [u8]) -> (r: Result<
        (),
        ProgramError,
    >)
        ensures
            ({
                let exit = pair_exited(old(self).data_a, old(self).data_b, old(memory)@);
                &&& r == exit.result
                &&& final(self).data_a == exit.account.0
                &&& final(self).data_b == exit.account.1
                &&& final(memory)@ == exit.memory
            }),
    {
        exit_pair(&mut self.data_a, &mut self.data_b, memory)
    }
}

/// A boxed account to write and one to read.
pub struct TouchBoxedMutAndReadonly {
    pub data_a: Box<Account<Data>>,
    pub data_b: Account<Data>,
}

impl TouchBoxedMutAndReadonly {
    /// What loading gives.
    pub open spec fn loaded(m: Memory, views: Seq<AccountView>) -> Result<Self, ProgramError> {
        match pair_loaded::<Box<Account<Data>>, Account<Data>>(
            m,
            (views[0], true),
            (views[1], false),
        ) {
            Ok((data_a, data_b)) => Ok(TouchBoxedMutAndReadonly { data_a, data_b }),
            Err(e) => Err(e),
        }
    }
}

impl Bumps for TouchBoxedMutAndReadonly {
    type Bumps = ();
}

impl Held for TouchBoxedMutAndReadonly {
    open spec fn holds(&self) -> Multiset<Hold> {
        self.data_a.holds().add(self.data_b.holds())
    }

    open spec fn live(&self, m: Memory) -> bool {
        &&& self.data_a.live(m)
        &&& self.data_a.mutable
        &&& self.data_b.live(m)
    }

    proof fn lemma_live_stays(&self, m: Memory, n: Memory) {
        self.data_a.lemma_live_stays(m, n);
        self.data_b.lemma_live_stays(m, n);
    }
}

impl Release for TouchBoxedMutAndReadonly {
    fn release(self, memory: &mut AccountMemory) {
        (self.data_a, self.data_b).release(memory);
    }
}

impl TryAccounts for TouchBoxedMutAndReadonly {
    const HEADER_SIZE: usize = 2;

    type IxArgs<'ix> = ();

    fn try_accounts<'ix>(
        program_id: &Address,
        memory: &mut AccountMemory,
        views: &[AccountView],
        ix_data: &'ix [u8],
    ) -> (r: Result<(Self, (), ()), ProgramError>)
        ensures
            loaded_as(old(memory)@, Self::loaded(old(memory)@, views@), r, final(memory)@),
            r matches Ok(loaded) ==> loaded.0.data_a.view == views@[0] && loaded.0.data_b.view
                == views@[1],
    {
        match load_pair::<Box<Account<Data>>, Account<Data>>(
            memory,
            (views[0], true),
            (views[1], false),
        ) {
            Ok((data_a, data_b)) => Ok((TouchBoxedMutAndReadonly { data_a, data_b }, (), ())),
            Err(e) => Err(e),
        }
    }

    fn update_accounts(&mut self, memory: &mut AccountMemory) -> (r: Result<(), ProgramError>)
        ensures
            r == Ok::<(), ProgramError>(()),
            *final(self) == *old(self),
            final(memory)@ == old(memory)@,
    {
        Ok(())
    }

    /// The accounts are written in place; nothing is left to write.
    fn exit_accounts<'ix>(&mut self, memory: &mut AccountMemory, ix_data: &'ix [u8]) -> (r: Result<
        (),
        ProgramError,
    >)
        ensures
            r == Ok::<(), ProgramError>(()),
            *final(self) == *old(self),
            final(memory)@ == old(memory)@,
    {
        Ok(())
    }
}

/// Two accounts to write, for other structs to nest.
pub struct InnerTwoMut {
    pub data_a: Account<Data>,
    pub data_b: Account<Data>,
}

impl InnerTwoMut {
    /// What loading gives.
    pub open spec fn loaded(m: Memory, views: Seq<AccountView>) -> Result<Self, ProgramError> {
        match pair_loaded::<Account<Data>, Account<Data>>(
            m,
            (views[0], true),
            (views[1], true),
        ) {
            Ok((data_a, data_b)) => Ok(InnerTwoMut { data_a, data_b }),
            Err(e) => Err(e),
        }
    }
}

impl Bumps for InnerTwoMut {
    type Bumps = ();
}

impl Held for InnerTwoMut {
    open spec fn holds(&self) -> Multiset<Hold> {
        self.data_a.holds().add(self.data_b.holds())
    }

    open spec fn live(&self, m: Memory) -> bool {
        &&& self.data_a.live(m)
        &&& self.data_a.mutable
        &&& self.data_b.live(m)
        &&& self.data_b.mutable
    }

    proof fn lemma_live_stays(&self, m: Memory, n: Memory) {
        self.data_a.lemma_live_stays(m, n);
        self.data_b.lemma_live_stays(m, n);
    }
}

impl Release for InnerTwoMut {
    fn release(self, memory: &mut AccountMemory) {
        (self.data_a, self.data_b).release(memory);
    }
}

impl TryAccounts for InnerTwoMut {
    const HEADER_SIZE: usize = 2;

    type IxArgs<'ix> = ();

    fn try_accounts<'ix>(
        program_id: &Address,
        memory: &mut AccountMemory,
        views: &[AccountView],
        ix_data: &'ix [u8],
    ) -> (r: Result<(Self, (), ()), ProgramError>)
        ensures
            loaded_as(old(memory)@, Self::loaded(old(memory)@, views@), r, final(memory)@),
            r matches Ok(loaded) ==> loaded.0.data_a.view == views@[0] && loaded.0.data_b.view
                == views@[1],
    {
        match load_pair::<Account<Data>, Account<Data>>(
            memory,
            (views[0], true),
            (views[1], true),
        ) {
            Ok((data_a, data_b)) => Ok((InnerTwoMut { data_a, data_b }, (), ())),
            Err(e) => Err(e),
        }
    }

    fn update_accounts(&mut self, memory: &mut AccountMemory) -> (r: Result<(), ProgramError>)
        ensures
            r == Ok::<(), ProgramError>(()),
            *final(self) == *old(self),
            final(memory)@ == old(memory)@,
    {
        Ok(())
    }

    /// The accounts are written in place; nothing is left to write.
    fn exit_accounts<'ix>(&mut self, memory: &mut AccountMemory, ix_data: &'ix [u8]) -> (r: Result<
        (),
        ProgramError,
    >)
        ensures
            r == Ok::<(), ProgramError>(()),
            *final(self) == *old(self),
            final(memory)@ == old(memory)@,
    {
        Ok(())
    }
}

/// An account to write and one to read, for other structs to nest.
pub struct InnerMutReadonly {
    pub data_a: Account<Data>,
    pub data_b: Account<Data>,
}

impl InnerMutReadonly {
    /// What loading gives.
    pub open spec fn loaded(m: Memory, views: Seq<AccountView>) -> Result<Self, ProgramError> {
        match pair_loaded::<Account<Data>, Account<Data>>(
            m,
            (views[0], true),
            (views[1], false),
        ) {
            Ok((data_a, data_b)) => Ok(InnerMutReadonly { data_a, data_b }),
            Err(e) => Err(e),
        }
    }
}

impl Bumps for InnerMutReadonly {
    type Bumps = ();
}

impl Held for InnerMutReadonly {
    open spec fn holds(&self) -> Multiset<Hold> {
        self.data_a.holds().add(self.data_b.holds())
    }

    open spec fn live(&self, m: Memory) -> bool {
        &&& self.data_a.live(m)
        &&& self.data_a.mutable
        &&& self.data_b.live(m)
    }

    proof fn lemma_live_stays(&self, m: Memory, n: Memory) {
        self.data_a.lemma_live_stays(m, n);
        self.data_b.lemma_live_stays(m, n);
    }
}

impl Release for InnerMutReadonly {
    fn release(self, memory: &mut AccountMemory) {
        (self.data_a, self.data_b).release(memory);
    }
}

impl TryAccounts for InnerMutReadonly {
    const HEADER_SIZE: usize = 2;

    type IxArgs<'ix> = ();

    fn try_accounts<'ix>(
        program_id: &Address,
        memory: &mut AccountMemory,
        views: &[AccountView],
        ix_data: &'ix [u8],
    ) -> (r: Result<(Self, (), ()), ProgramError>)
        ensures
            loaded_as(old(memory)@, Self::loaded(old(memory)@, views@), r, final(memory)@),
            r matches Ok(loaded) ==> loaded.0.data_a.view == views@[0] && loaded.0.data_b.view
                == views@[1],
    {
        match load_pair::<Account<Data>, Account<Data>>(
            memory,
            (views[0], true),
            (views[1], false),
        ) {
            Ok((data_a, data_b)) => Ok((InnerMutReadonly { data_a, data_b }, (), ())),
            Err(e) => Err(e),
        }
    }

    fn update_accounts(&mut self, memory: &mut AccountMemory) -> (r: Result<(), ProgramError>)
        ensures
            r == Ok::<(), ProgramError>(()),
            *final(self) == *old(self),
            final(memory)@ == old(memory)@,
    {
        Ok(())
    }

    /// The accounts are written in place; nothing is left to write.
    fn exit_accounts<'ix>(&mut self, memory: &mut AccountMemory, ix_data: &'ix [u8]) -> (r: Result<
        (),
        ProgramError,
    >)
        ensures
            r == Ok::<(), ProgramError>(()),
            *final(self) == *old(self),
            final(memory)@ == old(memory)@,
    {
        Ok(())
    }
}

/// Two signers.
pub struct SignerRoles {
    pub payer: Signer,
    pub authority: Signer,
}

impl SignerRoles {
    /// What loading gives.
    pub open spec fn loaded(m: Memory, views: Seq<AccountView>) -> Result<Self, ProgramError> {
        match pair_loaded::<Signer, Signer>(
            m,
            (views[0], true),
            (views[1], false),
        ) {
            Ok((payer, authority)) => Ok(SignerRoles { payer, authority }),
            Err(e) => Err(e),
        }
    }
}

impl Bumps for SignerRoles {
    type Bumps = ();
}

impl Held for SignerRoles {
    open spec fn holds(&self) -> Multiset<Hold> {
        self.payer.holds().add(self.authority.holds())
    }

    open spec fn live(&self, m: Memory) -> bool {
        &&& self.payer.live(m)
        &&& self.authority.live(m)
    }

    proof fn lemma_live_stays(&self, m: Memory, n: Memory) {
        self.payer.lemma_live_stays(m, n);
        self.authority.lemma_live_stays(m, n);
    }
}

impl Release for SignerRoles {
    fn release(self, memory: &mut AccountMemory) {
        (self.payer, self.authority).release(memory);
    }
}

impl TryAccounts for SignerRoles {
    const HEADER_SIZE: usize = 2;

    type IxArgs<'ix> = ();

    fn try_accounts<'ix>(
        program_id: &Address,
        memory: &mut AccountMemory,
        views: &[AccountView],
        ix_data: &'ix [u8],
    ) -> (r: Result<(Self, (), ()), ProgramError>)
        ensures
            loaded_as(old(memory)@, Self::loaded(old(memory)@, views@), r, final(memory)@),
            r matches Ok(loaded) ==> loaded.0.payer.view == views@[0]
                && loaded.0.authority.view == views@[1],
            r is Ok <==> old(memory)@[views@[0].slot as int].is_signer
                && old(memory)@[views@[0].slot as int].is_writable
                && old(memory)@[views@[1].slot as int].is_signer,
    {
        match load_pair::<Signer, Signer>(
            memory,
            (views[0], true),
            (views[1], false),
        ) {
            Ok((payer, authority)) => Ok((SignerRoles { payer, authority }, (), ())),
            Err(e) => Err(e),
        }
    }

    fn update_accounts(&mut self, memory: &mut AccountMemory) -> (r: Result<(), ProgramError>)
        ensures
            r == Ok::<(), ProgramError>(()),
            *final(self) == *old(self),
            final(memory)@ == old(memory)@,
    {
        Ok(())
    }

    /// The accounts are written in place; nothing is left to write.
    fn exit_accounts<'ix>(&mut self, memory: &mut AccountMemory, ix_data: &'ix [u8]) -> (r: Result<
        (),
        ProgramError,
    >)
        ensures
            r == Ok::<(), ProgramError>(()),
            *final(self) == *old(self),
            final(memory)@ == old(memory)@,
    {
        Ok(())
    }
}

/// Who pays, who is paid, and the System program.
pub struct TransferToRecipient {
    pub payer: Signer,
    pub recipient: SystemAccount,
    pub system_program: Program<System>,
}

impl TransferToRecipient {
    /// What loading gives.
    pub open spec fn loaded(m: Memory, views: Seq<AccountView>) -> Result<Self, ProgramError> {
        match triple_loaded::<Signer, SystemAccount, Program<System>>(
            m,
            (views[0], true),
            (views[1], true),
            (views[2], false),
        ) {
            Ok(((payer, recipient), system_program)) => Ok(
                TransferToRecipient { payer, recipient, system_program },
            ),
            Err(e) => Err(e),
        }
    }
}

impl Bumps for TransferToRecipient {
    type Bumps = ();
}

impl Held for TransferToRecipient {
    open spec fn holds(&self) -> Multiset<Hold> {
        self.payer.holds().add(self.recipient.holds()).add(self.system_program.holds())
    }

    open spec fn live(&self, m: Memory) -> bool {
        &&& self.payer.live(m)
        &&& self.recipient.live(m)
        &&& self.system_program.live(m)
    }

    proof fn lemma_live_stays(&self, m: Memory, n: Memory) {
        self.payer.lemma_live_stays(m, n);
        self.recipient.lemma_live_stays(m, n);
        self.system_program.lemma_live_stays(m, n);
    }
}

impl Release for TransferToRecipient {
    fn release(self, memory: &mut AccountMemory) {
        ((self.payer, self.recipient), self.system_program).release(memory);
    }
}

impl TryAccounts for TransferToRecipient {
    const HEADER_SIZE: usize = 3;

    type IxArgs<'ix> = ();

    fn try_accounts<'ix>(
        program_id: &Address,
        memory: &mut AccountMemory,
        views: &[AccountView],
        ix_data: &'ix [u8],
    ) -> (r: Result<(Self, (), ()), ProgramError>)
        ensures
            loaded_as(old(memory)@, Self::loaded(old(memory)@, views@), r, final(memory)@),
            r matches Ok(loaded) ==> loaded.0.payer.view == views@[0]
                && loaded.0.recipient.view == views@[1] && loaded.0.system_program.view
                == views@[2],
    {
        match load_triple::<Signer, SystemAccount, Program<System>>(
            memory,
            (views[0], true),
            (views[1], true),
            (views[2], false),
        ) {
            Ok(((payer, recipient), system_program)) => {
                Ok((TransferToRecipient { payer, recipient, system_program }, (), ()))
            },
            Err(e) => Err(e),
        }
    }

    fn update_accounts(&mut self, memory: &mut AccountMemory) -> (r: Result<(), ProgramError>)
        ensures
            r == Ok::<(), ProgramError>(()),
            *final(self) == *old(self),
            final(memory)@ == old(memory)@,
    {
        Ok(())
    }

    /// The accounts are written in place; nothing is left to write.
    fn exit_accounts<'ix>(&mut self, memory: &mut AccountMemory, ix_data: &'ix [u8]) -> (r: Result<
        (),
        ProgramError,
    >)
        ensures
            r == Ok::<(), ProgramError>(()),
            *final(self) == *old(self),
            final(memory)@ == old(memory)@,
    {
        Ok(())
    }
}

/// An account to write and one to take as it is.
pub struct TouchDataAndRaw {
    pub data: Account<Data>,
    pub raw: UncheckedAccount,
}

impl TouchDataAndRaw {
    /// What loading gives.
    pub open spec fn loaded(m: Memory, views: Seq<AccountView>) -> Result<Self, ProgramError> {
        match pair_loaded::<Account<Data>, UncheckedAccount>(
            m,
            (views[0], true),
            (views[1], false),
        ) {
            Ok((data, raw)) => Ok(TouchDataAndRaw { data, raw }),
            Err(e) => Err(e),
        }
    }
}

impl Bumps for TouchDataAndRaw {
    type Bumps = ();
}

impl Held for TouchDataAndRaw {
    open spec fn holds(&self) -> Multiset<Hold> {
        self.data.holds().add(self.raw.holds())
    }

    open spec fn live(&self, m: Memory) -> bool {
        &&& self.data.live(m)
        &&& self.data.mutable
        &&& self.raw.live(m)
    }

    proof fn lemma_live_stays(&self, m: Memory, n: Memory) {
        self.data.lemma_live_stays(m, n);
        self.raw.lemma_live_stays(m, n);
    }
}

impl Release for TouchDataAndRaw {
    fn release(self, memory: &mut AccountMemory) {
        (self.data, self.raw).release(memory);
    }
}

impl TryAccounts for TouchDataAndRaw {
    const HEADER_SIZE: usize = 2;

    type IxArgs<'ix> = ();

    fn try_accounts<'ix>(
        program_id: &Address,
        memory: &mut AccountMemory,
        views: &[AccountView],
        ix_data: &'ix [u8],
    ) -> (r: Result<(Self, (), ()), ProgramError>)
        ensures
            loaded_as(old(memory)@, Self::loaded(old(memory)@, views@), r, final(memory)@),
            r matches Ok(loaded) ==> loaded.0.data.view == views@[0] && loaded.0.raw.view
                == views@[1],
    {
        match load_pair::<Account<Data>, UncheckedAccount>(
            memory,
            (views[0], true),
            (views[1], false),
        ) {
            Ok((data, raw)) => Ok((TouchDataAndRaw { data, raw }, (), ())),
            Err(e) => Err(e),
        }
    }

    fn update_accounts(&mut self, memory: &mut AccountMemory) -> (r: Result<(), ProgramError>)
        ensures
            r == Ok::<(), ProgramError>(()),
            *final(self) == *old(self),
            final(memory)@ == old(memory)@,
    {
        Ok(())
    }

    /// The accounts are written in place; nothing is left to write.
    fn exit_accounts<'ix>(&mut self, memory: &mut AccountMemory, ix_data: &'ix [u8]) -> (r: Result<
        (),
        ProgramError,
    >)
        ensures
            r == Ok::<(), ProgramError>(()),
            *final(self) == *old(self),
            final(memory)@ == old(memory)@,
    {
        Ok(())
    }
}

/// Who pays, an account to write, an account to pay, and the System program.
pub struct TransferToRawAlias {
    pub payer: Signer,
    pub data: Account<Data>,
    pub raw: UncheckedAccount,
    pub system_program: Program<System>,
}

impl TransferToRawAlias {
    /// What loading gives.
    pub open spec fn loaded(m: Memory, views: Seq<AccountView>) -> Result<Self, ProgramError> {
        match next_loaded::<((Signer, Account<Data>), UncheckedAccount), Program<System>>(
            m,
            triple_loaded::<Signer, Account<Data>, UncheckedAccount>(
                m,
                (views[0], true),
                (views[1], true),
                (views[2], true),
            ),
            views[3],
            false,
        ) {
            Ok((((payer, data), raw), system_program)) => Ok(
                TransferToRawAlias { payer, data, raw, system_program },
            ),
            Err(e) => Err(e),
        }
    }
}

impl Bumps for TransferToRawAlias {
    type Bumps = ();
}

impl Held for TransferToRawAlias {
    open spec fn holds(&self) -> Multiset<Hold> {
        self.payer.holds().add(self.data.holds()).add(self.raw.holds()).add(
            self.system_program.holds(),
        )
    }

    open spec fn live(&self, m: Memory) -> bool {
        &&& self.payer.live(m)
        &&& self.data.live(m)
        &&& self.data.mutable
        &&& self.raw.live(m)
        &&& self.system_program.live(m)
    }

    proof fn lemma_live_stays(&self, m: Memory, n: Memory) {
        self.payer.lemma_live_stays(m, n);
        self.data.lemma_live_stays(m, n);
        self.raw.lemma_live_stays(m, n);
        self.system_program.lemma_live_stays(m, n);
    }
}

impl Release for TransferToRawAlias {
    fn release(self, memory: &mut AccountMemory) {
        (((self.payer, self.data), self.raw), self.system_program).release(memory);
    }
}

impl TryAccounts for TransferToRawAlias {
    const HEADER_SIZE: usize = 4;

    type IxArgs<'ix> = ();

    fn try_accounts<'ix>(
        program_id: &Address,
        memory: &mut AccountMemory,
        views: &[AccountView],
        ix_data: &'ix [u8],
    ) -> (r: Result<(Self, (), ()), ProgramError>)
        ensures
            loaded_as(old(memory)@, Self::loaded(old(memory)@, views@), r, final(memory)@),
            r matches Ok(loaded) ==> loaded.0.payer.view == views@[0] && loaded.0.data.view
                == views@[1] && loaded.0.raw.view == views@[2] && loaded.0.system_program.view
                == views@[3],
    {
        let first = match load_triple::<Signer, Account<Data>, UncheckedAccount>(
            memory,
            (views[0], true),
            (views[1], true),
            (views[2], true),
        ) {
            Ok(first) => first,
            Err(e) => {
                return Err(e);
            },
        };
        match load_next::<((Signer, Account<Data>), UncheckedAccount), Program<System>>(
            memory,
            first,
            views[3],
            false,
        ) {
            Ok((((payer, data), raw), system_program)) => {
                Ok((TransferToRawAlias { payer, data, raw, system_program }, (), ()))
            },
            Err(e) => Err(e),
        }
    }

    fn update_accounts(&mut self, memory: &mut AccountMemory) -> (r: Result<(), ProgramError>)
        ensures
            r == Ok::<(), ProgramError>(()),
            *final(self) == *old(self),
            final(memory)@ == old(memory)@,
    {
        Ok(())
    }

    /// The accounts are written in place; nothing is left to write.
    fn exit_accounts<'ix>(&mut self, memory: &mut AccountMemory, ix_data: &'ix [u8]) -> (r: Result<
        (),
        ProgramError,
    >)
        ensures
            r == Ok::<(), ProgramError>(()),
            *final(self) == *old(self),
            final(memory)@ == old(memory)@,
    {
        Ok(())
    }
}

/// An account to write that may be absent, and an account to write.
pub struct TouchOptionalMutAndMut {
    pub data_a: Option<Account<Data>>,
    pub data_b: Account<Data>,
}

impl TouchOptionalMutAndMut {
    /// What loading gives.
    pub open spec fn loaded(
        program_id: Seq<u8>,
        m: Memory,
        views: Seq<AccountView>,
    ) -> Result<Self, ProgramError> {
        match next_loaded::<Option<Account<Data>>, Account<Data>>(
            m,
            optional_loaded::<Account<Data>>(program_id, m, views[0], true),
            views[1],
            true,
        ) {
            Ok((data_a, data_b)) => Ok(TouchOptionalMutAndMut { data_a, data_b }),
            Err(e) => Err(e),
        }
    }
}

impl Bumps for TouchOptionalMutAndMut {
    type Bumps = ();
}

impl Held for TouchOptionalMutAndMut {
    open spec fn holds(&self) -> Multiset<Hold> {
        self.data_a.holds().add(self.data_b.holds())
    }

    open spec fn live(&self, m: Memory) -> bool {
        &&& self.data_a.live(m)
        &&& self.data_a matches Some(data_a) ==> data_a.mutable
        &&& self.data_b.live(m)
        &&& self.data_b.mutable
    }

    proof fn lemma_live_stays(&self, m: Memory, n: Memory) {
        self.data_a.lemma_live_stays(m, n);
        self.data_b.lemma_live_stays(m, n);
    }
}

impl Release for TouchOptionalMutAndMut {
    fn release(self, memory: &mut AccountMemory) {
        (self.data_a, self.data_b).release(memory);
    }
}

impl TryAccounts for TouchOptionalMutAndMut {
    const HEADER_SIZE: usize = 2;

    type IxArgs<'ix> = ();

    fn try_accounts<'ix>(
        program_id: &Address,
        memory: &mut AccountMemory,
        views: &[AccountView],
        ix_data: &'ix [u8],
    ) -> (r: Result<(Self, (), ()), ProgramError>)
        ensures
            loaded_as(
                old(memory)@,
                Self::loaded(program_id@, old(memory)@, views@),
                r,
                final(memory)@,
            ),
            r matches Ok(loaded) ==> loaded.0.data_b.view == views@[1] && (
            loaded.0.data_a matches Some(data) ==> data.view == views@[0]) && (
            loaded.0.data_a is None <==> old(memory)@[views@[0].slot as int].address
                == program_id@),
    {
        let data_a = match load_optional::<Account<Data>>(program_id, memory, views[0], true) {
            Ok(data_a) => data_a,
            Err(e) => {
                return Err(e);
            },
        };
        match load_next::<Option<Account<Data>>, Account<Data>>(memory, data_a, views[1], true) {
            Ok((data_a, data_b)) => Ok((TouchOptionalMutAndMut { data_a, data_b }, (), ())),
            Err(e) => Err(e),
        }
    }

    fn update_accounts(&mut self, memory: &mut AccountMemory) -> (r: Result<(), ProgramError>)
        ensures
            r == Ok::<(), ProgramError>(()),
            *final(self) == *old(self),
            final(memory)@ == old(memory)@,
    {
        Ok(())
    }

    /// The accounts are written in place; nothing is left to write.
    fn exit_accounts<'ix>(&mut self, memory: &mut AccountMemory, ix_data: &'ix [u8]) -> (r: Result<
        (),
        ProgramError,
    >)
        ensures
            r == Ok::<(), ProgramError>(()),
            *final(self) == *old(self),
            final(memory)@ == old(memory)@,
    {
        Ok(())
    }
}

/// Two accounts to write, nested.
pub struct TouchNestedTwoMut {
    pub pair: Nested<InnerTwoMut>,
}

impl TouchNestedTwoMut {
    /// What loading gives: what the nested struct gives.
    pub open spec fn loaded(m: Memory, views: Seq<AccountView>) -> Result<Self, ProgramError> {
        match InnerTwoMut::loaded(m, views) {
            Ok(inner) => Ok(TouchNestedTwoMut { pair: Nested { inner } }),
            Err(e) => Err(e),
        }
    }
}

impl Bumps for TouchNestedTwoMut {
    type Bumps = ();
}

impl Held for TouchNestedTwoMut {
    open spec fn holds(&self) -> Multiset<Hold> {
        self.pair.holds()
    }

    open spec fn live(&self, m: Memory) -> bool {
        self.pair.live(m)
    }

    proof fn lemma_live_stays(&self, m: Memory, n: Memory) {
        self.pair.lemma_live_stays(m, n);
    }
}

impl Release for TouchNestedTwoMut {
    fn release(self, memory: &mut AccountMemory) {
        self.pair.release(memory);
    }
}

impl TryAccounts for TouchNestedTwoMut {
    const HEADER_SIZE: usize = InnerTwoMut::HEADER_SIZE;

    type IxArgs<'ix> = ();

    fn try_accounts<'ix>(
        program_id: &Address,
        memory: &mut AccountMemory,
        views: &[AccountView],
        ix_data: &'ix [u8],
    ) -> (r: Result<(Self, (), ()), ProgramError>)
        ensures
            loaded_as(old(memory)@, Self::loaded(old(memory)@, views@), r, final(memory)@),
            r matches Ok(loaded) ==> loaded.0.pair.inner.data_a.view == views@[0]
                && loaded.0.pair.inner.data_b.view == views@[1],
    {
        match InnerTwoMut::validate_accounts(program_id, memory, views, ix_data) {
            Ok((inner, _, _)) => Ok((TouchNestedTwoMut { pair: Nested { inner } }, (), ())),
            Err(e) => Err(e),
        }
    }

    fn update_accounts(&mut self, memory: &mut AccountMemory) -> (r: Result<(), ProgramError>)
        ensures
            r == Ok::<(), ProgramError>(()),
            *final(self) == *old(self),
            final(memory)@ == old(memory)@,
    {
        Ok(())
    }

    /// The accounts are written in place; nothing is left to write.
    fn exit_accounts<'ix>(&mut self, memory: &mut AccountMemory, ix_data: &'ix [u8]) -> (r: Result<
        (),
        ProgramError,
    >)
        ensures
            r == Ok::<(), ProgramError>(()),
            *final(self) == *old(self),
            final(memory)@ == old(memory)@,
    {
        Ok(())
    }
}

/// An account to write and one to read, nested.
pub struct TouchNestedMutReadonly {
    pub pair: Nested<InnerMutReadonly>,
}

impl TouchNestedMutReadonly {
    /// What loading gives: what the nested struct gives.
    pub open spec fn loaded(m: Memory, views: Seq<AccountView>) -> Result<Self, ProgramError> {
        match InnerMutReadonly::loaded(m, views) {
            Ok(inner) => Ok(TouchNestedMutReadonly { pair: Nested { inner } }),
            Err(e) => Err(e),
        }
    }
}

impl Bumps for TouchNestedMutReadonly {
    type Bumps = ();
}

impl Held for TouchNestedMutReadonly {
    open spec fn holds(&self) -> Multiset<Hold> {
        self.pair.holds()
    }

    open spec fn live(&self, m: Memory) -> bool {
        self.pair.live(m)
    }

    proof fn lemma_live_stays(&self, m: Memory, n: Memory) {
        self.pair.lemma_live_stays(m, n);
    }
}

impl Release for TouchNestedMutReadonly {
    fn release(self, memory: &mut AccountMemory) {
        self.pair.release(memory);
    }
}

impl TryAccounts for TouchNestedMutReadonly {
    const HEADER_SIZE: usize = InnerMutReadonly::HEADER_SIZE;

    type IxArgs<'ix> = ();

    fn try_accounts<'ix>(
        program_id: &Address,
        memory: &mut AccountMemory,
        views: &[AccountView],
        ix_data: &'ix [u8],
    ) -> (r: Result<(Self, (), ()), ProgramError>)
        ensures
            loaded_as(old(memory)@, Self::loaded(old(memory)@, views@), r, final(memory)@),
            r matches Ok(loaded) ==> loaded.0.pair.inner.data_a.view == views@[0]
                && loaded.0.pair.inner.data_b.view == views@[1],
    {
        match InnerMutReadonly::validate_accounts(program_id, memory, views, ix_data) {
            Ok((inner, _, _)) => Ok((TouchNestedMutReadonly { pair: Nested { inner } }, (), ())),
            Err(e) => Err(e),
        }
    }

    fn update_accounts(&mut self, memory: &mut AccountMemory) -> (r: Result<(), ProgramError>)
        ensures
            r == Ok::<(), ProgramError>(()),
            *final(self) == *old(self),
            final(memory)@ == old(memory)@,
    {
        Ok(())
    }

    /// The accounts are written in place; nothing is left to write.
    fn exit_accounts<'ix>(&mut self, memory: &mut AccountMemory, ix_data: &'ix [u8]) -> (r: Result<
        (),
        ProgramError,
    >)
        ensures
            r == Ok::<(), ProgramError>(()),
            *final(self) == *old(self),
            final(memory)@ == old(memory)@,
    {
        Ok(())
    }
}

/// An account to write, and two more, nested.
pub struct TouchOuterMutPlusNested {
    pub outer: Account<Data>,
    pub pair: Nested<InnerTwoMut>,
}

impl TouchOuterMutPlusNested {
    /// What loading gives: the nested struct takes the views after the first.
    pub open spec fn loaded(m: Memory, views: Seq<AccountView>) -> Result<Self, ProgramError> {
        match Account::<Data>::loaded(m, views[0], true) {
            Err(e) => Err(e),
            Ok(outer) => match InnerTwoMut::loaded(taken(m, outer.holds()), views.subrange(1, 3)) {
                Err(e) => Err(e),
                Ok(inner) => Ok(TouchOuterMutPlusNested { outer, pair: Nested { inner } }),
            },
        }
    }
}

impl Bumps for TouchOuterMutPlusNested {
    type Bumps = ();
}

impl Held for TouchOuterMutPlusNested {
    open spec fn holds(&self) -> Multiset<Hold> {
        self.outer.holds().add(self.pair.holds())
    }

    open spec fn live(&self, m: Memory) -> bool {
        &&& self.outer.live(m)
        &&& self.outer.mutable
        &&& self.pair.live(m)
    }

    proof fn lemma_live_stays(&self, m: Memory, n: Memory) {
        self.outer.lemma_live_stays(m, n);
        self.pair.lemma_live_stays(m, n);
    }
}

impl Release for TouchOuterMutPlusNested {
    fn release(self, memory: &mut AccountMemory) {
        (self.outer, self.pair).release(memory);
    }
}

impl TryAccounts for TouchOuterMutPlusNested {
    const HEADER_SIZE: usize = 1 + InnerTwoMut::HEADER_SIZE;

    type IxArgs<'ix> = ();

    fn try_accounts<'ix>(
        program_id: &Address,
        memory: &mut AccountMemory,
        views: &[AccountView],
        ix_data: &'ix [u8],
    ) -> (r: Result<(Self, (), ()), ProgramError>)
        ensures
            loaded_as(old(memory)@, Self::loaded(old(memory)@, views@), r, final(memory)@),
            r matches Ok(loaded) ==> loaded.0.outer.view == views@[0]
                && loaded.0.pair.inner.data_a.view == views@[1]
                && loaded.0.pair.inner.data_b.view == views@[2],
    {
        let ghost m = memory@;
        let outer = match load_account::<Account<Data>>(memory, views[0], true) {
            Ok(outer) => outer,
            Err(e) => {
                return Err(e);
            },
        };
        let ghost n = memory@;
        let rest = slice_subrange(views, 1, 3);
        match InnerTwoMut::validate_accounts(program_id, memory, rest, ix_data) {
            Ok((inner, _, _)) => {
                proof {
                    lemma_take_both(m, outer.holds(), inner.holds());
                    law_borrow_undoes_release(memory@, inner.holds());
                    law_release_undoes_borrow(m, outer.holds().add(inner.holds()));
                    outer.lemma_live_stays(n, memory@);
                }
                Ok((TouchOuterMutPlusNested { outer, pair: Nested { inner } }, (), ()))
            },
            Err(e) => {
                outer.release(memory);
                Err(e)
            },
        }
    }

    fn update_accounts(&mut self, memory: &mut AccountMemory) -> (r: Result<(), ProgramError>)
        ensures
            r == Ok::<(), ProgramError>(()),
            *final(self) == *old(self),
            final(memory)@ == old(memory)@,
    {
        Ok(())
    }

    /// The accounts are written in place; nothing is left to write.
    fn exit_accounts<'ix>(&mut self, memory: &mut AccountMemory, ix_data: &'ix [u8]) -> (r: Result<
        (),
        ProgramError,
    >)
        ensures
            r == Ok::<(), ProgramError>(()),
            *final(self) == *old(self),
            final(memory)@ == old(memory)@,
    {
        Ok(())
    }
}

/// How many accounts each struct takes: one for each field of its own, and those of
/// each nested struct.
pub proof fn law_header_sizes()
    ensures
        TouchTwoMut::HEADER_SIZE == 2,
        TouchThreeMut::HEADER_SIZE == 3,
        TouchMutAndReadonly::HEADER_SIZE == 2,
        TouchReadonlyAndMut::HEADER_SIZE == 2,
        ReadTwo::HEADER_SIZE == 2,
        TouchBorshMutAndReadonly::HEADER_SIZE == 2,
        TouchBoxedMutAndReadonly::HEADER_SIZE == 2,
        TouchOptionalMutAndMut::HEADER_SIZE == 2,
        InnerTwoMut::HEADER_SIZE == 2,
        InnerMutReadonly::HEADER_SIZE == 2,
        TouchNestedTwoMut::HEADER_SIZE == InnerTwoMut::HEADER_SIZE,
        TouchNestedMutReadonly::HEADER_SIZE == InnerMutReadonly::HEADER_SIZE,
        TouchOuterMutPlusNested::HEADER_SIZE == 1 + InnerTwoMut::HEADER_SIZE,
        SignerRoles::HEADER_SIZE == 2,
        TransferToRecipient::HEADER_SIZE == 3,
        TouchDataAndRaw::HEADER_SIZE == 2,
        TransferToRawAlias::HEADER_SIZE == 4,
{
}

} // verus!
