//! Accounts that ask for updates.

use crate::accounts::compose::{
    load_account, load_next, load_triple, next_loaded, triple_loaded,
};
use crate::accounts::nested::Nested;
use crate::accounts::serialized::{BorshAccount, SerializedAccount};
use crate::accounts::signer::Signer;
use crate::accounts::unchecked_account::UncheckedAccount;
use crate::accounts::{AnchorAccount, Wrapper};
use crate::address::{address_of, lemma_address_of, Address};
use crate::context::Bumps;
use crate::dispatch::{loaded_as, TriedByValidating, TryAccounts};
use crate::error::ErrorCode;
use crate::memory::{
    exclusive_hold, law_release_undoes_borrow, lemma_keeps_or_frees, AccountMemory, AccountView,
    Held, Hold, Memory, Release,
};
use crate::updates::laws::law_counter_of_an_account;
use crate::updates::state::{StepCounter, Vault};
use solana_program_error::ProgramError;
use vstd::multiset::Multiset;
use vstd::prelude::*;
use vstd::slice::slice_subrange;

verus! {

/// A vault, whose authority must be the one that signs and is then replaced.
pub struct RotateAuthority {
    pub vault: BorshAccount<Vault>,
    pub current_authority: Signer,
    pub new_authority: UncheckedAccount,
}

impl RotateAuthority {
    /// What validating gives: the accounts, where the vault names who signs as its
    /// authority.
    pub open spec fn validated(m: Memory, views: Seq<AccountView>) -> Result<Self, ProgramError> {
        match triple_loaded::<BorshAccount<Vault>, Signer, UncheckedAccount>(
            m,
            (views[0], true),
            (views[1], false),
            (views[2], false),
        ) {
            Err(e) => Err(e),
            Ok(((vault, current_authority), new_authority)) => if vault.data.current_authority@
                != m[views[1].slot as int].address {
                Err(ErrorCode::ConstraintHasOne.program_error())
            } else {
                Ok(RotateAuthority { vault, current_authority, new_authority })
            },
        }
    }

    /// The accounts once they are updated: the vault has the new authority.
    pub open spec fn updated(self, m: Memory) -> Self {
        RotateAuthority {
            vault: SerializedAccount {
                data: Vault {
                    current_authority: address_of(m[self.new_authority.view.slot as int].address),
                },
                ..self.vault
            },
            ..self
        }
    }

    /// What trying gives: validated accounts, updated.
    pub open spec fn tried(m: Memory, views: Seq<AccountView>) -> Result<Self, ProgramError> {
        match Self::validated(m, views) {
            Err(e) => Err(e),
            Ok(accounts) => Ok(accounts.updated(m)),
        }
    }
}

impl Bumps for RotateAuthority {
    type Bumps = ();
}

impl Held for RotateAuthority {
    open spec fn holds(&self) -> Multiset<Hold> {
        self.vault.holds().add(self.current_authority.holds()).add(self.new_authority.holds())
    }

    open spec fn live(&self, m: Memory) -> bool {
        &&& self.vault.live(m)
        &&& self.vault.mutable
        &&& self.vault.borrowed
        &&& self.current_authority.live(m)
        &&& self.new_authority.live(m)
    }

    proof fn lemma_live_stays(&self, m: Memory, n: Memory) {
        self.vault.lemma_live_stays(m, n);
        self.current_authority.lemma_live_stays(m, n);
        self.new_authority.lemma_live_stays(m, n);
    }
}

impl Release for RotateAuthority {
    fn release(self, memory: &mut AccountMemory) {
        ((self.vault, self.current_authority), self.new_authority).release(memory);
    }
}

impl TryAccounts for RotateAuthority {
    const HEADER_SIZE: usize = 3;

    type IxArgs<'ix> = ();

    fn try_accounts<'ix>(
        program_id: &Address,
        memory: &mut AccountMemory,
        views: &[AccountView],
        ix_data: &'ix [u8],
    ) -> (r: Result<(Self, (), ()), ProgramError>)
        ensures
            loaded_as(old(memory)@, Self::tried(old(memory)@, views@), r, final(memory)@),
            r matches Ok(loaded) ==> {
                &&& loaded.0.vault.view == views@[0]
                &&& loaded.0.current_authority.view == views@[1]
                &&& loaded.0.new_authority.view == views@[2]
                &&& loaded.0.vault.data.current_authority.bytes@
                    == old(memory)@[views@[2].slot as int].address
            },
    {
        let mut accounts = match Self::validate_accounts(program_id, memory, views, ix_data) {
            Ok((accounts, _, _)) => accounts,
            Err(e) => {
                return Err(e);
            },
        };
        match accounts.update_accounts(memory) {
            Ok(_) => Ok((accounts, (), ())),
            Err(e) => {
                accounts.release(memory);
                Err(e)
            },
        }
    }

    fn validate_accounts<'ix>(
        program_id: &Address,
        memory: &mut AccountMemory,
        views: &[AccountView],
        ix_data: &'ix [u8],
    ) -> (r: Result<(Self, (), ()), ProgramError>)
        ensures
            loaded_as(old(memory)@, Self::validated(old(memory)@, views@), r, final(memory)@),
            r matches Ok(loaded) ==> {
                &&& loaded.0.vault.view == views@[0]
                &&& loaded.0.current_authority.view == views@[1]
                &&& loaded.0.new_authority.view == views@[2]
                &&& loaded.0.vault.data.current_authority.bytes@
                    == old(memory)@[views@[1].slot as int].address
            },
    {
        let loaded = match load_triple::<BorshAccount<Vault>, Signer, UncheckedAccount>(
            memory,
            (views[0], true),
            (views[1], false),
            (views[2], false),
        ) {
            Ok(loaded) => loaded,
            Err(e) => {
                return Err(e);
            },
        };
        let ((vault, current_authority), new_authority) = loaded;
        let accounts = RotateAuthority { vault, current_authority, new_authority };
        let signer = accounts.current_authority.address(memory);
        if !accounts.vault.get().current_authority.same_as(&signer) {
            accounts.release(memory);
            return Err(ErrorCode::ConstraintHasOne.into());
        }
        Ok((accounts, (), ()))
    }

    /// Gives the vault its new authority.
    fn update_accounts(&mut self, memory: &mut AccountMemory) -> (r: Result<(), ProgramError>)
        ensures
            r == Ok::<(), ProgramError>(()),
            *final(self) == old(self).updated(old(memory)@),
            final(self).vault.data.current_authority.bytes@ == old(memory)@[old(
                self,
            ).new_authority.view.slot as int].address,
            final(self).vault == (SerializedAccount {
                data: final(self).vault.data,
                ..old(self).vault
            }),
            final(self).current_authority == old(self).current_authority,
            final(self).new_authority == old(self).new_authority,
            final(memory)@ == old(memory)@,
    {
        let current_authority = self.new_authority.view.address(memory);
        proof {
            lemma_address_of(current_authority);
        }
        self.vault.set(Vault { current_authority });
        Ok(())
    }

    /// Writes the vault back.
    fn exit_accounts<'ix>(&mut self, memory: &mut AccountMemory, ix_data: &'ix [u8]) -> (r: Result<
        (),
        ProgramError,
    >)
        ensures
            r == old(self).vault.exited(old(memory)@).result,
            final(self).vault == old(self).vault.exited(old(memory)@).account,
            final(self).current_authority == old(self).current_authority,
            final(self).new_authority == old(self).new_authority,
            final(memory)@ == old(self).vault.exited(old(memory)@).memory,
    {
        proof {
            let h = self.vault.holds();
            assert(self.holds() =~= h);
            assert(Multiset::empty().add(h) =~= h);
            self.vault.lemma_exited(memory@);
            let exit = self.vault.exited(memory@);
            lemma_keeps_or_frees(memory@, h, exit.memory, exit.account.holds(), Multiset::empty());
            assert(Multiset::empty().add(exit.account.holds()) =~= exit.account.holds());
        }
        let r = self.vault.exit(memory);
        assert(self.holds() =~= self.vault.holds());
        r
    }
}

impl TriedByValidating for RotateAuthority {
    proof fn law_trying_is_validating_and_updating<'ix>() {
    }
}

/// A counter that is advanced by one.
pub struct InnerIncrement {
    pub counter: BorshAccount<StepCounter>,
}

impl InnerIncrement {
    /// What validating gives.
    pub open spec fn validated(m: Memory, views: Seq<AccountView>) -> Result<Self, ProgramError> {
        match BorshAccount::<StepCounter>::loaded(m, views[0], true) {
            Err(e) => Err(e),
            Ok(counter) => Ok(InnerIncrement { counter }),
        }
    }

    /// The accounts once they are updated: the counter is advanced by one, unless it is at
    /// its limit.
    pub open spec fn updated(self) -> Result<Self, ProgramError> {
        if self.counter.data.value == u64::MAX {
            Err(ProgramError::ArithmeticOverflow)
        } else {
            Ok(
                InnerIncrement {
                    counter: SerializedAccount {
                        data: StepCounter { value: (self.counter.data.value + 1) as u64 },
                        ..self.counter
                    },
                },
            )
        }
    }

    /// What trying gives: validated accounts, updated.
    pub open spec fn tried(m: Memory, views: Seq<AccountView>) -> Result<Self, ProgramError> {
        match Self::validated(m, views) {
            Err(e) => Err(e),
            Ok(accounts) => accounts.updated(),
        }
    }
}

impl Bumps for InnerIncrement {
    type Bumps = ();
}

impl Held for InnerIncrement {
    open spec fn holds(&self) -> Multiset<Hold> {
        self.counter.holds()
    }

    open spec fn live(&self, m: Memory) -> bool {
        &&& self.counter.live(m)
        &&& self.counter.mutable
        &&& self.counter.borrowed
    }

    proof fn lemma_live_stays(&self, m: Memory, n: Memory) {
        self.counter.lemma_live_stays(m, n);
    }
}

impl Release for InnerIncrement {
    fn release(self, memory: &mut AccountMemory) {
        self.counter.release(memory);
    }
}

impl TryAccounts for InnerIncrement {
    const HEADER_SIZE: usize = 1;

    type IxArgs<'ix> = ();

    fn try_accounts<'ix>(
        program_id: &Address,
        memory: &mut AccountMemory,
        views: &[AccountView],
        ix_data: &'ix [u8],
    ) -> (r: Result<(Self, (), ()), ProgramError>)
        ensures
            loaded_as(old(memory)@, Self::tried(old(memory)@, views@), r, final(memory)@),
            r matches Ok(loaded) ==> {
                let d = old(memory)@[views@[0].slot as int].data;
                &&& loaded.0.counter.view == views@[0]
                &&& loaded.0.counter.data.value as int == (d[8] + d[9] * 0x100
                    + d[10] * 0x1_0000 + d[11] * 0x100_0000 + d[12] * 0x1_0000_0000
                    + d[13] * 0x100_0000_0000 + d[14] * 0x1_0000_0000_0000
                    + d[15] * 0x100_0000_0000_0000) + 1
            },
    {
        let ghost m = memory@;
        let mut accounts = match Self::validate_accounts(program_id, memory, views, ix_data) {
            Ok((accounts, _, _)) => accounts,
            Err(e) => {
                return Err(e);
            },
        };
        proof {
            BorshAccount::<StepCounter>::lemma_loaded(m, views[0], true);
            assert(accounts.holds() =~= exclusive_hold(views[0]));
            law_release_undoes_borrow(m, accounts.holds());
        }
        match accounts.update_accounts(memory) {
            Ok(_) => Ok((accounts, (), ())),
            Err(e) => {
                accounts.release(memory);
                Err(e)
            },
        }
    }

    fn validate_accounts<'ix>(
        program_id: &Address,
        memory: &mut AccountMemory,
        views: &[AccountView],
        ix_data: &'ix [u8],
    ) -> (r: Result<(Self, (), ()), ProgramError>)
        ensures
            loaded_as(old(memory)@, Self::validated(old(memory)@, views@), r, final(memory)@),
            r matches Ok(loaded) ==> {
                let d = old(memory)@[views@[0].slot as int].data;
                &&& loaded.0.counter.view == views@[0]
                &&& loaded.0.counter.data.value as int == d[8] + d[9] * 0x100
                    + d[10] * 0x1_0000 + d[11] * 0x100_0000 + d[12] * 0x1_0000_0000
                    + d[13] * 0x100_0000_0000 + d[14] * 0x1_0000_0000_0000
                    + d[15] * 0x100_0000_0000_0000
            },
    {
        proof {
            law_counter_of_an_account(memory@, views[0], true);
        }
        match load_account::<BorshAccount<StepCounter>>(memory, views[0], true) {
            Ok(counter) => Ok((InnerIncrement { counter }, (), ())),
            Err(e) => Err(e),
        }
    }

    /// Counts one step.
    fn update_accounts(&mut self, memory: &mut AccountMemory) -> (r: Result<(), ProgramError>)
        ensures
            match old(self).updated() {
                Ok(accounts) => r == Ok::<(), ProgramError>(()) && *final(self) == accounts,
                Err(e) => r == Err::<(), ProgramError>(e) && *final(self) == *old(self),
            },
            final(memory)@ == old(memory)@,
            r is Ok <==> old(self).counter.data.value < 0xffff_ffff_ffff_ffff,
            r is Ok ==> final(self).counter.data.value == old(self).counter.data.value + 1,
            r matches Err(e) ==> e == ProgramError::ArithmeticOverflow && *final(self) == *old(
                self,
            ),
    {
        match self.counter.get().value.checked_add(1) {
            Some(value) => {
                self.counter.set(StepCounter { value });
                Ok(())
            },
            None => Err(ProgramError::ArithmeticOverflow),
        }
    }

    /// Writes the counter back.
    fn exit_accounts<'ix>(&mut self, memory: &mut AccountMemory, ix_data: &'ix [u8]) -> (r: Result<
        (),
        ProgramError,
    >)
        ensures
            r == old(self).counter.exited(old(memory)@).result,
            final(self).counter == old(self).counter.exited(old(memory)@).account,
            final(memory)@ == old(self).counter.exited(old(memory)@).memory,
    {
        proof {
            let h = self.counter.holds();
            assert(self.holds() =~= h);
            assert(Multiset::empty().add(h) =~= h);
            self.counter.lemma_exited(memory@);
            let exit = self.counter.exited(memory@);
            lemma_keeps_or_frees(memory@, h, exit.memory, exit.account.holds(), Multiset::empty());
            assert(Multiset::empty().add(exit.account.holds()) =~= exit.account.holds());
        }
        self.counter.exit(memory)
    }
}

impl TriedByValidating for InnerIncrement {
    proof fn law_trying_is_validating_and_updating<'ix>() {
    }
}

/// A counter that is advanced by one, nested.
pub struct OuterNestedIncrement {
    pub inner: Nested<InnerIncrement>,
}

impl OuterNestedIncrement {
    /// What validating gives: what the nested struct gives.
    pub open spec fn validated(m: Memory, views: Seq<AccountView>) -> Result<Self, ProgramError> {
        match InnerIncrement::validated(m, views) {
            Err(e) => Err(e),
            Ok(inner) => Ok(OuterNestedIncrement { inner: Nested { inner } }),
        }
    }

    /// The accounts once they are updated: the nested ones are, once.
    pub open spec fn updated(self) -> Result<Self, ProgramError> {
        match self.inner.inner.updated() {
            Err(e) => Err(e),
            Ok(inner) => Ok(OuterNestedIncrement { inner: Nested { inner } }),
        }
    }

    /// What trying gives: validated accounts, updated.
    pub open spec fn tried(m: Memory, views: Seq<AccountView>) -> Result<Self, ProgramError> {
        match Self::validated(m, views) {
            Err(e) => Err(e),
            Ok(accounts) => accounts.updated(),
        }
    }
}

impl Bumps for OuterNestedIncrement {
    type Bumps = ();
}

impl Held for OuterNestedIncrement {
    open spec fn holds(&self) -> Multiset<Hold> {
        self.inner.holds()
    }

    open spec fn live(&self, m: Memory) -> bool {
        self.inner.live(m)
    }

    proof fn lemma_live_stays(&self, m: Memory, n: Memory) {
        self.inner.lemma_live_stays(m, n);
    }
}

impl Release for OuterNestedIncrement {
    fn release(self, memory: &mut AccountMemory) {
        self.inner.release(memory);
    }
}

impl TryAccounts for OuterNestedIncrement {
    const HEADER_SIZE: usize = InnerIncrement::HEADER_SIZE;

    type IxArgs<'ix> = ();

    fn try_accounts<'ix>(
        program_id: &Address,
        memory: &mut AccountMemory,
        views: &[AccountView],
        ix_data: &'ix [u8],
    ) -> (r: Result<(Self, (), ()), ProgramError>)
        ensures
            loaded_as(old(memory)@, Self::tried(old(memory)@, views@), r, final(memory)@),
            r matches Ok(loaded) ==> {
                let d = old(memory)@[views@[0].slot as int].data;
                &&& loaded.0.inner.inner.counter.view == views@[0]
                &&& loaded.0.inner.inner.counter.data.value as int == (d[8] + d[9] * 0x100
                    + d[10] * 0x1_0000 + d[11] * 0x100_0000 + d[12] * 0x1_0000_0000
                    + d[13] * 0x100_0000_0000 + d[14] * 0x1_0000_0000_0000
                    + d[15] * 0x100_0000_0000_0000) + 1
            },
    {
        let ghost m = memory@;
        let mut accounts = match Self::validate_accounts(program_id, memory, views, ix_data) {
            Ok((accounts, _, _)) => accounts,
            Err(e) => {
                return Err(e);
            },
        };
        proof {
            BorshAccount::<StepCounter>::lemma_loaded(m, views[0], true);
            assert(accounts.holds() =~= exclusive_hold(views[0]));
            law_release_undoes_borrow(m, accounts.holds());
        }
        match accounts.update_accounts(memory) {
            Ok(_) => Ok((accounts, (), ())),
            Err(e) => {
                accounts.release(memory);
                Err(e)
            },
        }
    }

    fn validate_accounts<'ix>(
        program_id: &Address,
        memory: &mut AccountMemory,
        views: &[AccountView],
        ix_data: &'ix [u8],
    ) -> (r: Result<(Self, (), ()), ProgramError>)
        ensures
            loaded_as(old(memory)@, Self::validated(old(memory)@, views@), r, final(memory)@),
            r matches Ok(loaded) ==> {
                let d = old(memory)@[views@[0].slot as int].data;
                &&& loaded.0.inner.inner.counter.view == views@[0]
                &&& loaded.0.inner.inner.counter.data.value as int == d[8] + d[9] * 0x100
                    + d[10] * 0x1_0000 + d[11] * 0x100_0000 + d[12] * 0x1_0000_0000
                    + d[13] * 0x100_0000_0000 + d[14] * 0x1_0000_0000_0000
                    + d[15] * 0x100_0000_0000_0000
            },
    {
        match InnerIncrement::validate_accounts(program_id, memory, views, ix_data) {
            Ok((inner, _, _)) => Ok((OuterNestedIncrement { inner: Nested { inner } }, (), ())),
            Err(e) => Err(e),
        }
    }

    /// Counts one step.
    fn update_accounts(&mut self, memory: &mut AccountMemory) -> (r: Result<(), ProgramError>)
        ensures
            match old(self).updated() {
                Ok(accounts) => r == Ok::<(), ProgramError>(()) && *final(self) == accounts,
                Err(e) => r == Err::<(), ProgramError>(e) && *final(self) == *old(self),
            },
            final(memory)@ == old(memory)@,
            r is Ok <==> old(self).inner.inner.counter.data.value < 0xffff_ffff_ffff_ffff,
            r is Ok ==> final(self).inner.inner.counter.data.value
                == old(self).inner.inner.counter.data.value + 1,
            r matches Err(e) ==> e == ProgramError::ArithmeticOverflow && *final(self) == *old(
                self,
            ),
    {
        self.inner.inner.update_accounts(memory)
    }

    /// Writes the counter back.
    fn exit_accounts<'ix>(&mut self, memory: &mut AccountMemory, ix_data: &'ix [u8]) -> (r: Result<
        (),
        ProgramError,
    >)
        ensures
            r == old(self).inner.inner.counter.exited(old(memory)@).result,
            final(self).inner.inner.counter == old(self).inner.inner.counter.exited(
                old(memory)@,
            ).account,
            final(memory)@ == old(self).inner.inner.counter.exited(old(memory)@).memory,
    {
        self.inner.inner.exit_accounts(memory, ix_data)
    }
}

impl TriedByValidating for OuterNestedIncrement {
    proof fn law_trying_is_validating_and_updating<'ix>() {
    }
}

/// A counter that is advanced by one, nested, and an account that is let in only where the
/// counter stands at one.
pub struct OuterNestedGate {
    pub inner: Nested<InnerIncrement>,
    pub witness: UncheckedAccount,
}

impl OuterNestedGate {
    /// What validating gives. The counter is looked at before it is advanced.
    pub open spec fn validated(m: Memory, views: Seq<AccountView>) -> Result<Self, ProgramError> {
        match next_loaded::<InnerIncrement, UncheckedAccount>(
            m,
            InnerIncrement::validated(m, views.subrange(0, 1)),
            views[1],
            false,
        ) {
            Err(e) => Err(e),
            Ok((inner, witness)) => if inner.counter.data.value != 1 {
                Err(ErrorCode::ConstraintRaw.program_error())
            } else {
                Ok(OuterNestedGate { inner: Nested { inner }, witness })
            },
        }
    }

    /// The accounts once they are updated: the nested ones are, once.
    pub open spec fn updated(self) -> Result<Self, ProgramError> {
        match self.inner.inner.updated() {
            Err(e) => Err(e),
            Ok(inner) => Ok(OuterNestedGate { inner: Nested { inner }, witness: self.witness }),
        }
    }

    /// What trying gives: validated accounts, updated.
    pub open spec fn tried(m: Memory, views: Seq<AccountView>) -> Result<Self, ProgramError> {
        match Self::validated(m, views) {
            Err(e) => Err(e),
            Ok(accounts) => accounts.updated(),
        }
    }
}

impl Bumps for OuterNestedGate {
    type Bumps = ();
}

impl Held for OuterNestedGate {
    open spec fn holds(&self) -> Multiset<Hold> {
        self.inner.holds().add(self.witness.holds())
    }

    open spec fn live(&self, m: Memory) -> bool {
        &&& self.inner.live(m)
        &&& self.witness.live(m)
    }

    proof fn lemma_live_stays(&self, m: Memory, n: Memory) {
        self.inner.lemma_live_stays(m, n);
        self.witness.lemma_live_stays(m, n);
    }
}

impl Release for OuterNestedGate {
    fn release(self, memory: &mut AccountMemory) {
        (self.inner, self.witness).release(memory);
    }
}

impl TryAccounts for OuterNestedGate {
    const HEADER_SIZE: usize = InnerIncrement::HEADER_SIZE + 1;

    type IxArgs<'ix> = ();

    fn try_accounts<'ix>(
        program_id: &Address,
        memory: &mut AccountMemory,
        views: &[AccountView],
        ix_data: &'ix [u8],
    ) -> (r: Result<(Self, (), ()), ProgramError>)
        ensures
            loaded_as(old(memory)@, Self::tried(old(memory)@, views@), r, final(memory)@),
            r matches Ok(loaded) ==> {
                let d = old(memory)@[views@[0].slot as int].data;
                &&& loaded.0.inner.inner.counter.view == views@[0]
                &&& loaded.0.witness.view == views@[1]
                &&& loaded.0.inner.inner.counter.data.value == 2
                &&& loaded.0.inner.inner.counter.data.value as int == (d[8] + d[9] * 0x100
                    + d[10] * 0x1_0000 + d[11] * 0x100_0000 + d[12] * 0x1_0000_0000
                    + d[13] * 0x100_0000_0000 + d[14] * 0x1_0000_0000_0000
                    + d[15] * 0x100_0000_0000_0000) + 1
            },
    {
        let ghost m = memory@;
        let mut accounts = match Self::validate_accounts(program_id, memory, views, ix_data) {
            Ok((accounts, _, _)) => accounts,
            Err(e) => {
                return Err(e);
            },
        };
        proof {
            BorshAccount::<StepCounter>::lemma_loaded(m, views[0], true);
            assert(accounts.holds() =~= exclusive_hold(views[0]));
            law_release_undoes_borrow(m, accounts.holds());
        }
        match accounts.update_accounts(memory) {
            Ok(_) => Ok((accounts, (), ())),
            Err(e) => {
                accounts.release(memory);
                Err(e)
            },
        }
    }

    fn validate_accounts<'ix>(
        program_id: &Address,
        memory: &mut AccountMemory,
        views: &[AccountView],
        ix_data: &'ix [u8],
    ) -> (r: Result<(Self, (), ()), ProgramError>)
        ensures
            loaded_as(old(memory)@, Self::validated(old(memory)@, views@), r, final(memory)@),
            r matches Ok(loaded) ==> {
                let d = old(memory)@[views@[0].slot as int].data;
                &&& loaded.0.inner.inner.counter.view == views@[0]
                &&& loaded.0.witness.view == views@[1]
                &&& loaded.0.inner.inner.counter.data.value == 1
                &&& loaded.0.inner.inner.counter.data.value as int == d[8] + d[9] * 0x100
                    + d[10] * 0x1_0000 + d[11] * 0x100_0000 + d[12] * 0x1_0000_0000
                    + d[13] * 0x100_0000_0000 + d[14] * 0x1_0000_0000_0000
                    + d[15] * 0x100_0000_0000_0000
            },
    {
        let ghost m = memory@;
        let own = slice_subrange(views, 0, 1);
        let inner = match InnerIncrement::validate_accounts(program_id, memory, own, ix_data) {
            Ok((inner, _, _)) => inner,
            Err(e) => {
                return Err(e);
            },
        };
        proof {
            BorshAccount::<StepCounter>::lemma_loaded(m, views[0], true);
            law_release_undoes_borrow(m, inner.holds());
        }
        match load_next::<InnerIncrement, UncheckedAccount>(memory, inner, views[1], false) {
            Ok((inner, witness)) => {
                let value: u64 = inner.counter.get().value;
                let accounts = OuterNestedGate { inner: Nested { inner }, witness };
                if value != 1 {
                    accounts.release(memory);
                    return Err(ErrorCode::ConstraintRaw.into());
                }
                Ok((accounts, (), ()))
            },
            Err(e) => Err(e),
        }
    }

    /// Counts one step.
    fn update_accounts(&mut self, memory: &mut AccountMemory) -> (r: Result<(), ProgramError>)
        ensures
            match old(self).updated() {
                Ok(accounts) => r == Ok::<(), ProgramError>(()) && *final(self) == accounts,
                Err(e) => r == Err::<(), ProgramError>(e) && *final(self) == *old(self),
            },
            final(memory)@ == old(memory)@,
            r is Ok <==> old(self).inner.inner.counter.data.value < 0xffff_ffff_ffff_ffff,
            r is Ok ==> final(self).inner.inner.counter.data.value
                == old(self).inner.inner.counter.data.value + 1,
            r matches Err(e) ==> e == ProgramError::ArithmeticOverflow && *final(self) == *old(
                self,
            ),
    {
        self.inner.inner.update_accounts(memory)
    }

    /// Writes the counter back.
    fn exit_accounts<'ix>(&mut self, memory: &mut AccountMemory, ix_data: &'ix [u8]) -> (r: Result<
        (),
        ProgramError,
    >)
        ensures
            r == old(self).inner.inner.counter.exited(old(memory)@).result,
            final(self).inner.inner.counter == old(self).inner.inner.counter.exited(
                old(memory)@,
            ).account,
            final(self).witness == old(self).witness,
            final(memory)@ == old(self).inner.inner.counter.exited(old(memory)@).memory,
    {
        assert(self.holds() =~= self.inner.inner.holds());
        let r = self.inner.inner.exit_accounts(memory, ix_data);
        assert(self.holds() =~= self.inner.inner.holds());
        r
    }
}

impl TriedByValidating for OuterNestedGate {
    proof fn law_trying_is_validating_and_updating<'ix>() {
    }
}

/// How many accounts each struct takes.
pub proof fn law_updated_header_sizes()
    ensures
        RotateAuthority::HEADER_SIZE == 3,
        InnerIncrement::HEADER_SIZE == 1,
        OuterNestedIncrement::HEADER_SIZE == InnerIncrement::HEADER_SIZE,
        OuterNestedGate::HEADER_SIZE == InnerIncrement::HEADER_SIZE + 1,
{
}

} // verus!
