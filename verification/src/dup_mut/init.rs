//! The instructions that create accounts.
//!
//! Creating an account takes a call to the System program, so it comes in two steps: a
//! plan, which says what to ask for, and, once the account is there, loading it.

use crate::accounts::compose::{exit_pair, load_pair, pair_exited, pair_loaded};
use crate::accounts::init::{header_initialized, init_header, zeroed};
use crate::accounts::program::{Program, System};
use crate::accounts::serialized::BorshAccount;
use crate::accounts::signer::Signer;
use crate::accounts::slab::Account;
use crate::accounts::{AnchorAccount, Wrapper};
use crate::address::{
    check_seeds, checked_bump, derive_address, derived_view, program_address, Address,
};
use crate::context::Bumps;
use crate::dispatch::{views_within, TryAccounts};
use crate::dup_mut::state::{spec_id, BorshData, Data};
use crate::error::ErrorCode;
use crate::le::{law_overwrite, overwrite};
use crate::memory::{
    borrow_states, can_take, exclusive_hold, held, lemma_exclusive_hold, lemma_no_holds, settled,
    taken, with_data, AccountMemory, AccountView, Held, Hold, Memory, Release, NOT_BORROWED,
};
use crate::schema::{Discriminator, Owner};
use crate::system_program::{borrowed, create_account, CreateRequest};
use solana_program_error::ProgramError;
use vstd::multiset::Multiset;
use vstd::prelude::*;

verus! {

/// The first byte of the seeds of accounts that are kept in place: `d`.
pub const DATA_PREFIX: u8 = 0x64;

/// The first byte of the seeds of accounts in the Borsh format: `b`.
pub const BORSH_PREFIX: u8 = 0x62;

/// The data of an account that is kept in place: a discriminator and a number.
pub const DATA_SPACE: usize = 16;

/// The data of an account in the Borsh format.
pub const BORSH_SPACE: usize = 16;

/// The length of a discriminator.
pub const DISCRIMINATOR_LEN: usize = 8;

/// The seed of a new account and the bump of its address.
#[derive(Clone, Copy, Debug, PartialEq, Eq, Structural)]
pub struct Created {
    pub seed: u8,
    pub bump: u8,
}

/// The seed that the instruction's data begins with.
pub open spec fn seed_of(ix_data: Seq<u8>) -> Result<u8, ProgramError> {
    if ix_data.len() == 0 {
        Err(ErrorCode::InstructionDidNotDeserialize.program_error())
    } else {
        Ok(ix_data[0])
    }
}

/// Reads the seed that the instruction's data begins with.
pub fn parse_seed(ix_data: &[u8]) -> (r: Result<u8, ProgramError>)
    ensures
        r == seed_of(ix_data@),
{
    if ix_data.len() == 0 {
        return Err(ErrorCode::InstructionDidNotDeserialize.into());
    }
    Ok(ix_data[0])
}

/// What the checks come to that precede creating an account: who pays has signed and can
/// be written, and the account is at the address that was derived for it.
pub open spec fn checked_init(
    m: Memory,
    views: Seq<AccountView>,
    seed: u8,
    derived: Option<(Seq<u8>, u8)>,
) -> Result<Created, ProgramError> {
    match Signer::loaded(m, views[0], true) {
        Err(e) => Err(e),
        Ok(_) => match checked_bump(m[views[1].slot as int].address, derived) {
            Err(e) => Err(e),
            Ok(bump) => Ok(Created { seed, bump }),
        },
    }
}

/// Checks what precedes creating an account.
pub fn check_init(
    memory: &mut AccountMemory,
    views: &[AccountView],
    seed: u8,
    derived: Option<(Address, u8)>,
) -> (r: Result<Created, ProgramError>)
    requires
        views@.len() == 3,
        views_within(views@, old(memory)@),
    ensures
        r == checked_init(old(memory)@, views@, seed, derived_view(derived)),
        final(memory)@ == old(memory)@,
{
    proof {
        lemma_no_holds(memory@);
    }
    match Signer::load_mut(memory, views[0]) {
        Ok(_) => {},
        Err(e) => {
            return Err(e);
        },
    }
    match check_seeds(&views[1].address(memory), derived) {
        Ok(bump) => Ok(Created { seed, bump }),
        Err(e) => Err(e),
    }
}

/// The bumps of [`Initialize`].
#[derive(Clone, Copy, Debug, PartialEq, Eq, Structural)]
pub struct InitializeBumps {
    pub data: u8,
}

/// A new account that is kept in place.
pub struct Initialize {
    pub payer: Signer,
    pub data: Account<Data>,
    pub system_program: Program<System>,
}

impl Initialize {
    /// What planning comes to, once the address is derived: who pays must have signed, the
    /// account must be at that address, and neither may be borrowed.
    pub open spec fn planned(
        m: Memory,
        views: Seq<AccountView>,
        seed: u8,
        derived: Option<(Seq<u8>, u8)>,
    ) -> Result<Created, ProgramError> {
        match checked_init(m, views, seed, derived) {
            Err(e) => Err(e),
            Ok(found) => if borrowed(m, views[0]) || borrowed(m, views[1]) {
                Err(ProgramError::AccountBorrowFailed)
            } else {
                Ok(found)
            },
        }
    }

    /// Whether `r` is what planning should give.
    pub open spec fn is_plan(
        program_id: Seq<u8>,
        views: Seq<AccountView>,
        planned: Result<Created, ProgramError>,
        r: Result<CreateRequest, ProgramError>,
    ) -> bool {
        match planned {
            Err(e) => r == Err::<CreateRequest, ProgramError>(e),
            Ok(found) => {
                &&& r matches Ok(request)
                &&& request.payer == views[0]
                &&& request.account == views[1]
                &&& request.space == DATA_SPACE
                &&& request.owner@ == program_id
                &&& request.prefix == DATA_PREFIX
                &&& request.seed == found.seed
                &&& request.bump == found.bump
            },
        }
    }

    /// Decides whether the account may be created at the address that was derived for it,
    /// and what to ask the System program for.
    pub fn plan_at(
        program_id: &Address,
        memory: &mut AccountMemory,
        views: &[AccountView],
        seed: u8,
        derived: Option<(Address, u8)>,
    ) -> (r: Result<CreateRequest, ProgramError>)
        requires
            views@.len() == 3,
            views_within(views@, old(memory)@),
        ensures
            final(memory)@ == old(memory)@,
            Self::is_plan(
                program_id@,
                views@,
                Self::planned(old(memory)@, views@, seed, derived_view(derived)),
                r,
            ),
    {
        let found = match check_init(memory, views, seed, derived) {
            Ok(found) => found,
            Err(e) => {
                return Err(e);
            },
        };
        create_account(
            CreateRequest {
                payer: views[0],
                account: views[1],
                space: DATA_SPACE,
                owner: *program_id,
                prefix: DATA_PREFIX,
                seed: found.seed,
                bump: found.bump,
            },
            memory,
        )
    }

    /// Decides whether the account may be created, and what to ask the System program for.
    /// Its address is the one that `d` and the seed derive.
    pub fn plan(
        program_id: &Address,
        memory: &mut AccountMemory,
        views: &[AccountView],
        ix_data: &[u8],
    ) -> (r: Result<CreateRequest, ProgramError>)
        requires
            views@.len() == 3,
            views_within(views@, old(memory)@),
        ensures
            final(memory)@ == old(memory)@,
            match seed_of(ix_data@) {
                Err(e) => r == Err::<CreateRequest, ProgramError>(e),
                Ok(seed) => Self::is_plan(
                    program_id@,
                    views@,
                    Self::planned(
                        old(memory)@,
                        views@,
                        seed,
                        program_address(seq![seq![DATA_PREFIX], seq![seed]], program_id@),
                    ),
                    r,
                ),
            },
    {
        let seed: u8 = match parse_seed(ix_data) {
            Ok(seed) => seed,
            Err(e) => {
                return Err(e);
            },
        };
        let derived = derive_address(DATA_PREFIX, seed, program_id);
        Self::plan_at(program_id, memory, views, seed, derived)
    }

    /// The memory once the new account has its discriminator.
    pub open spec fn prepared(m: Memory, views: Seq<AccountView>) -> Result<Memory, ProgramError> {
        header_initialized(
            m,
            views[1],
            Data::spec_owner(),
            Data::spec_discriminator(),
            16,
        )
    }

    /// Whether loading the accounts at the derived address gave what it should: the errors
    /// of the checks, in their order, or the accounts with their borrows taken.
    pub open spec fn is_loaded(
        m: Memory,
        views: Seq<AccountView>,
        seed: u8,
        derived: Option<(Seq<u8>, u8)>,
        r: Result<(Self, InitializeBumps, u8), ProgramError>,
        end: Memory,
    ) -> bool {
        match checked_init(m, views, seed, derived) {
            Err(e) => r == Err::<(Self, InitializeBumps, u8), ProgramError>(e) && end == m,
            Ok(found) => match Self::prepared(m, views) {
                Err(e) => r == Err::<(Self, InitializeBumps, u8), ProgramError>(e) && end == m,
                Ok(n) => match pair_loaded::<Account<Data>, Program<System>>(
                    n,
                    (views[1], true),
                    (views[2], false),
                ) {
                    Err(e) => r == Err::<(Self, InitializeBumps, u8), ProgramError>(e) && end == n,
                    Ok((data, system_program)) => {
                        &&& r matches Ok(loaded)
                        &&& loaded.0.payer.view == views[0]
                        &&& loaded.0.data == data
                        &&& loaded.0.system_program == system_program
                        &&& loaded.1.data == found.bump
                        &&& loaded.2 == found.seed
                        &&& end == taken(n, data.holds().add(system_program.holds()))
                    },
                },
            },
        }
    }

    /// Loads the accounts, once the System program has created the new one at the address
    /// that was derived for it.
    pub fn load_at(
        memory: &mut AccountMemory,
        views: &[AccountView],
        seed: u8,
        derived: Option<(Address, u8)>,
    ) -> (r: Result<(Self, InitializeBumps, u8), ProgramError>)
        requires
            views@.len() == 3,
            views_within(views@, old(memory)@),
        ensures
            Self::is_loaded(
                old(memory)@,
                views@,
                seed,
                derived_view(derived),
                r,
                final(memory)@,
            ),
            match r {
                Ok((accounts, bumps, args)) => {
                    &&& accounts.live(final(memory)@)
                    &&& held(final(memory)@, accounts.holds())
                    &&& settled(final(memory)@, accounts.holds()) == borrow_states(old(memory)@)
                },
                Err(_) => borrow_states(final(memory)@) == borrow_states(old(memory)@),
            },
    {
        let found = match check_init(memory, views, seed, derived) {
            Ok(found) => found,
            Err(e) => {
                return Err(e);
            },
        };
        let owner = Data::owner();
        let discriminator = Data::discriminator();
        match init_header(memory, views[1], &owner, &discriminator, DATA_SPACE) {
            Ok(_) => {},
            Err(e) => {
                return Err(e);
            },
        }
        match load_pair::<Account<Data>, Program<System>>(
            memory,
            (views[1], true),
            (views[2], false),
        ) {
            Ok((data, system_program)) => {
                let payer = Signer { view: views[0] };
                let accounts = Initialize { payer, data, system_program };
                Ok((accounts, InitializeBumps { data: found.bump }, found.seed))
            },
            Err(e) => Err(e),
        }
    }
}

impl Bumps for Initialize {
    type Bumps = InitializeBumps;
}

impl Held for Initialize {
    open spec fn holds(&self) -> Multiset<Hold> {
        self.data.holds().add(self.system_program.holds())
    }

    open spec fn live(&self, m: Memory) -> bool {
        &&& self.payer.live(m)
        &&& self.data.live(m)
        &&& self.data.mutable
        &&& self.system_program.live(m)
    }

    proof fn lemma_live_stays(&self, m: Memory, n: Memory) {
        self.payer.lemma_live_stays(m, n);
        self.data.lemma_live_stays(m, n);
        self.system_program.lemma_live_stays(m, n);
    }
}

impl Release for Initialize {
    fn release(self, memory: &mut AccountMemory) {
        (self.data, self.system_program).release(memory);
    }
}

impl TryAccounts for Initialize {
    const HEADER_SIZE: usize = 3;

    type IxArgs<'ix> = u8;

    /// Loads the accounts once the System program has created the new one.
    fn try_accounts<'ix>(
        program_id: &Address,
        memory: &mut AccountMemory,
        views: &[AccountView],
        ix_data: &'ix [u8],
    ) -> (r: Result<(Self, InitializeBumps, u8), ProgramError>)
        ensures
            match seed_of(ix_data@) {
                Err(e) => {
                    &&& r == Err::<(Self, InitializeBumps, u8), ProgramError>(e)
                    &&& final(memory)@ == old(memory)@
                },
                Ok(seed) => Self::is_loaded(
                    old(memory)@,
                    views@,
                    seed,
                    program_address(seq![seq![DATA_PREFIX], seq![seed]], program_id@),
                    r,
                    final(memory)@,
                ),
            },
    {
        let seed: u8 = match parse_seed(ix_data) {
            Ok(seed) => seed,
            Err(e) => {
                return Err(e);
            },
        };
        let derived = derive_address(DATA_PREFIX, seed, program_id);
        Self::load_at(memory, views, seed, derived)
    }

    fn update_accounts(&mut self, memory: &mut AccountMemory) -> (r: Result<(), ProgramError>)
        ensures
            r == Ok::<(), ProgramError>(()),
            *final(self) == *old(self),
            final(memory)@ == old(memory)@,
    {
        Ok(())
    }

    /// The accounts are written in place; nothing is left to write.
    fn exit_accounts<'ix>(&mut self, memory: &mut AccountMemory, ix_data: &'ix [u8]) -> (r: Result<
        (),
        ProgramError,
    >)
        ensures
            r == Ok::<(), ProgramError>(()),
            *final(self) == *old(self),
            final(memory)@ == old(memory)@,
    {
        Ok(())
    }
}

/// The bumps of [`InitializeBorsh`].
#[derive(Clone, Copy, Debug, PartialEq, Eq, Structural)]
pub struct InitializeBorshBumps {
    pub data: u8,
}

/// A new account in the Borsh format.
pub struct InitializeBorsh {
    pub payer: Signer,
    pub data: BorshAccount<BorshData>,
    pub system_program: Program<System>,
}

impl InitializeBorsh {
    /// What planning comes to, once the address is derived: who pays must have signed, the
    /// account must be at that address, and neither may be borrowed.
    pub open spec fn planned(
        m: Memory,
        views: Seq<AccountView>,
        seed: u8,
        derived: Option<(Seq<u8>, u8)>,
    ) -> Result<Created, ProgramError> {
        match checked_init(m, views, seed, derived) {
            Err(e) => Err(e),
            Ok(found) => if borrowed(m, views[0]) || borrowed(m, views[1]) {
                Err(ProgramError::AccountBorrowFailed)
            } else {
                Ok(found)
            },
        }
    }

    /// Whether `r` is what planning should give.
    pub open spec fn is_plan(
        program_id: Seq<u8>,
        views: Seq<AccountView>,
        planned: Result<Created, ProgramError>,
        r: Result<CreateRequest, ProgramError>,
    ) -> bool {
        match planned {
            Err(e) => r == Err::<CreateRequest, ProgramError>(e),
            Ok(found) => {
                &&& r matches Ok(request)
                &&& request.payer == views[0]
                &&& request.account == views[1]
                &&& request.space == BORSH_SPACE
                &&& request.owner@ == program_id
                &&& request.prefix == BORSH_PREFIX
                &&& request.seed == found.seed
                &&& request.bump == found.bump
            },
        }
    }

    /// Decides whether the account may be created at the address that was derived for it,
    /// and what to ask the System program for.
    pub fn plan_at(
        program_id: &Address,
        memory: &mut AccountMemory,
        views: &[AccountView],
        seed: u8,
        derived: Option<(Address, u8)>,
    ) -> (r: Result<CreateRequest, ProgramError>)
        requires
            views@.len() == 3,
            views_within(views@, old(memory)@),
        ensures
            final(memory)@ == old(memory)@,
            Self::is_plan(
                program_id@,
                views@,
                Self::planned(old(memory)@, views@, seed, derived_view(derived)),
                r,
            ),
    {
        let found = match check_init(memory, views, seed, derived) {
            Ok(found) => found,
            Err(e) => {
                return Err(e);
            },
        };
        create_account(
            CreateRequest {
                payer: views[0],
                account: views[1],
                space: BORSH_SPACE,
                owner: *program_id,
                prefix: BORSH_PREFIX,
                seed: found.seed,
                bump: found.bump,
            },
            memory,
        )
    }

    /// Decides whether the account may be created, and what to ask the System program for.
    /// Its address is the one that `b` and the seed derive.
    pub fn plan(
        program_id: &Address,
        memory: &mut AccountMemory,
        views: &[AccountView],
        ix_data: &[u8],
    ) -> (r: Result<CreateRequest, ProgramError>)
        requires
            views@.len() == 3,
            views_within(views@, old(memory)@),
        ensures
            final(memory)@ == old(memory)@,
            match seed_of(ix_data@) {
                Err(e) => r == Err::<CreateRequest, ProgramError>(e),
                Ok(seed) => Self::is_plan(
                    program_id@,
                    views@,
                    Self::planned(
                        old(memory)@,
                        views@,
                        seed,
                        program_address(seq![seq![BORSH_PREFIX], seq![seed]], program_id@),
                    ),
                    r,
                ),
            },
    {
        let seed: u8 = match parse_seed(ix_data) {
            Ok(seed) => seed,
            Err(e) => {
                return Err(e);
            },
        };
        let derived = derive_address(BORSH_PREFIX, seed, program_id);
        Self::plan_at(program_id, memory, views, seed, derived)
    }

    /// The memory once the new account has its discriminator.
    pub open spec fn prepared(m: Memory, views: Seq<AccountView>) -> Result<Memory, ProgramError> {
        header_initialized(
            m,
            views[1],
            BorshData::spec_owner(),
            BorshData::spec_discriminator(),
            8,
        )
    }

    /// Whether loading the accounts at the derived address gave what it should: the errors
    /// of the checks, in their order, or the accounts with their borrows taken.
    pub open spec fn is_loaded(
        m: Memory,
        views: Seq<AccountView>,
        seed: u8,
        derived: Option<(Seq<u8>, u8)>,
        r: Result<(Self, InitializeBorshBumps, u8), ProgramError>,
        end: Memory,
    ) -> bool {
        match checked_init(m, views, seed, derived) {
            Err(e) => r == Err::<(Self, InitializeBorshBumps, u8), ProgramError>(e) && end == m,
            Ok(found) => match Self::prepared(m, views) {
                Err(e) => r == Err::<(Self, InitializeBorshBumps, u8), ProgramError>(e) && end == m,
                Ok(n) => match pair_loaded::<BorshAccount<BorshData>, Program<System>>(
                    n,
                    (views[1], true),
                    (views[2], false),
                ) {
                    Err(e) => {
                        r == Err::<(Self, InitializeBorshBumps, u8), ProgramError>(e) && end == n
                    },
                    Ok((data, system_program)) => {
                        &&& r matches Ok(loaded)
                        &&& loaded.0.payer.view == views[0]
                        &&& loaded.0.data == data
                        &&& loaded.0.system_program == system_program
                        &&& loaded.1.data == found.bump
                        &&& loaded.2 == found.seed
                        &&& end == taken(n, data.holds().add(system_program.holds()))
                    },
                },
            },
        }
    }

    /// Loads the accounts, once the System program has created the new one at the address
    /// that was derived for it.
    pub fn load_at(
        memory: &mut AccountMemory,
        views: &[AccountView],
        seed: u8,
        derived: Option<(Address, u8)>,
    ) -> (r: Result<(Self, InitializeBorshBumps, u8), ProgramError>)
        requires
            views@.len() == 3,
            views_within(views@, old(memory)@),
        ensures
            Self::is_loaded(
                old(memory)@,
                views@,
                seed,
                derived_view(derived),
                r,
                final(memory)@,
            ),
            match r {
                Ok((accounts, bumps, args)) => {
                    &&& accounts.live(final(memory)@)
                    &&& held(final(memory)@, accounts.holds())
                    &&& settled(final(memory)@, accounts.holds()) == borrow_states(old(memory)@)
                },
                Err(_) => borrow_states(final(memory)@) == borrow_states(old(memory)@),
            },
    {
        let found = match check_init(memory, views, seed, derived) {
            Ok(found) => found,
            Err(e) => {
                return Err(e);
            },
        };
        let owner = BorshData::owner();
        let discriminator = BorshData::discriminator();
        match init_header(memory, views[1], &owner, &discriminator, DISCRIMINATOR_LEN) {
            Ok(_) => {},
            Err(e) => {
                return Err(e);
            },
        }
        match load_pair::<BorshAccount<BorshData>, Program<System>>(
            memory,
            (views[1], true),
            (views[2], false),
        ) {
            Ok((data, system_program)) => {
                let payer = Signer { view: views[0] };
                let accounts = InitializeBorsh { payer, data, system_program };
                Ok((accounts, InitializeBorshBumps { data: found.bump }, found.seed))
            },
            Err(e) => Err(e),
        }
    }
}

impl Bumps for InitializeBorsh {
    type Bumps = InitializeBorshBumps;
}

impl Held for InitializeBorsh {
    open spec fn holds(&self) -> Multiset<Hold> {
        self.data.holds().add(self.system_program.holds())
    }

    open spec fn live(&self, m: Memory) -> bool {
        &&& self.payer.live(m)
        &&& self.data.live(m)
        &&& self.data.mutable
        &&& self.system_program.live(m)
    }

    proof fn lemma_live_stays(&self, m: Memory, n: Memory) {
        self.payer.lemma_live_stays(m, n);
        self.data.lemma_live_stays(m, n);
        self.system_program.lemma_live_stays(m, n);
    }
}

impl Release for InitializeBorsh {
    fn release(self, memory: &mut AccountMemory) {
        (self.data, self.system_program).release(memory);
    }
}

impl TryAccounts for InitializeBorsh {
    const HEADER_SIZE: usize = 3;

    type IxArgs<'ix> = u8;

    /// Loads the accounts once the System program has created the new one.
    fn try_accounts<'ix>(
        program_id: &Address,
        memory: &mut AccountMemory,
        views: &[AccountView],
        ix_data: &'ix [u8],
    ) -> (r: Result<(Self, InitializeBorshBumps, u8), ProgramError>)
        ensures
            match seed_of(ix_data@) {
                Err(e) => {
                    &&& r == Err::<(Self, InitializeBorshBumps, u8), ProgramError>(e)
                    &&& final(memory)@ == old(memory)@
                },
                Ok(seed) => Self::is_loaded(
                    old(memory)@,
                    views@,
                    seed,
                    program_address(seq![seq![BORSH_PREFIX], seq![seed]], program_id@),
                    r,
                    final(memory)@,
                ),
            },
    {
        let seed: u8 = match parse_seed(ix_data) {
            Ok(seed) => seed,
            Err(e) => {
                return Err(e);
            },
        };
        let derived = derive_address(BORSH_PREFIX, seed, program_id);
        Self::load_at(memory, views, seed, derived)
    }

    fn update_accounts(&mut self, memory: &mut AccountMemory) -> (r: Result<(), ProgramError>)
        ensures
            r == Ok::<(), ProgramError>(()),
            *final(self) == *old(self),
            final(memory)@ == old(memory)@,
    {
        Ok(())
    }

    /// Writes the new account back.
    fn exit_accounts<'ix>(&mut self, memory: &mut AccountMemory, ix_data: &'ix [u8]) -> (r: Result<
        (),
        ProgramError,
    >)
        ensures
            ({
                let exit = pair_exited(
                    old(self).data,
                    old(self).system_program,
                    old(memory)@,
                );
                &&& r == exit.result
                &&& final(self).payer == old(self).payer
                &&& final(self).data == exit.account.0
                &&& final(self).system_program == exit.account.1
                &&& final(memory)@ == exit.memory
            }),
    {
        exit_pair(&mut self.data, &mut self.system_program, memory)
    }
}

/// How many accounts each struct takes: one for each field.
pub proof fn law_init_header_sizes()
    ensures
        Initialize::HEADER_SIZE == 3,
        InitializeBorsh::HEADER_SIZE == 3,
{
}

/// A new account, all zeros, is given its discriminator, can then be loaded for writing,
/// and reads as zero.
pub proof fn law_new_account_reads_as_zero(m: Memory, views: Seq<AccountView>)
    requires
        views.len() == 3,
        views[1].slot < m.len(),
        m[views[1].slot as int].borrow_state == NOT_BORROWED,
        m[views[1].slot as int].is_writable,
        m[views[1].slot as int].owner == spec_id(),
        m[views[1].slot as int].data.len() == 16,
        zeroed(m[views[1].slot as int].data, 16),
    ensures
        Initialize::prepared(m, views) is Ok,
        Account::<Data>::loaded(Initialize::prepared(m, views)->Ok_0, views[1], true) matches Ok(a)
            && a.read(Initialize::prepared(m, views)->Ok_0) == (Data { value: 0 }),
        InitializeBorsh::prepared(m, views) is Ok,
        BorshAccount::<BorshData>::loaded(
            InitializeBorsh::prepared(m, views)->Ok_0,
            views[1],
            true,
        ) matches Ok(a) && a.data == (BorshData { value: 0 }),
{
    let slot = views[1].slot as int;
    let data = m[slot].data;
    lemma_exclusive_hold(m, views[1]);
    let d = Data::spec_discriminator();
    let b = BorshData::spec_discriminator();
    let nd = with_data(m, slot, overwrite(data, 0, d));
    let nb = with_data(m, slot, overwrite(data, 0, b));
    lemma_exclusive_hold(nd, views[1]);
    lemma_exclusive_hold(nb, views[1]);
    law_overwrite(data, 0, d);
    law_overwrite(data, 0, b);
    assert(overwrite(data, 0, d).take(8) =~= d);
    assert(overwrite(data, 0, b).take(8) =~= b);
    assert(overwrite(data, 0, d).subrange(8, 16) =~= data.subrange(8, 16));
    assert(overwrite(data, 0, b).skip(8) =~= data.skip(8));
}

/// The new account is the only one whose data is exposed, so creating it is never refused
/// for an alias: where it and the program each load alone, they load together.
pub proof fn law_new_account_conflicts_with_nothing(m: Memory, views: Seq<AccountView>)
    requires
        views.len() == 3,
        views[1].slot < m.len(),
        views[2].slot < m.len(),
        Program::<System>::loaded(m, views[2], false) is Ok,
    ensures
        pair_loaded::<Account<Data>, Program<System>>(m, (views[1], true), (views[2], false)) is Ok
            <==> Account::<Data>::loaded(m, views[1], true) is Ok,
        pair_loaded::<BorshAccount<BorshData>, Program<System>>(
            m,
            (views[1], true),
            (views[2], false),
        ) is Ok <==> BorshAccount::<BorshData>::loaded(m, views[1], true) is Ok,
{
    Account::<Data>::lemma_loaded(m, views[1], true);
    BorshAccount::<BorshData>::lemma_loaded(m, views[1], true);
    let h = exclusive_hold(views[1]);
    if can_take(m, h) {
        Program::<System>::lemma_loaded_beside(m, h, views[2], false);
        lemma_no_holds(taken(m, h));
    }
}

} // verus!
