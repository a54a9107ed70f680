//! Creating accounts, told by flags, addresses and bytes.

use crate::accounts::init::header_initialized;
use crate::accounts::program::{system_program_id, System};
use crate::accounts::serialized::BorshSerializer;
use crate::address::{checked_bump, derived_view, Address};
use crate::dup_mut::init::{
    checked_init, seed_of, Initialize, InitializeBorsh, InitializeBorshBumps, InitializeBumps,
};
use crate::dup_mut::numbers::law_borsh_number;
use crate::dup_mut::state::{spec_id, BorshData, Data};
use crate::laws::borrows::law_exclusive_borrow_empties_the_state;
use crate::laws::wrappers::{
    law_which_account_is_the_program, law_which_serialized_account_loads,
    law_which_typed_account_loads,
};
use crate::memory::{exclusive_hold, taken, AccountModel, AccountView, Hold, Memory};
use crate::schema::Discriminator;
use crate::system_program::CreateRequest;
use solana_program_error::ProgramError;
use vstd::multiset::Multiset;
use vstd::prelude::*;

verus! {

/// The seed is the first byte of the instruction's data; without one the data is invalid.
pub proof fn law_seed_is_the_first_byte(ix_data: Seq<u8>)
    ensures
        ix_data.len() > 0 ==> seed_of(ix_data) == Ok::<u8, ProgramError>(ix_data[0]),
        ix_data.len() == 0 ==> seed_of(ix_data) == Err::<u8, ProgramError>(
            ProgramError::InvalidInstructionData,
        ),
{
}

/// The bump is that of the derived address, for the account at that address; there is
/// none for any other.
pub proof fn law_bump_of_the_derived_address(address: Seq<u8>, derived: Option<(Address, u8)>)
    ensures
        ({
            let r = checked_bump(address, derived_view(derived));
            &&& r is Ok <==> derived is Some && (derived->0).0.bytes@ == address
            &&& r matches Ok(bump) ==> bump == (derived->0).1
            &&& r matches Err(e) ==> e == ProgramError::InvalidSeeds
            &&& derived_view(derived) is Some <==> derived is Some
            &&& derived is Some ==> (derived_view(derived)->0).0 == (derived->0).0.bytes@
                && (derived_view(derived)->0).1 == (derived->0).1
        }),
{
}

/// An account may be created where the first account signed and can be written, and the
/// second is at the derived address.
pub proof fn law_who_may_create(
    m: Memory,
    views: Seq<AccountView>,
    seed: u8,
    derived: Option<(Seq<u8>, u8)>,
)
    ensures
        ({
            let payer = m[views[0].slot as int];
            let account = m[views[1].slot as int];
            let r = checked_init(m, views, seed, derived);
            &&& r is Ok <==> payer.is_signer && payer.is_writable && derived is Some
                && (derived->0).0 == account.address
            &&& r matches Ok(created) ==> created.seed == seed && created.bump == (derived->0).1
            &&& r matches Err(e) ==> if !payer.is_signer || !payer.is_writable {
                e == ProgramError::MissingRequiredSignature
            } else {
                e == ProgramError::InvalidSeeds
            }
        }),
{
}

/// A new account gets its discriminator exactly where nobody borrows it, the owner is the
/// one asked for, it is large enough, and the bytes to be written are zero; no other byte
/// and no other account changes. The first of these that fails gives the error.
pub proof fn law_new_account_gets_its_discriminator(
    m: Memory,
    view: AccountView,
    owner: Seq<u8>,
    discriminator: Seq<u8>,
    min_len: nat,
)
    requires
        view.slot < m.len(),
        discriminator.len() <= min_len,
    ensures
        ({
            let a = m[view.slot as int];
            let r = header_initialized(m, view, owner, discriminator, min_len);
            let blank = forall|i: int|
                0 <= i < discriminator.len() ==> #[trigger] a.data[i] == 0;
            &&& r is Ok <==> a.borrow_state == 255 && a.owner == owner && a.data.len() >= min_len
                && blank
            &&& r matches Ok(n) ==> {
                let b = n[view.slot as int];
                &&& n.len() == m.len()
                &&& forall|i: int| 0 <= i < m.len() && i != view.slot ==> #[trigger] n[i] == m[i]
                &&& b == (AccountModel { data: b.data, ..a })
                &&& b.data.len() == a.data.len()
                &&& forall|i: int|
                    0 <= i < a.data.len() ==> #[trigger] b.data[i] == if i < discriminator.len() {
                        discriminator[i]
                    } else {
                        a.data[i]
                    }
            }
            &&& r matches Err(e) ==> if a.borrow_state != 255 {
                e == ProgramError::AccountBorrowFailed
            } else if a.owner != owner {
                e == ProgramError::IllegalOwner
            } else if a.data.len() < min_len {
                e == ProgramError::AccountDataTooSmall
            } else {
                e == ProgramError::AccountAlreadyInitialized
            }
        }),
{
    law_exclusive_borrow_empties_the_state(m, view);
}

/// What [`Initialize`] asks for: where who pays signed and can be written, the account is at
/// the derived address, and neither is borrowed, exactly 16 bytes for this program at the
/// address that the prefix, the seed and the bump give.
pub proof fn law_initialize_is_planned(
    program_id: Seq<u8>,
    m: Memory,
    views: Seq<AccountView>,
    seed: u8,
    derived: Option<(Seq<u8>, u8)>,
    r: Result<CreateRequest, ProgramError>,
)
    ensures
        Initialize::is_plan(
            program_id,
            views,
            Initialize::planned(m, views, seed, derived),
            r,
        ) <==> {
            let payer = m[views[0].slot as int];
            let account = m[views[1].slot as int];
            if !payer.is_signer || !payer.is_writable {
                r == Err::<CreateRequest, ProgramError>(ProgramError::MissingRequiredSignature)
            } else if derived is None || (derived->0).0 != account.address {
                r == Err::<CreateRequest, ProgramError>(ProgramError::InvalidSeeds)
            } else if payer.borrow_state != 255 || account.borrow_state != 255 {
                r == Err::<CreateRequest, ProgramError>(ProgramError::AccountBorrowFailed)
            } else {
                &&& r matches Ok(request)
                &&& request.payer == views[0]
                &&& request.account == views[1]
                &&& request.space == 16
                &&& request.owner.bytes@ == program_id
                &&& request.prefix == 0x64
                &&& request.seed == seed
                &&& request.bump == (derived->0).1
            }
        },
{
    law_who_may_create(m, views, seed, derived);
}

/// What [`InitializeBorsh`] asks for: where who pays signed and can be written, the account is at
/// the derived address, and neither is borrowed, exactly 16 bytes for this program at the
/// address that the prefix, the seed and the bump give.
pub proof fn law_initialize_borsh_is_planned(
    program_id: Seq<u8>,
    m: Memory,
    views: Seq<AccountView>,
    seed: u8,
    derived: Option<(Seq<u8>, u8)>,
    r: Result<CreateRequest, ProgramError>,
)
    ensures
        InitializeBorsh::is_plan(
            program_id,
            views,
            InitializeBorsh::planned(m, views, seed, derived),
            r,
        ) <==> {
            let payer = m[views[0].slot as int];
            let account = m[views[1].slot as int];
            if !payer.is_signer || !payer.is_writable {
                r == Err::<CreateRequest, ProgramError>(ProgramError::MissingRequiredSignature)
            } else if derived is None || (derived->0).0 != account.address {
                r == Err::<CreateRequest, ProgramError>(ProgramError::InvalidSeeds)
            } else if payer.borrow_state != 255 || account.borrow_state != 255 {
                r == Err::<CreateRequest, ProgramError>(ProgramError::AccountBorrowFailed)
            } else {
                &&& r matches Ok(request)
                &&& request.payer == views[0]
                &&& request.account == views[1]
                &&& request.space == 16
                &&& request.owner.bytes@ == program_id
                &&& request.prefix == 0x62
                &&& request.seed == seed
                &&& request.bump == (derived->0).1
            }
        },
{
    law_who_may_create(m, views, seed, derived);
}

/// [`Initialize`] gives its account the discriminator of its type exactly where nobody borrows
/// it, the program owns it, it has 16 bytes or more, and its first eight bytes are zero.
pub proof fn law_initialize_is_prepared(m: Memory, views: Seq<AccountView>)
    requires
        views[1].slot < m.len(),
    ensures
        ({
            let a = m[views[1].slot as int];
            let r = Initialize::prepared(m, views);
            &&& r is Ok <==> a.borrow_state == 255 && a.owner == spec_id() && a.data.len() >= 16
                && (forall|i: int| 0 <= i < 8 ==> #[trigger] a.data[i] == 0)
            &&& r matches Ok(n) ==> {
                let b = n[views[1].slot as int];
                &&& n.len() == m.len()
                &&& forall|i: int|
                    0 <= i < m.len() && i != views[1].slot ==> #[trigger] n[i] == m[i]
                &&& b == (AccountModel { data: b.data, ..a })
                &&& b.data.len() == a.data.len()
                &&& b.data.take(8) == Data::spec_discriminator()
                &&& forall|i: int| 8 <= i < a.data.len() ==> #[trigger] b.data[i] == a.data[i]
            }
            &&& r matches Err(e) ==> if a.borrow_state != 255 {
                e == ProgramError::AccountBorrowFailed
            } else if a.owner != spec_id() {
                e == ProgramError::IllegalOwner
            } else if a.data.len() < 16 {
                e == ProgramError::AccountDataTooSmall
            } else {
                e == ProgramError::AccountAlreadyInitialized
            }
        }),
{
    let a = m[views[1].slot as int];
    let d = Data::spec_discriminator();
    law_new_account_gets_its_discriminator(m, views[1], spec_id(), d, 16);
    if let Ok(n) = Initialize::prepared(m, views) {
        assert(n[views[1].slot as int].data.take(8) =~= d);
    }
}

/// [`InitializeBorsh`] gives its account the discriminator of its type exactly where nobody borrows
/// it, the program owns it, it has 8 bytes or more, and its first eight bytes are zero.
pub proof fn law_initialize_borsh_is_prepared(m: Memory, views: Seq<AccountView>)
    requires
        views[1].slot < m.len(),
    ensures
        ({
            let a = m[views[1].slot as int];
            let r = InitializeBorsh::prepared(m, views);
            &&& r is Ok <==> a.borrow_state == 255 && a.owner == spec_id() && a.data.len() >= 8
                && (forall|i: int| 0 <= i < 8 ==> #[trigger] a.data[i] == 0)
            &&& r matches Ok(n) ==> {
                let b = n[views[1].slot as int];
                &&& n.len() == m.len()
                &&& forall|i: int|
                    0 <= i < m.len() && i != views[1].slot ==> #[trigger] n[i] == m[i]
                &&& b == (AccountModel { data: b.data, ..a })
                &&& b.data.len() == a.data.len()
                &&& b.data.take(8) == BorshData::spec_discriminator()
                &&& forall|i: int| 8 <= i < a.data.len() ==> #[trigger] b.data[i] == a.data[i]
            }
            &&& r matches Err(e) ==> if a.borrow_state != 255 {
                e == ProgramError::AccountBorrowFailed
            } else if a.owner != spec_id() {
                e == ProgramError::IllegalOwner
            } else if a.data.len() < 8 {
                e == ProgramError::AccountDataTooSmall
            } else {
                e == ProgramError::AccountAlreadyInitialized
            }
        }),
{
    let a = m[views[1].slot as int];
    let d = BorshData::spec_discriminator();
    law_new_account_gets_its_discriminator(m, views[1], spec_id(), d, 8);
    if let Ok(n) = InitializeBorsh::prepared(m, views) {
        assert(n[views[1].slot as int].data.take(8) =~= d);
    }
}

/// What loading [`Initialize`] gives: each field wraps the account at its own position, and
/// the seed and the bump are those of the address. The account that was created has its
/// discriminator and is borrowed; where loading fails before that is written, nothing
/// changes.
pub proof fn law_initialize_is_loaded(
    m: Memory,
    views: Seq<AccountView>,
    seed: u8,
    derived: Option<(Seq<u8>, u8)>,
    r: Result<(Initialize, InitializeBumps, u8), ProgramError>,
    end: Memory,
)
    requires
        views.len() == 3,
        views[0].slot < m.len(),
        views[1].slot < m.len(),
        views[2].slot < m.len(),
        Initialize::is_loaded(m, views, seed, derived, r, end),
    ensures
        ({
            let payer = m[views[0].slot as int];
            let account = m[views[1].slot as int];
            let program = m[views[2].slot as int];
            let prepared = Initialize::prepared(m, views);
            let at_address = derived is Some && (derived->0).0 == account.address;
            let system = program.address == Seq::new(32, |i: int| 0u8) && program.executable;
            &&& r is Ok <==> payer.is_signer && payer.is_writable && at_address && prepared is Ok
                && account.is_writable && system
            &&& r matches Ok(loaded) ==> {
                &&& loaded.0.payer.view == views[0]
                &&& loaded.0.data.view == views[1]
                &&& loaded.0.data.mutable
                &&& loaded.0.system_program.view == views[2]
                &&& loaded.1.data == (derived->0).1
                &&& loaded.2 == seed
                &&& end == prepared->Ok_0.update(
                    views[1].slot as int,
                    AccountModel {
                        borrow_state: 0,
                        ..prepared->Ok_0[views[1].slot as int]
                    },
                )
            }
            &&& r matches Err(e) ==> {
                &&& if !payer.is_signer || !payer.is_writable {
                    e == ProgramError::MissingRequiredSignature && end == m
                } else if !at_address {
                    e == ProgramError::InvalidSeeds && end == m
                } else if prepared is Err {
                    prepared == Err::<Memory, ProgramError>(e) && end == m
                } else {
                    &&& end == prepared->Ok_0
                    &&& if !account.is_writable {
                        e == ProgramError::Custom(2000)
                    } else if program.address != Seq::new(32, |i: int| 0u8) {
                        e == ProgramError::IncorrectProgramId
                    } else {
                        e == ProgramError::Custom(2007)
                    }
                }
            }
        }),
{
    let slot = views[1].slot as int;
    law_who_may_create(m, views, seed, derived);
    law_initialize_is_prepared(m, views);
    assert(system_program_id() =~= Seq::new(32, |i: int| 0u8));
    if let Ok(n) = Initialize::prepared(m, views) {
        law_exclusive_borrow_empties_the_state(n, views[1]);
        assert forall|i: int| 0 <= i < 8 implies #[trigger] n[slot].data[i]
            == Data::spec_discriminator()[i] by {
            assert(n[slot].data.take(8)[i] == n[slot].data[i]);
        }
        law_which_typed_account_loads::<Data>(n, views[1], true);
        let h = exclusive_hold(views[1]);
        assert(h.add(Multiset::<Hold>::empty()) =~= h);
        law_which_account_is_the_program::<System>(taken(n, h), views[2], false);
    }
}

/// What loading [`InitializeBorsh`] gives: each field wraps the account at its own position, and
/// the seed and the bump are those of the address. The account that was created has its
/// discriminator and is borrowed; where loading fails before that is written, nothing
/// changes.
pub proof fn law_initialize_borsh_is_loaded(
    m: Memory,
    views: Seq<AccountView>,
    seed: u8,
    derived: Option<(Seq<u8>, u8)>,
    r: Result<(InitializeBorsh, InitializeBorshBumps, u8), ProgramError>,
    end: Memory,
)
    requires
        views.len() == 3,
        views[0].slot < m.len(),
        views[1].slot < m.len(),
        views[2].slot < m.len(),
        InitializeBorsh::is_loaded(m, views, seed, derived, r, end),
    ensures
        ({
            let payer = m[views[0].slot as int];
            let account = m[views[1].slot as int];
            let program = m[views[2].slot as int];
            let prepared = InitializeBorsh::prepared(m, views);
            let at_address = derived is Some && (derived->0).0 == account.address;
            let system = program.address == Seq::new(32, |i: int| 0u8) && program.executable;
            &&& r is Ok <==> payer.is_signer && payer.is_writable && at_address && prepared is Ok
                && account.is_writable && account.data.len() >= 16 && system
            &&& r matches Ok(loaded) ==> {
                &&& loaded.0.payer.view == views[0]
                &&& loaded.0.data.view == views[1]
                &&& loaded.0.data.mutable
                &&& loaded.0.system_program.view == views[2]
                &&& loaded.1.data == (derived->0).1
                &&& loaded.2 == seed
                &&& loaded.0.data.data.value as int == account.data[8]
                    + account.data[9] * 0x100 + account.data[10] * 0x1_0000
                    + account.data[11] * 0x100_0000 + account.data[12] * 0x1_0000_0000
                    + account.data[13] * 0x100_0000_0000
                    + account.data[14] * 0x1_0000_0000_0000
                    + account.data[15] * 0x100_0000_0000_0000
                &&& loaded.0.data.borrowed
                &&& end == prepared->Ok_0.update(
                    views[1].slot as int,
                    AccountModel {
                        borrow_state: 0,
                        ..prepared->Ok_0[views[1].slot as int]
                    },
                )
            }
            &&& r matches Err(e) ==> {
                &&& if !payer.is_signer || !payer.is_writable {
                    e == ProgramError::MissingRequiredSignature && end == m
                } else if !at_address {
                    e == ProgramError::InvalidSeeds && end == m
                } else if prepared is Err {
                    prepared == Err::<Memory, ProgramError>(e) && end == m
                } else {
                    &&& end == prepared->Ok_0
                    &&& if !account.is_writable {
                        e == ProgramError::Custom(2000)
                    } else if account.data.len() < 16 {
                        e == ProgramError::InvalidAccountData
                    } else if program.address != Seq::new(32, |i: int| 0u8) {
                        e == ProgramError::IncorrectProgramId
                    } else {
                        e == ProgramError::Custom(2007)
                    }
                }
            }
        }),
{
    let slot = views[1].slot as int;
    law_who_may_create(m, views, seed, derived);
    law_initialize_borsh_is_prepared(m, views);
    assert(system_program_id() =~= Seq::new(32, |i: int| 0u8));
    if let Ok(n) = InitializeBorsh::prepared(m, views) {
        law_exclusive_borrow_empties_the_state(n, views[1]);
        assert forall|i: int| 0 <= i < 8 implies #[trigger] n[slot].data[i]
            == BorshData::spec_discriminator()[i] by {
            assert(n[slot].data.take(8)[i] == n[slot].data[i]);
        }
        law_which_serialized_account_loads::<BorshData, BorshSerializer>(n, views[1], true);
        law_borsh_number(BorshData { value: 0 }, n[slot].data.skip(8), 8);
        let h = exclusive_hold(views[1]);
        assert(h.add(Multiset::<Hold>::empty()) =~= h);
        law_which_account_is_the_program::<System>(taken(n, h), views[2], false);
    }
}

} // verus!
