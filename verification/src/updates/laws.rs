//! What the updates come to, told by addresses and bytes.

use crate::accounts::serialized::{AnchorAccountSerialize, BorshAccount, BorshSerializer};
use crate::accounts::Wrapper;
use crate::address::{law_every_address_has_its_bytes, Address};
use crate::laws::borrows::law_exclusive_borrow_empties_the_state;
use crate::laws::bytes::{law_bytes_of_a_number_add_up, law_eight_bytes_make_a_number};
use crate::laws::encoded::law_value_that_fits_is_written_back;
use crate::laws::wrappers::{
    law_any_account_is_unchecked, law_which_serialized_account_loads, law_who_is_a_signer,
};
use crate::memory::{exclusive_hold, taken, AccountView, Held, Hold, Memory};
use crate::schema::{Discriminator, Owner};
use crate::updates::accounts::{
    InnerIncrement, OuterNestedGate, OuterNestedIncrement, RotateAuthority,
};
use crate::updates::state::{spec_program, StepCounter, Vault};
use solana_program_error::ProgramError;
use vstd::multiset::Multiset;
use vstd::prelude::*;

verus! {

/// The accounts belong to the program and begin with eight bytes that tell their type.
pub proof fn law_layout_of_the_updated_accounts()
    ensures
        spec_program() == Seq::new(32, |i: int| 0x42u8),
        Vault::spec_owner() == spec_program(),
        StepCounter::spec_owner() == spec_program(),
        Vault::spec_discriminator() == seq![0x41u8, 0x75, 0x74, 0x68, 0x56, 0x61, 0x75, 0x6c],
        StepCounter::spec_discriminator() == seq![
            0x53u8,
            0x74,
            0x65,
            0x70,
            0x43,
            0x74,
            0x72,
            0x21,
        ],
{
}

/// An authority is encoded as the 32 bytes of its address, in order, where there is room for
/// them, and decoded from as many.
pub proof fn law_encoded_authority(vault: Vault, bytes: Seq<u8>, room: nat)
    ensures
        <BorshSerializer as AnchorAccountSerialize<Vault>>::encoded(vault)
            == vault.current_authority.bytes@,
        <BorshSerializer as AnchorAccountSerialize<Vault>>::encode_error(vault, room) == if room
            >= 32 {
            None::<ProgramError>
        } else {
            Some(ProgramError::AccountDataTooSmall)
        },
        ({
            let r = <BorshSerializer as AnchorAccountSerialize<Vault>>::decoded(bytes);
            &&& r is Ok <==> bytes.len() >= 32
            &&& r matches Ok((value, n)) ==> n == 32 && value.current_authority.bytes@
                == bytes.take(32)
            &&& r matches Err(e) ==> e == ProgramError::InvalidAccountData
        }),
{
    if bytes.len() >= 32 {
        law_every_address_has_its_bytes(bytes.take(32));
    }
}

/// A count is encoded as its eight bytes, least first, where there is room for them, and
/// decoded from as many.
pub proof fn law_encoded_count(counter: StepCounter, bytes: Seq<u8>, room: nat)
    ensures
        ({
            let b = <BorshSerializer as AnchorAccountSerialize<StepCounter>>::encoded(counter);
            &&& b.len() == 8
            &&& counter.value as int == b[0] + b[1] * 0x100 + b[2] * 0x1_0000
                + b[3] * 0x100_0000 + b[4] * 0x1_0000_0000 + b[5] * 0x100_0000_0000
                + b[6] * 0x1_0000_0000_0000 + b[7] * 0x100_0000_0000_0000
        }),
        <BorshSerializer as AnchorAccountSerialize<StepCounter>>::encode_error(counter, room)
            == if room >= 8 {
            None::<ProgramError>
        } else {
            Some(ProgramError::AccountDataTooSmall)
        },
        ({
            let r = <BorshSerializer as AnchorAccountSerialize<StepCounter>>::decoded(bytes);
            &&& r is Ok <==> bytes.len() >= 8
            &&& r matches Ok((value, n)) ==> {
                &&& n == 8
                &&& value.value as int == bytes[0] + bytes[1] * 0x100 + bytes[2] * 0x1_0000
                    + bytes[3] * 0x100_0000 + bytes[4] * 0x1_0000_0000
                    + bytes[5] * 0x100_0000_0000 + bytes[6] * 0x1_0000_0000_0000
                    + bytes[7] * 0x100_0000_0000_0000
            }
            &&& r matches Err(e) ==> e == ProgramError::InvalidAccountData
        }),
{
    law_bytes_of_a_number_add_up(counter.value);
    law_eight_bytes_make_a_number(bytes);
}

/// A counter that is loaded holds the number of its account's bytes eight to fifteen.
pub proof fn law_counter_of_an_account(m: Memory, view: AccountView, mutable: bool)
    requires
        view.slot < m.len(),
    ensures
        BorshAccount::<StepCounter>::loaded(m, view, mutable) matches Ok(counter) ==> {
            let d = m[view.slot as int].data;
            &&& counter.view == view
            &&& d.len() >= 16
            &&& counter.data.value as int == d[8] + d[9] * 0x100 + d[10] * 0x1_0000
                + d[11] * 0x100_0000 + d[12] * 0x1_0000_0000 + d[13] * 0x100_0000_0000
                + d[14] * 0x1_0000_0000_0000 + d[15] * 0x100_0000_0000_0000
        },
{
    law_which_serialized_account_loads::<StepCounter, BorshSerializer>(m, view, mutable);
    let d = m[view.slot as int].data;
    law_encoded_count(StepCounter { value: 0 }, d.skip(8), 8);
}

/// A vault that is loaded names the address of its account's bytes eight to 39.
pub proof fn law_authority_of_an_account(m: Memory, view: AccountView, mutable: bool)
    requires
        view.slot < m.len(),
    ensures
        BorshAccount::<Vault>::loaded(m, view, mutable) matches Ok(vault) ==> {
            let d = m[view.slot as int].data;
            &&& vault.view == view
            &&& d.len() >= 40
            &&& vault.data.current_authority.bytes@ == d.subrange(8, 40)
        },
{
    law_which_serialized_account_loads::<Vault, BorshSerializer>(m, view, mutable);
    if let Ok(vault) = BorshAccount::<Vault>::loaded(m, view, mutable) {
        let d = m[view.slot as int].data;
        law_encoded_authority(vault.data, d.skip(8), 32);
        assert(d.skip(8).take(32) =~= d.subrange(8, 40));
    }
}

/// A vault may be rotated exactly where it loads for writing, the second account signed,
/// and the vault names that account as its authority. Each field wraps the account at its
/// own position; the first of these that fails gives the error.
pub proof fn law_who_may_rotate(m: Memory, views: Seq<AccountView>)
    requires
        views.len() == 3,
        views[0].slot < m.len(),
        views[1].slot < m.len(),
        views[2].slot < m.len(),
    ensures
        ({
            let r = RotateAuthority::validated(m, views);
            let vault = BorshAccount::<Vault>::loaded(m, views[0], true);
            let signer = m[views[1].slot as int];
            &&& r is Ok <==> vault is Ok && signer.is_signer
                && vault->Ok_0.data.current_authority.bytes@ == signer.address
            &&& r matches Ok(accounts) ==> {
                &&& accounts.vault == vault->Ok_0
                &&& accounts.vault.view == views[0]
                &&& accounts.current_authority.view == views[1]
                &&& accounts.new_authority.view == views[2]
                &&& accounts.holds() =~= exclusive_hold(views[0])
            }
            &&& vault matches Err(e) ==> r == Err::<RotateAuthority, ProgramError>(e)
            &&& vault is Ok && !signer.is_signer ==> r == Err::<RotateAuthority, ProgramError>(
                ProgramError::MissingRequiredSignature,
            )
            &&& vault is Ok && signer.is_signer && vault->Ok_0.data.current_authority.bytes@
                != signer.address ==> r == Err::<RotateAuthority, ProgramError>(
                ProgramError::Custom(2001),
            )
        }),
{
    law_which_serialized_account_loads::<Vault, BorshSerializer>(m, views[0], true);
    let h = exclusive_hold(views[0]);
    assert(h.add(Multiset::<Hold>::empty()) =~= h);
    law_exclusive_borrow_empties_the_state(m, views[0]);
    law_who_is_a_signer(taken(m, h), views[1], false);
    law_any_account_is_unchecked(taken(m, h), views[2], false);
}

/// Rotating gives the vault the address of the new authority, byte for byte, and changes
/// nothing else. Trying the accounts is validating them and then rotating.
pub proof fn law_rotating_names_the_new_authority(
    accounts: RotateAuthority,
    m: Memory,
    views: Seq<AccountView>,
)
    requires
        m[accounts.new_authority.view.slot as int].address.len() == 32,
    ensures
        ({
            let after = accounts.updated(m);
            &&& after.vault.data.current_authority.bytes@
                == m[accounts.new_authority.view.slot as int].address
            &&& after.vault.view == accounts.vault.view
            &&& after.vault.mutable == accounts.vault.mutable
            &&& after.vault.borrowed == accounts.vault.borrowed
            &&& after.vault.payload_len == accounts.vault.payload_len
            &&& after.current_authority == accounts.current_authority
            &&& after.new_authority == accounts.new_authority
        }),
        match RotateAuthority::validated(m, views) {
            Ok(valid) => RotateAuthority::tried(m, views) == Ok::<RotateAuthority, ProgramError>(
                valid.updated(m),
            ),
            Err(e) => RotateAuthority::tried(m, views) == Err::<RotateAuthority, ProgramError>(e),
        },
{
    law_every_address_has_its_bytes(m[accounts.new_authority.view.slot as int].address);
}

/// Writing a rotated vault back puts the new authority's address into the 32 bytes after the
/// discriminator, in order, and leaves every other account as it was.
pub proof fn law_rotated_vault_is_written_back(
    vault: BorshAccount<Vault>,
    m: Memory,
    address: Address,
)
    requires
        vault.view.slot < m.len(),
        vault.mutable,
        vault.borrowed,
        vault.data.current_authority.bytes@ == address.bytes@,
        m[vault.view.slot as int].data.len() >= 40,
    ensures
        ({
            let slot = vault.view.slot as int;
            let exit = vault.exited(m);
            &&& exit.result is Ok
            &&& exit.memory[slot].data.subrange(8, 40) == address.bytes@
            &&& exit.memory[slot].data.take(8) == m[slot].data.take(8)
            &&& exit.memory.len() == m.len()
            &&& forall|i: int| 0 <= i < m.len() && i != slot ==> #[trigger] exit.memory[i] == m[i]
            &&& exit.account.holds() == exclusive_hold(vault.view)
        }),
{
    let slot = vault.view.slot as int;
    law_encoded_authority(vault.data, Seq::empty(), (m[slot].data.len() - 8) as nat);
    law_value_that_fits_is_written_back(vault, m);
    assert(vault.exited(m).memory[slot].data.take(8) =~= m[slot].data.take(8));
}

/// A step takes a counter to the next number, and is refused at the limit; nested or not,
/// it is one step. Trying the accounts is validating them and then taking the step.
pub proof fn law_a_step_counts_one(
    inner: InnerIncrement,
    outer: OuterNestedIncrement,
    gate: OuterNestedGate,
)
    ensures
        ({
            let c = inner.counter;
            let r = inner.updated();
            &&& r is Ok <==> c.data.value < 0xffff_ffff_ffff_ffff
            &&& r matches Ok(next) ==> {
                &&& next.counter.data.value == c.data.value + 1
                &&& next.counter.view == c.view
                &&& next.counter.mutable == c.mutable
                &&& next.counter.borrowed == c.borrowed
                &&& next.counter.payload_len == c.payload_len
            }
            &&& r matches Err(e) ==> e == ProgramError::ArithmeticOverflow
        }),
        match outer.inner.inner.updated() {
            Ok(next) => outer.updated() matches Ok(after) && after.inner.inner == next,
            Err(e) => outer.updated() == Err::<OuterNestedIncrement, ProgramError>(e),
        },
        match gate.inner.inner.updated() {
            Ok(next) => gate.updated() matches Ok(after) && after.inner.inner == next
                && after.witness == gate.witness,
            Err(e) => gate.updated() == Err::<OuterNestedGate, ProgramError>(e),
        },
{
}

/// Which counters are taken: those that load for writing; where there is a gate, only those
/// that stand at one before the step. Each field wraps the account at its own position.
pub proof fn law_which_counters_are_taken(m: Memory, views: Seq<AccountView>)
    requires
        views.len() == 2,
        views[0].slot < m.len(),
        views[1].slot < m.len(),
    ensures
        ({
            let counter = BorshAccount::<StepCounter>::loaded(m, views[0], true);
            let own = views.subrange(0, 1);
            let inner = InnerIncrement::validated(m, own);
            let outer = OuterNestedIncrement::validated(m, own);
            let gate = OuterNestedGate::validated(m, views);
            &&& inner is Ok <==> counter is Ok
            &&& outer is Ok <==> counter is Ok
            &&& gate is Ok <==> counter is Ok && counter->Ok_0.data.value == 1
            &&& inner matches Ok(x) ==> x.counter == counter->Ok_0 && x.counter.view == views[0]
            &&& outer matches Ok(x) ==> x.inner.inner.counter == counter->Ok_0
            &&& gate matches Ok(x) ==> x.inner.inner.counter == counter->Ok_0 && x.witness.view
                == views[1]
            &&& counter matches Err(e) ==> inner == Err::<InnerIncrement, ProgramError>(e) && outer
                == Err::<OuterNestedIncrement, ProgramError>(e) && gate == Err::<
                OuterNestedGate,
                ProgramError,
            >(e)
            &&& counter is Ok && counter->Ok_0.data.value != 1 ==> gate == Err::<
                OuterNestedGate,
                ProgramError,
            >(ProgramError::Custom(2003))
        }),
        match InnerIncrement::validated(m, views) {
            Ok(valid) => InnerIncrement::tried(m, views) == valid.updated(),
            Err(e) => InnerIncrement::tried(m, views) == Err::<InnerIncrement, ProgramError>(e),
        },
        match OuterNestedIncrement::validated(m, views) {
            Ok(valid) => OuterNestedIncrement::tried(m, views) == valid.updated(),
            Err(e) => OuterNestedIncrement::tried(m, views) == Err::<
                OuterNestedIncrement,
                ProgramError,
            >(e),
        },
        match OuterNestedGate::validated(m, views) {
            Ok(valid) => OuterNestedGate::tried(m, views) == valid.updated(),
            Err(e) => OuterNestedGate::tried(m, views) == Err::<OuterNestedGate, ProgramError>(e),
        },
{
    law_counter_of_an_account(m, views[0], true);
}

} // verus!
