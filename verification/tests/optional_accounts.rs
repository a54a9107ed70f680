//! Accounts that may be absent: the program's own address stands for none.

use anchor_lang::accounts::compose::{load_account, load_optional};
use anchor_lang::accounts::slab::Account;
use anchor_lang::accounts::unchecked_account::UncheckedAccount;
use anchor_lang::dup_mut::state::{id, Data};
use anchor_lang::memory::{AccountMemory, AccountView, Release, RuntimeAccount};
use anchor_lang::schema::Discriminator;
use anchor_lang::Address;
use solana_program_error::ProgramError;

fn data_account(memory: &mut AccountMemory, value: u64) -> AccountView {
    let mut data = Data::discriminator();
    data.extend_from_slice(&value.to_le_bytes());
    memory.push(RuntimeAccount {
        borrow_state: 255,
        is_signer: false,
        is_writable: true,
        executable: false,
        address: Address::new_from_array([0x31; 32]),
        owner: id(),
        lamports: 10_000_000,
        data,
    })
}

fn wallet(memory: &mut AccountMemory) -> AccountView {
    memory.push(RuntimeAccount {
        borrow_state: 255,
        is_signer: true,
        is_writable: true,
        executable: false,
        address: Address::new_from_array([0x07; 32]),
        owner: Address::new_from_array([0; 32]),
        lamports: 10_000_000_000,
        data: Vec::new(),
    })
}

fn sentinel(memory: &mut AccountMemory) -> AccountView {
    memory.push(RuntimeAccount {
        borrow_state: 255,
        is_signer: false,
        is_writable: true,
        executable: true,
        address: id(),
        owner: Address::new_from_array([0x09; 32]),
        lamports: 1,
        data: Vec::new(),
    })
}

fn optional(
    memory: &mut AccountMemory,
    view: AccountView,
    mutable: bool,
) -> Result<Option<Account<Data>>, ProgramError> {
    load_optional::<Account<Data>>(&id(), memory, view, mutable)
}

#[test]
fn program_id_sentinel_maps_optional_to_none() {
    let mut memory = AccountMemory::new();
    let none = sentinel(&mut memory);
    let loaded = optional(&mut memory, none, false);
    assert!(loaded.expect("program id sentinel should load as None").is_none());
    assert_eq!(memory.account(none).borrow_state, 255);
}

#[test]
fn valid_optional_some_loads_and_wrong_non_sentinel_fails() {
    let mut memory = AccountMemory::new();
    let data = data_account(&mut memory, 1);
    let payer = wallet(&mut memory);
    let loaded = optional(&mut memory, data, false).expect("valid optional Some should load");
    assert_eq!(loaded.as_ref().unwrap().get(&memory).value, 1);
    assert_eq!(memory.account(data).borrow_state, 254);
    let err = match optional(&mut memory, payer, false) {
        Ok(_) => panic!("wrong non-sentinel account should fail normal validation"),
        Err(e) => e,
    };
    assert_eq!(err, ProgramError::IllegalOwner);
    assert_eq!(memory.account(payer).borrow_state, 255);
}

#[test]
fn mutable_optional_alias_conflicts_only_when_some() {
    let mut memory = AccountMemory::new();
    let data = data_account(&mut memory, 1);
    let none = sentinel(&mut memory);
    let first = load_account::<Account<Data>>(&mut memory, data, true).ok().unwrap();
    let second = optional(&mut memory, none, true);
    assert!(second.expect("a None optional account holds no borrow").is_none());
    first.set(&mut memory, Data { value: 8 });
    assert_eq!(first.get(&memory).value, 8);
    first.release(&mut memory);
    assert_eq!(memory.account(data).data[8..16], 8u64.to_le_bytes());

    let _first = load_account::<Account<Data>>(&mut memory, data, true).ok().unwrap();
    assert_eq!(
        optional(&mut memory, data, true).err(),
        Some(ProgramError::AccountBorrowFailed),
        "a Some alias of a mutable account should fail to borrow"
    );
}

#[test]
fn duplicate_optional_some_spy_accounts_both_load() {
    let mut memory = AccountMemory::new();
    let data = data_account(&mut memory, 1);
    for _ in 0..2 {
        let loaded = load_optional::<UncheckedAccount>(&id(), &mut memory, data, true);
        assert!(loaded.expect("wrappers without a data borrow may alias").is_some());
    }
}

#[test]
fn duplicate_optional_none_sentinels_skip_spy_load_mut() {
    let mut memory = AccountMemory::new();
    let none = sentinel(&mut memory);
    for _ in 0..2 {
        let loaded = load_optional::<UncheckedAccount>(&id(), &mut memory, none, true);
        assert!(loaded.expect("duplicate None sentinels should stay silent").is_none());
    }
}

#[test]
fn double_optional_none_sentinels_stay_silent() {
    let mut memory = AccountMemory::new();
    let none = sentinel(&mut memory);
    for _ in 0..2 {
        let loaded = optional(&mut memory, none, true);
        assert!(loaded.expect("duplicate None sentinels should stay silent").is_none());
    }
    assert_eq!(memory.account(none).borrow_state, 255);
}

#[test]
fn double_optional_duplicate_some_fails_to_borrow() {
    let mut memory = AccountMemory::new();
    let data = data_account(&mut memory, 1);
    let first = optional(&mut memory, data, true);
    assert!(first.is_ok());
    assert_eq!(
        optional(&mut memory, data, true).err(),
        Some(ProgramError::AccountBorrowFailed),
        "a duplicate Some alias should fail to borrow"
    );
}
