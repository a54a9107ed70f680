//! Updates run after validation and before the handler.

use anchor_lang::cursor::append_account;
use anchor_lang::memory::{AccountMemory, AccountView, Release, RuntimeAccount};
use anchor_lang::schema::Discriminator;
use anchor_lang::updates::accounts::{
    InnerIncrement, OuterNestedGate, OuterNestedIncrement, RotateAuthority,
};
use anchor_lang::updates::rotate_authority;
use anchor_lang::updates::state::{StepCounter, Vault};
use anchor_lang::{AccountCursor, Address, ErrorCode, TryAccounts};
use solana_program_error::ProgramError;

const PROGRAM_ID: [u8; 32] = [0x42; 32];
const OLD_AUTHORITY: [u8; 32] = [0x10; 32];
const NEW_AUTHORITY: [u8; 32] = [0x20; 32];

fn program_id() -> Address {
    Address::new_from_array(PROGRAM_ID)
}

fn account(address: [u8; 32], signer: bool, writable: bool, data: Vec<u8>) -> RuntimeAccount {
    RuntimeAccount {
        borrow_state: 255,
        is_signer: signer,
        is_writable: writable,
        executable: false,
        address: Address::new_from_array(address),
        owner: program_id(),
        lamports: 0,
        data,
    }
}

fn vault_account(authority: [u8; 32]) -> RuntimeAccount {
    let mut data = Vault::discriminator();
    data.extend_from_slice(&authority);
    account([0xAA; 32], false, true, data)
}

fn signer_account(address: [u8; 32], signer: bool) -> RuntimeAccount {
    account(address, signer, false, Vec::new())
}

fn unchecked_account(address: [u8; 32]) -> RuntimeAccount {
    account(address, false, false, Vec::new())
}

fn counter_account(value: u64) -> RuntimeAccount {
    let mut data = StepCounter::discriminator();
    data.extend_from_slice(&value.to_le_bytes());
    account([0xAC; 32], false, true, data)
}

fn memory_of(accounts: Vec<RuntimeAccount>) -> (AccountMemory, Vec<AccountView>) {
    let mut memory = AccountMemory::new();
    let views = accounts.into_iter().map(|a| memory.push(a)).collect();
    (memory, views)
}

fn expect_err<T>(result: Result<T, ProgramError>) -> ProgramError {
    match result {
        Ok(_) => panic!("expected Err, got Ok"),
        Err(err) => err,
    }
}

fn read_vault_authority(memory: &AccountMemory, view: AccountView) -> [u8; 32] {
    let mut bytes = [0u8; 32];
    bytes.copy_from_slice(&memory.account(view).data[8..40]);
    bytes
}

fn read_counter_value(memory: &AccountMemory, view: AccountView) -> u64 {
    let mut bytes = [0u8; 8];
    bytes.copy_from_slice(&memory.account(view).data[8..16]);
    u64::from_le_bytes(bytes)
}

#[test]
fn try_accounts_checks_authority_before_running_updates() {
    let (mut memory, views) = memory_of(vec![
        vault_account(OLD_AUTHORITY),
        signer_account(NEW_AUTHORITY, true),
        unchecked_account(NEW_AUTHORITY),
    ]);

    let err = expect_err(RotateAuthority::try_accounts(&program_id(), &mut memory, &views, &[]));

    assert_eq!(err, ErrorCode::ConstraintHasOne.into());
    assert_eq!(read_vault_authority(&memory, views[0]), OLD_AUTHORITY);
    assert_eq!(memory.account(views[0]).borrow_state, 255);
}

#[test]
fn update_accounts_runs_after_validation_and_persists_on_exit() {
    let (mut memory, views) = memory_of(vec![
        vault_account(OLD_AUTHORITY),
        signer_account(OLD_AUTHORITY, true),
        unchecked_account(NEW_AUTHORITY),
    ]);

    let (mut accounts, _, _) = match <RotateAuthority as TryAccounts>::validate_accounts(
        &program_id(),
        &mut memory,
        &views,
        &[],
    ) {
        Ok(loaded) => loaded,
        Err(e) => panic!("authority check should pass before updates: {e:?}"),
    };

    assert_eq!(accounts.vault.get().current_authority.to_bytes(), OLD_AUTHORITY);

    accounts.update_accounts(&mut memory).unwrap();
    assert_eq!(accounts.vault.get().current_authority.to_bytes(), NEW_AUTHORITY);

    accounts.exit_accounts(&mut memory, &[]).unwrap();
    assert_eq!(read_vault_authority(&memory, views[0]), NEW_AUTHORITY);
}

#[test]
fn try_accounts_still_runs_updates_for_direct_callers() {
    let (mut memory, views) = memory_of(vec![
        vault_account(OLD_AUTHORITY),
        signer_account(OLD_AUTHORITY, true),
        unchecked_account(NEW_AUTHORITY),
    ]);

    let (accounts, _, _) =
        match RotateAuthority::try_accounts(&program_id(), &mut memory, &views, &[]) {
            Ok(loaded) => loaded,
            Err(e) => panic!("direct callers should still receive updated accounts: {e:?}"),
        };

    assert_eq!(accounts.vault.get().current_authority.to_bytes(), NEW_AUTHORITY);
}

fn dispatch(
    accounts: &[RuntimeAccount],
    expected: [u8; 32],
) -> (Result<(), ProgramError>, AccountMemory, AccountCursor) {
    let mut input: Vec<u8> = Vec::new();
    for account in accounts {
        append_account(&mut input, account);
    }
    let id = program_id();
    let mut memory = AccountMemory::new();
    let mut cursor = AccountCursor::new(input);
    assert!(cursor.can_walk(accounts.len()));
    let result = rotate_authority(
        &id,
        &mut memory,
        &mut cursor,
        &[],
        accounts.len(),
        &Address::new_from_array(expected),
    );
    (result, memory, cursor)
}

#[test]
fn generated_dispatch_runs_update_phase_before_user_handler() {
    let accounts = [
        vault_account(OLD_AUTHORITY),
        signer_account(OLD_AUTHORITY, true),
        unchecked_account(NEW_AUTHORITY),
    ];
    let (result, memory, _) = dispatch(&accounts, NEW_AUTHORITY);

    assert_eq!(result, Ok(()), "dispatch must run updates before the handler observes accounts");
    assert_eq!(
        read_vault_authority(&memory, AccountView { slot: 0 }),
        NEW_AUTHORITY,
        "dispatch must persist update-phase mutations when exit_accounts runs"
    );
}

#[test]
fn nested_validate_accounts_keeps_inner_updates_after_outer_validation() {
    let (mut memory, views) = memory_of(vec![counter_account(0), unchecked_account([0x33; 32])]);

    let err = expect_err(<OuterNestedGate as TryAccounts>::validate_accounts(
        &program_id(),
        &mut memory,
        &views,
        &[],
    ));

    assert_eq!(err, ErrorCode::ConstraintRaw.into());
    assert_eq!(
        read_counter_value(&memory, views[0]),
        0,
        "nested validate_accounts must not run inner update hooks before outer validation"
    );
}

#[test]
fn nested_try_accounts_runs_inner_updates_once() {
    let (mut memory, views) = memory_of(vec![counter_account(0)]);

    let (mut accounts, _, _) =
        match OuterNestedIncrement::try_accounts(&program_id(), &mut memory, &views, &[]) {
            Ok(loaded) => loaded,
            Err(e) => panic!("nested try_accounts should succeed: {e:?}"),
        };

    assert_eq!(
        accounts.inner.inner.counter.get().value,
        1,
        "nested update hooks should run exactly once"
    );

    accounts.exit_accounts(&mut memory, &[]).unwrap();
    assert_eq!(read_counter_value(&memory, views[0]), 1);
}

#[test]
fn a_handler_that_refuses_the_update_leaves_the_vault_as_it_was() {
    let accounts = [
        vault_account(OLD_AUTHORITY),
        signer_account(OLD_AUTHORITY, true),
        unchecked_account(NEW_AUTHORITY),
    ];
    let (result, memory, _) = dispatch(&accounts, OLD_AUTHORITY);
    assert_eq!(result, Err(ErrorCode::ConstraintAddress.into()));
    assert_eq!(read_vault_authority(&memory, AccountView { slot: 0 }), OLD_AUTHORITY);
    assert_eq!(memory.account(AccountView { slot: 0 }).borrow_state, 255);
}

#[test]
fn the_cursor_ends_past_the_declared_accounts() {
    let accounts = [
        vault_account(OLD_AUTHORITY),
        signer_account(OLD_AUTHORITY, true),
        unchecked_account(NEW_AUTHORITY),
        unchecked_account([0x55; 32]),
    ];
    let (result, memory, cursor) = dispatch(&accounts, NEW_AUTHORITY);
    assert_eq!(result, Ok(()));
    assert_eq!(cursor.consumed(), 3);
    assert_eq!(memory.len(), 3);
}

#[test]
fn a_failed_update_gives_its_error_and_its_borrows_back() {
    let (mut memory, views) = memory_of(vec![counter_account(u64::MAX)]);
    let err = expect_err(InnerIncrement::try_accounts(&program_id(), &mut memory, &views, &[]));
    assert_eq!(err, ProgramError::ArithmeticOverflow);
    assert_eq!(memory.account(views[0]).borrow_state, 255);
    assert_eq!(read_counter_value(&memory, views[0]), u64::MAX);
}

#[test]
fn a_counter_at_one_is_let_in_and_advanced() {
    let (mut memory, views) = memory_of(vec![counter_account(1), unchecked_account([0x33; 32])]);
    let (mut accounts, _, _) =
        match OuterNestedGate::try_accounts(&program_id(), &mut memory, &views, &[]) {
            Ok(loaded) => loaded,
            Err(e) => panic!("validation should pass: {e:?}"),
        };
    assert_eq!(accounts.inner.inner.counter.get().value, 2);
    accounts.exit_accounts(&mut memory, &[]).unwrap();
    accounts.release(&mut memory);
    assert_eq!(read_counter_value(&memory, views[0]), 2);
    assert_eq!(memory.account(views[0]).borrow_state, 255);
}
