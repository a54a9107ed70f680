//! What a serialized account writes back, and when.

use anchor_lang::accounts::serialized::{AnchorAccountSerialize, BorshAccount, BorshSerializer};
use anchor_lang::accounts::AnchorAccount;
use anchor_lang::memory::{AccountMemory, AccountView, Release, RuntimeAccount};
use anchor_lang::schema::{Discriminator, Owner};
use anchor_lang::Address;
use solana_program_error::ProgramError;

const PROGRAM_ID: [u8; 32] = [0x42; 32];
const FOREIGN_PROGRAM_ID: [u8; 32] = [0x24; 32];

fn word(data: &[u8], at: usize) -> u64 {
    let mut bytes = [0u8; 8];
    bytes.copy_from_slice(&data[at..at + 8]);
    u64::from_le_bytes(bytes)
}

fn write_word(value: u64, buf: &mut Vec<u8>, at: usize) -> Result<usize, ProgramError> {
    if buf.len() - at < 8 {
        return Err(ProgramError::AccountDataTooSmall);
    }
    buf[at..at + 8].copy_from_slice(&value.to_le_bytes());
    Ok(at + 8)
}

fn read_word(buf: &[u8], at: usize) -> Result<(u64, usize), ProgramError> {
    if buf.len() - at < 8 {
        return Err(ProgramError::InvalidAccountData);
    }
    Ok((word(buf, at), at + 8))
}

#[derive(Clone, PartialEq, Debug)]
struct Counter {
    value: u64,
}

impl Owner for Counter {
    fn owner() -> Address {
        Address::new_from_array(PROGRAM_ID)
    }
}

impl Discriminator for Counter {
    fn discriminator() -> Vec<u8> {
        counter_disc().to_vec()
    }
}

impl AnchorAccountSerialize<Counter> for BorshSerializer {
    fn serialize(value: &Counter, buf: &mut Vec<u8>, at: usize) -> Result<usize, ProgramError> {
        write_word(value.value, buf, at)
    }

    fn deserialize(buf: &[u8], at: usize) -> Result<(Counter, usize), ProgramError> {
        let (value, end) = read_word(buf, at)?;
        Ok((Counter { value }, end))
    }
}

#[derive(Clone, PartialEq, Debug)]
struct ForeignCounter {
    value: u64,
}

impl Owner for ForeignCounter {
    fn owner() -> Address {
        Address::new_from_array(FOREIGN_PROGRAM_ID)
    }
}

impl Discriminator for ForeignCounter {
    fn discriminator() -> Vec<u8> {
        foreign_counter_disc().to_vec()
    }
}

impl AnchorAccountSerialize<ForeignCounter> for BorshSerializer {
    fn serialize(
        value: &ForeignCounter,
        buf: &mut Vec<u8>,
        at: usize,
    ) -> Result<usize, ProgramError> {
        write_word(value.value, buf, at)
    }

    fn deserialize(buf: &[u8], at: usize) -> Result<(ForeignCounter, usize), ProgramError> {
        let (value, end) = read_word(buf, at)?;
        Ok((ForeignCounter { value }, end))
    }
}

#[derive(Clone, PartialEq, Debug)]
struct ShrinkableBytes {
    items: Vec<u8>,
}

impl Owner for ShrinkableBytes {
    fn owner() -> Address {
        Address::new_from_array(PROGRAM_ID)
    }
}

impl Discriminator for ShrinkableBytes {
    fn discriminator() -> Vec<u8> {
        shrinkable_bytes_disc().to_vec()
    }
}

impl AnchorAccountSerialize<ShrinkableBytes> for BorshSerializer {
    fn serialize(
        value: &ShrinkableBytes,
        buf: &mut Vec<u8>,
        at: usize,
    ) -> Result<usize, ProgramError> {
        let end = at + 4 + value.items.len();
        if buf.len() < end {
            return Err(ProgramError::AccountDataTooSmall);
        }
        buf[at..at + 4].copy_from_slice(&(value.items.len() as u32).to_le_bytes());
        buf[at + 4..end].copy_from_slice(&value.items);
        Ok(end)
    }

    fn deserialize(buf: &[u8], at: usize) -> Result<(ShrinkableBytes, usize), ProgramError> {
        if buf.len() - at < 4 {
            return Err(ProgramError::InvalidAccountData);
        }
        let mut len = [0u8; 4];
        len.copy_from_slice(&buf[at..at + 4]);
        let end = at + 4 + u32::from_le_bytes(len) as usize;
        if buf.len() < end {
            return Err(ProgramError::InvalidAccountData);
        }
        Ok((ShrinkableBytes { items: buf[at + 4..end].to_vec() }, end))
    }
}

fn counter_disc() -> [u8; 8] {
    [0xff, 0xb0, 0x04, 0xf5, 0xbc, 0xfd, 0x7c, 0x19]
}

fn foreign_counter_disc() -> [u8; 8] {
    [0x23, 0xaa, 0x41, 0x17, 0x83, 0x62, 0xdd, 0x09]
}

fn shrinkable_bytes_disc() -> [u8; 8] {
    [0x5f, 0x81, 0x5c, 0x91, 0xb1, 0x7a, 0x4d, 0xa0]
}

fn place(memory: &mut AccountMemory, owner: [u8; 32], data: Vec<u8>) -> AccountView {
    memory.push(RuntimeAccount {
        borrow_state: 255,
        is_signer: false,
        is_writable: true,
        executable: false,
        address: Address::new_from_array([0xAA; 32]),
        owner: Address::new_from_array(owner),
        lamports: 1_000_000_000,
        data,
    })
}

fn setup_counter(memory: &mut AccountMemory, initial_value: u64) -> AccountView {
    let mut data = counter_disc().to_vec();
    data.extend_from_slice(&initial_value.to_le_bytes());
    place(memory, PROGRAM_ID, data)
}

fn setup_foreign_counter(memory: &mut AccountMemory, initial_value: u64) -> AccountView {
    let mut data = foreign_counter_disc().to_vec();
    data.extend_from_slice(&initial_value.to_le_bytes());
    place(memory, FOREIGN_PROGRAM_ID, data)
}

fn setup_shrinkable_bytes(
    memory: &mut AccountMemory,
    items: &[u8],
    reserved_tail: &[u8],
) -> AccountView {
    let mut data = shrinkable_bytes_disc().to_vec();
    data.extend_from_slice(&(items.len() as u32).to_le_bytes());
    data.extend_from_slice(items);
    data.extend_from_slice(reserved_tail);
    place(memory, PROGRAM_ID, data)
}

fn value_at(memory: &AccountMemory, view: AccountView) -> u64 {
    word(&memory.account(view).data, 8)
}

fn load_counter(memory: &mut AccountMemory, view: AccountView) -> BorshAccount<Counter> {
    match BorshAccount::<Counter>::load_mut(memory, view) {
        Ok(acct) => acct,
        Err(e) => panic!("load: {e:?}"),
    }
}

#[test]
fn exit_writes_modified_in_memory_state_to_guard() {
    let mut memory = AccountMemory::new();
    let view = setup_counter(&mut memory, 42);
    let mut acct = load_counter(&mut memory, view);
    assert_eq!(acct.get().value, 42);
    acct.set(Counter { value: 999 });
    acct.exit(&mut memory).unwrap();
    acct.release(&mut memory);
    assert_eq!(value_at(&memory, view), 999);
}

#[test]
fn exit_serializes_mutably_loaded_foreign_owned_account() {
    let mut memory = AccountMemory::new();
    let view = setup_foreign_counter(&mut memory, 42);
    let mut acct = BorshAccount::<ForeignCounter>::load_mut(&mut memory, view).ok().unwrap();
    assert_eq!(acct.get().value, 42);
    acct.set(ForeignCounter { value: 999 });
    acct.exit(&mut memory).unwrap();
    assert_eq!(value_at(&memory, view), 999);
}

#[test]
fn release_borrow_serializes_mutably_loaded_foreign_owned_account() {
    let mut memory = AccountMemory::new();
    let view = setup_foreign_counter(&mut memory, 42);
    let mut acct = BorshAccount::<ForeignCounter>::load_mut(&mut memory, view).ok().unwrap();
    assert_eq!(acct.get().value, 42);
    acct.set(ForeignCounter { value: 999 });
    acct.release_borrow(&mut memory).unwrap();
    assert_eq!(value_at(&memory, view), 999);
}

#[test]
fn stale_detection_misses_content_only_out_of_band_mutation() {
    let mut memory = AccountMemory::new();
    let view = setup_counter(&mut memory, 42);
    let mut acct = load_counter(&mut memory, view);
    assert_eq!(acct.get().value, 42);
    memory.write(view, 8, &555u64.to_le_bytes());
    assert_eq!(acct.get().value, 42);
    acct.exit(&mut memory).unwrap();
    assert_eq!(value_at(&memory, view), 42);
}

#[test]
fn reacquire_refreshes_self_data_from_cpi_changes() {
    let mut memory = AccountMemory::new();
    let view = setup_counter(&mut memory, 42);
    let mut acct = load_counter(&mut memory, view);
    acct.set(Counter { value: 100 });
    acct.release_borrow(&mut memory).unwrap();
    memory.write(view, 8, &777u64.to_le_bytes());
    acct.reacquire_borrow_mut(&mut memory).unwrap();
    assert_eq!(acct.get().value, 777);
    acct.exit(&mut memory).unwrap();
    assert_eq!(value_at(&memory, view), 777);
}

#[test]
fn reacquire_rejects_when_discriminator_changes_during_release() {
    let mut memory = AccountMemory::new();
    let view = setup_counter(&mut memory, 42);
    let mut acct = load_counter(&mut memory, view);
    acct.release_borrow(&mut memory).unwrap();
    memory.write(view, 0, &[0xDE, 0xAD, 0xBE, 0xEF, 0xDE, 0xAD, 0xBE, 0xEF]);
    assert_eq!(
        acct.reacquire_borrow_mut(&mut memory).err(),
        Some(ProgramError::InvalidAccountData)
    );
    assert!(!view.is_borrowed(&memory));
}

#[test]
fn reacquire_rejects_when_owner_changes_during_release() {
    let mut memory = AccountMemory::new();
    let view = setup_counter(&mut memory, 42);
    let mut acct = load_counter(&mut memory, view);
    acct.release_borrow(&mut memory).unwrap();
    let data = memory.account(view).data.clone();
    memory.update(view, 1_000_000_000, Address::new_from_array([0xFE; 32]), data);
    assert_eq!(acct.reacquire_borrow_mut(&mut memory).err(), Some(ProgramError::IllegalOwner));
}

#[test]
fn exit_on_transient_zero_lamport_account_serializes() {
    let mut memory = AccountMemory::new();
    let view = setup_counter(&mut memory, 42);
    let mut acct = load_counter(&mut memory, view);
    acct.set(Counter { value: 999 });
    let data = memory.account(view).data.clone();
    memory.update(view, 0, Address::new_from_array(PROGRAM_ID), data);
    acct.exit(&mut memory).unwrap();
    assert_eq!(value_at(&memory, view), 999);
}

#[test]
fn exit_on_closed_account_is_noop() {
    let mut memory = AccountMemory::new();
    let view = setup_counter(&mut memory, 42);
    let mut acct = load_counter(&mut memory, view);
    acct.set(Counter { value: 999 });
    memory.update(view, 0, Address::new_from_array([0; 32]), Vec::new());
    acct.exit(&mut memory).unwrap();
    assert!(memory.account(view).data.is_empty());
    assert_eq!(memory.account(view).lamports, 0);
}

#[test]
fn release_borrow_commits_in_memory_changes_to_buffer() {
    let mut memory = AccountMemory::new();
    let view = setup_counter(&mut memory, 42);
    let mut acct = load_counter(&mut memory, view);
    acct.set(Counter { value: 100 });
    acct.release_borrow(&mut memory).unwrap();
    assert_eq!(value_at(&memory, view), 100);
    assert!(!view.is_borrowed(&memory));
}

#[test]
fn exit_after_release_keeps_what_another_program_wrote() {
    let mut memory = AccountMemory::new();
    let view = setup_counter(&mut memory, 42);
    let mut acct = load_counter(&mut memory, view);
    acct.set(Counter { value: 100 });
    acct.release_borrow(&mut memory).unwrap();
    memory.write(view, 8, &777u64.to_le_bytes());
    acct.exit(&mut memory).unwrap();
    assert_eq!(value_at(&memory, view), 777);
    acct.reacquire_borrow_mut(&mut memory).unwrap();
    assert_eq!(acct.get().value, 777);
}

#[test]
fn exit_zeroes_bytes_between_new_and_old_serialized_lengths() {
    let mut memory = AccountMemory::new();
    let view = setup_shrinkable_bytes(&mut memory, &[1, 2, 3], &[0xAA, 0xBB]);
    let mut acct = BorshAccount::<ShrinkableBytes>::load_mut(&mut memory, view).ok().unwrap();
    acct.set(ShrinkableBytes { items: vec![1, 2] });
    acct.exit(&mut memory).unwrap();

    let mut expected = Vec::new();
    expected.extend_from_slice(&shrinkable_bytes_disc());
    expected.extend_from_slice(&2u32.to_le_bytes());
    expected.extend_from_slice(&[1, 2, 0, 0xAA, 0xBB]);
    assert_eq!(memory.account(view).data, expected);
}

#[test]
fn release_borrow_zeroes_bytes_between_new_and_old_serialized_lengths() {
    let mut memory = AccountMemory::new();
    let view = setup_shrinkable_bytes(&mut memory, &[1, 2, 3], &[0xAA, 0xBB]);
    let mut acct = BorshAccount::<ShrinkableBytes>::load_mut(&mut memory, view).ok().unwrap();
    acct.set(ShrinkableBytes { items: vec![] });
    acct.release_borrow(&mut memory).unwrap();

    let mut expected = Vec::new();
    expected.extend_from_slice(&shrinkable_bytes_disc());
    expected.extend_from_slice(&0u32.to_le_bytes());
    expected.extend_from_slice(&[0, 0, 0, 0xAA, 0xBB]);
    assert_eq!(memory.account(view).data, expected);
}

#[test]
fn stale_detection_fires_on_data_len_change() {
    let mut memory = AccountMemory::new();
    let view = setup_counter(&mut memory, 42);
    let mut acct = load_counter(&mut memory, view);
    acct.set(Counter { value: 100 });
    memory.data_mut(view).resize(32, 0);
    acct.exit(&mut memory).unwrap();
    assert_eq!(value_at(&memory, view), 100);
    assert_eq!(view.data_len(&memory), 32);
}

#[test]
fn codec_round_trip_advances_cursor() {
    let mut buf = vec![0u8; 32];
    let first = BorshSerializer::serialize(&Counter { value: 0xAA }, &mut buf, 0).unwrap();
    let second = BorshSerializer::serialize(&Counter { value: 0xBB }, &mut buf, first).unwrap();
    assert_eq!(buf.len() - second, 32 - 16);

    let (a, first): (Counter, usize) = BorshSerializer::deserialize(&buf, 0).unwrap();
    assert_eq!(a.value, 0xAA);
    assert_eq!(buf.len() - first, 32 - 8);
    let (b, second): (Counter, usize) = BorshSerializer::deserialize(&buf, first).unwrap();
    assert_eq!(b.value, 0xBB);
    assert_eq!(buf.len() - second, 32 - 16);
}

#[test]
fn reacquire_guard_only_rejects_buffer_shorter_than_discriminator() {
    let mut memory = AccountMemory::new();
    let view = setup_counter(&mut memory, 42);
    let mut acct = load_counter(&mut memory, view);
    acct.release_borrow(&mut memory).unwrap();
    memory.data_mut(view).truncate(4);
    assert_eq!(
        acct.reacquire_guard_only(&mut memory).err(),
        Some(ProgramError::AccountDataTooSmall)
    );
}

#[test]
fn exit_rejects_external_shrink_below_discriminator() {
    let mut memory = AccountMemory::new();
    let view = setup_counter(&mut memory, 42);
    let mut acct = load_counter(&mut memory, view);
    acct.set(Counter { value: 100 });
    memory.data_mut(view).truncate(4);
    assert_eq!(acct.exit(&mut memory).err(), Some(ProgramError::AccountDataTooSmall));
    assert!(!view.is_borrowed(&memory));
}

#[test]
fn exit_reports_what_the_codec_reports() {
    let mut memory = AccountMemory::new();
    let view = setup_counter(&mut memory, 42);
    let mut acct = load_counter(&mut memory, view);
    acct.set(Counter { value: 100 });
    memory.data_mut(view).truncate(12);
    assert_eq!(acct.exit(&mut memory).err(), Some(ProgramError::AccountDataTooSmall));
    assert!(view.is_borrowed(&memory));
    acct.release(&mut memory);
    assert!(!view.is_borrowed(&memory));
}

#[test]
fn reacquire_fails_while_another_borrow_is_held() {
    let mut memory = AccountMemory::new();
    let view = setup_counter(&mut memory, 42);
    let mut acct = load_counter(&mut memory, view);
    acct.release_borrow(&mut memory).unwrap();
    let reader = view.try_borrow(&mut memory).ok().unwrap();
    assert_eq!(
        acct.reacquire_borrow_mut(&mut memory).err(),
        Some(ProgramError::AccountBorrowFailed)
    );
    assert_eq!(
        acct.reacquire_guard_only(&mut memory).err(),
        Some(ProgramError::AccountBorrowFailed)
    );
    reader.release(&mut memory);
    acct.reacquire_guard_only(&mut memory).unwrap();
    assert_eq!(acct.get().value, 42);
}

#[test]
fn what_was_written_back_is_loaded_again() {
    let mut memory = AccountMemory::new();
    let view = setup_counter(&mut memory, 1);
    let mut acct = load_counter(&mut memory, view);
    acct.set(Counter { value: u64::MAX - 1 });
    acct.exit(&mut memory).unwrap();
    acct.release(&mut memory);
    let again = BorshAccount::<Counter>::load(&mut memory, view).ok().unwrap();
    assert_eq!(again.get().value, u64::MAX - 1);
}

#[test]
fn exit_of_a_read_only_account_writes_nothing() {
    let mut memory = AccountMemory::new();
    let view = setup_counter(&mut memory, 42);
    let mut acct = BorshAccount::<Counter>::load(&mut memory, view).ok().unwrap();
    memory.write(view, 8, &555u64.to_le_bytes());
    acct.exit(&mut memory).unwrap();
    assert_eq!(value_at(&memory, view), 555);
    acct.release_borrow(&mut memory).unwrap();
    assert_eq!(value_at(&memory, view), 555);
    assert!(!view.is_borrowed(&memory));
}
