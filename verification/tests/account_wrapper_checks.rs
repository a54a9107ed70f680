//! What the account wrappers accept and what they refuse.

use anchor_lang::accounts::program::{Id, Program, System};
use anchor_lang::accounts::serialized::{AnchorAccountSerialize, BorshAccount, BorshSerializer};
use anchor_lang::accounts::signer::Signer;
use anchor_lang::accounts::slab::Account;
use anchor_lang::accounts::system_account::SystemAccount;
use anchor_lang::accounts::unchecked_account::UncheckedAccount;
use anchor_lang::accounts::AnchorAccount;
use anchor_lang::memory::{AccountMemory, AccountView, Release, RuntimeAccount};
use anchor_lang::schema::{Discriminator, Owner, Pod, SlabSchema};
use anchor_lang::{Address, ErrorCode};
use solana_program_error::ProgramError;

const PROGRAM_ID: [u8; 32] = [0x42; 32];
const SYSTEM_PROGRAM_ID: [u8; 32] = [0u8; 32];
const TOKEN_PROGRAM_ID: [u8; 32] = [
    6, 221, 246, 225, 215, 101, 161, 147, 217, 203, 225, 70, 206, 235, 121, 172, 28, 180, 133, 237,
    95, 91, 55, 145, 58, 140, 245, 133, 126, 255, 0, 169,
];

struct Token;

impl Id for Token {
    fn id() -> Address {
        Address::new_from_array(TOKEN_PROGRAM_ID)
    }
}

#[derive(Clone, Debug, PartialEq)]
struct Counter {
    value: u64,
}

impl Owner for Counter {
    fn owner() -> Address {
        Address::new_from_array(PROGRAM_ID)
    }
}

impl Discriminator for Counter {
    fn discriminator() -> Vec<u8> {
        vec![0xff, 0xb0, 0x04, 0xf5, 0xbc, 0xfd, 0x7c, 0x19]
    }
}

fn word(data: &[u8], at: usize) -> u64 {
    let mut bytes = [0u8; 8];
    bytes.copy_from_slice(&data[at..at + 8]);
    u64::from_le_bytes(bytes)
}

impl AnchorAccountSerialize<Counter> for BorshSerializer {
    fn serialize(value: &Counter, buf: &mut Vec<u8>, at: usize) -> Result<usize, ProgramError> {
        if buf.len() - at < 8 {
            return Err(ProgramError::AccountDataTooSmall);
        }
        buf[at..at + 8].copy_from_slice(&value.value.to_le_bytes());
        Ok(at + 8)
    }

    fn deserialize(buf: &[u8], at: usize) -> Result<(Counter, usize), ProgramError> {
        if buf.len() - at < 8 {
            return Err(ProgramError::InvalidAccountData);
        }
        Ok((Counter { value: word(buf, at) }, at + 8))
    }
}

#[derive(Clone, Copy)]
struct PodCounter {
    value: u64,
}

impl Pod for PodCounter {
    fn size_of() -> usize {
        8
    }

    fn to_bytes(&self) -> Vec<u8> {
        self.value.to_le_bytes().to_vec()
    }

    fn from_bytes(data: &[u8], at: usize) -> Self {
        PodCounter { value: word(data, at) }
    }
}

impl Owner for PodCounter {
    fn owner() -> Address {
        Address::new_from_array(PROGRAM_ID)
    }
}

impl Discriminator for PodCounter {
    fn discriminator() -> Vec<u8> {
        vec![0x4c, 0xde, 0x7f, 0x28, 0x61, 0x2f, 0x07, 0x73]
    }
}

#[derive(Clone, Copy)]
struct ShortDiscBytes {
    value: [u8; 4],
}

impl Pod for ShortDiscBytes {
    fn size_of() -> usize {
        4
    }

    fn to_bytes(&self) -> Vec<u8> {
        self.value.to_vec()
    }

    fn from_bytes(data: &[u8], at: usize) -> Self {
        let mut value = [0u8; 4];
        value.copy_from_slice(&data[at..at + 4]);
        ShortDiscBytes { value }
    }
}

impl Owner for ShortDiscBytes {
    fn owner() -> Address {
        Address::new_from_array(PROGRAM_ID)
    }
}

impl Discriminator for ShortDiscBytes {
    fn discriminator() -> Vec<u8> {
        vec![0x11, 0x22, 0x33, 0x44]
    }
}

#[derive(Clone, Copy)]
struct LongDiscCounter {
    value: u64,
}

impl Pod for LongDiscCounter {
    fn size_of() -> usize {
        8
    }

    fn to_bytes(&self) -> Vec<u8> {
        self.value.to_le_bytes().to_vec()
    }

    fn from_bytes(data: &[u8], at: usize) -> Self {
        LongDiscCounter { value: word(data, at) }
    }
}

impl Owner for LongDiscCounter {
    fn owner() -> Address {
        Address::new_from_array(PROGRAM_ID)
    }
}

impl Discriminator for LongDiscCounter {
    fn discriminator() -> Vec<u8> {
        vec![
            0x41, 0x42, 0x43, 0x44, 0x45, 0x46, 0x47, 0x48, 0x49, 0x4a, 0x4b, 0x4c, 0x4d, 0x4e,
            0x4f, 0x50,
        ]
    }
}

fn place(
    memory: &mut AccountMemory,
    address: [u8; 32],
    owner: [u8; 32],
    data: Vec<u8>,
    is_signer: bool,
    is_writable: bool,
    executable: bool,
) -> AccountView {
    memory.push(RuntimeAccount {
        borrow_state: 255,
        is_signer,
        is_writable,
        executable,
        address: Address::new_from_array(address),
        owner: Address::new_from_array(owner),
        lamports: 0,
        data,
    })
}

fn counter_data(discriminator: Vec<u8>, value: u64) -> Vec<u8> {
    let mut data = discriminator;
    data.extend_from_slice(&value.to_le_bytes());
    data
}

fn borsh_counter(
    memory: &mut AccountMemory,
    owner: [u8; 32],
    writable: bool,
    value: u64,
) -> AccountView {
    let data = counter_data(Counter::discriminator(), value);
    place(memory, [0x44; 32], owner, data, false, writable, false)
}

fn pod_counter(
    memory: &mut AccountMemory,
    owner: [u8; 32],
    writable: bool,
    value: u64,
) -> AccountView {
    let data = counter_data(PodCounter::discriminator(), value);
    place(memory, [0x45; 32], owner, data, false, writable, false)
}

fn mut_error() -> ProgramError {
    ErrorCode::ConstraintMut.into()
}

#[test]
fn signer_load_rejects_non_signer() {
    let mut memory = AccountMemory::new();
    let view = place(&mut memory, [0x01; 32], SYSTEM_PROGRAM_ID, vec![], false, false, false);
    assert_eq!(
        Signer::load(&mut memory, view).err(),
        Some(ProgramError::MissingRequiredSignature)
    );
}

#[test]
fn signer_load_accepts_signer() {
    let mut memory = AccountMemory::new();
    let view = place(&mut memory, [0x01; 32], SYSTEM_PROGRAM_ID, vec![], true, false, false);
    let signer = Signer::load(&mut memory, view).unwrap();
    assert_eq!(signer.address(&memory).to_bytes(), [0x01; 32]);
}

#[test]
fn signer_load_mut_rejects_non_signer_non_writable() {
    let mut memory = AccountMemory::new();
    let view = place(&mut memory, [0x01; 32], SYSTEM_PROGRAM_ID, vec![], false, false, false);
    let err = Signer::load_mut(&mut memory, view).unwrap_err();
    assert_eq!(err, ErrorCode::ConstraintSigner.into());
}

#[test]
fn signer_load_mut_rejects_signer_without_writable() {
    let mut memory = AccountMemory::new();
    let view = place(&mut memory, [0x01; 32], SYSTEM_PROGRAM_ID, vec![], true, false, false);
    let err = Signer::load_mut(&mut memory, view).unwrap_err();
    assert_eq!(err, ErrorCode::ConstraintSigner.into());
}

#[test]
fn signer_load_mut_rejects_writable_without_signer() {
    let mut memory = AccountMemory::new();
    let view = place(&mut memory, [0x01; 32], SYSTEM_PROGRAM_ID, vec![], false, true, false);
    let err = Signer::load_mut(&mut memory, view).unwrap_err();
    assert_eq!(err, ErrorCode::ConstraintSigner.into());
}

#[test]
fn signer_load_mut_accepts_signer_and_writable() {
    let mut memory = AccountMemory::new();
    let view = place(&mut memory, [0x01; 32], SYSTEM_PROGRAM_ID, vec![], true, true, false);
    let signer = Signer::load_mut(&mut memory, view).unwrap();
    assert_eq!(signer.address(&memory).to_bytes(), [0x01; 32]);
}

#[test]
fn system_account_load_rejects_non_system_owner() {
    let mut memory = AccountMemory::new();
    let view = place(&mut memory, [0x01; 32], PROGRAM_ID, vec![], false, false, false);
    assert_eq!(SystemAccount::load(&mut memory, view).err(), Some(ProgramError::IllegalOwner));
}

#[test]
fn system_account_load_accepts_system_owner() {
    let mut memory = AccountMemory::new();
    let view = place(&mut memory, [0x01; 32], SYSTEM_PROGRAM_ID, vec![], false, false, false);
    let sa = SystemAccount::load(&mut memory, view).unwrap();
    assert_eq!(sa.address(&memory).to_bytes(), [0x01; 32]);
}

#[test]
fn system_account_default_load_mut_rejects_non_writable() {
    let mut memory = AccountMemory::new();
    let view = place(&mut memory, [0x01; 32], PROGRAM_ID, vec![], false, false, false);
    assert_eq!(SystemAccount::load_mut(&mut memory, view).err(), Some(mut_error()));
}

#[test]
fn system_account_default_load_mut_rejects_writable_wrong_owner() {
    let mut memory = AccountMemory::new();
    let view = place(&mut memory, [0x01; 32], PROGRAM_ID, vec![], false, true, false);
    assert_eq!(SystemAccount::load_mut(&mut memory, view).err(), Some(ProgramError::IllegalOwner));
}

#[test]
fn unchecked_account_load_accepts_anything() {
    let mut memory = AccountMemory::new();
    let view = place(&mut memory, [0xAB; 32], [0x99; 32], vec![], false, false, false);
    let ua = UncheckedAccount::load(&mut memory, view).unwrap();
    assert_eq!(ua.address(&memory).to_bytes(), [0xAB; 32]);
}

#[test]
fn unchecked_account_default_load_mut_rejects_non_writable() {
    let mut memory = AccountMemory::new();
    let view = place(&mut memory, [0xAB; 32], [0x99; 32], vec![], false, false, false);
    assert_eq!(UncheckedAccount::load_mut(&mut memory, view).err(), Some(mut_error()));
}

#[test]
fn unchecked_account_load_mut_accepts_writable() {
    let mut memory = AccountMemory::new();
    let view = place(&mut memory, [0xAB; 32], [0x99; 32], vec![], false, true, false);
    let ua = UncheckedAccount::load_mut(&mut memory, view).unwrap();
    assert_eq!(ua.address(&memory).to_bytes(), [0xAB; 32]);
}

#[test]
fn program_load_rejects_wrong_address() {
    let mut memory = AccountMemory::new();
    let view = place(&mut memory, [0x01; 32], [0u8; 32], vec![], false, false, true);
    assert_eq!(
        Program::<System>::load(&mut memory, view).err(),
        Some(ProgramError::IncorrectProgramId)
    );
}

#[test]
fn program_load_accepts_matching_system_address() {
    let mut memory = AccountMemory::new();
    let view = place(&mut memory, [0u8; 32], [0u8; 32], vec![], false, false, true);
    let p = Program::<System>::load(&mut memory, view).ok().unwrap();
    assert_eq!(p.address(&memory).to_bytes(), [0u8; 32]);
}

#[test]
fn program_load_rejects_non_executable_under_guardrails() {
    let mut memory = AccountMemory::new();
    let view = place(&mut memory, [0u8; 32], [0u8; 32], vec![], false, false, false);
    let err = Program::<System>::load(&mut memory, view).err().unwrap();
    assert_eq!(err, ErrorCode::ConstraintExecutable.into());
}

#[test]
fn program_load_token_wrong_address_rejects() {
    let mut memory = AccountMemory::new();
    let view = place(&mut memory, [0x01; 32], [0u8; 32], vec![], false, false, true);
    assert_eq!(
        Program::<Token>::load(&mut memory, view).err(),
        Some(ProgramError::IncorrectProgramId)
    );
}

#[test]
fn program_load_mut_needs_a_writable_account() {
    let mut memory = AccountMemory::new();
    let view = place(&mut memory, TOKEN_PROGRAM_ID, [0u8; 32], vec![], false, false, true);
    assert_eq!(Program::<Token>::load_mut(&mut memory, view).err(), Some(mut_error()));
    assert!(Program::<Token>::load(&mut memory, view).is_ok());
}

#[test]
fn account_load_accepts_valid_owner_and_discriminator() {
    let mut memory = AccountMemory::new();
    let view = pod_counter(&mut memory, PROGRAM_ID, false, 17);
    let acct = Account::<PodCounter>::load(&mut memory, view).ok().unwrap();
    assert_eq!(acct.get(&memory).value, 17);
}

#[test]
fn account_load_uses_short_discriminator_len_as_data_offset() {
    assert_eq!(
        <ShortDiscBytes as SlabSchema>::data_offset(),
        ShortDiscBytes::discriminator().len()
    );
    assert_eq!(
        <ShortDiscBytes as SlabSchema>::min_data_len(),
        ShortDiscBytes::discriminator().len() + core::mem::size_of::<ShortDiscBytes>()
    );

    let mut data = ShortDiscBytes::discriminator();
    data.extend_from_slice(&[1, 2, 3, 4]);
    data.extend_from_slice(&[9, 9, 9, 9]);
    let mut memory = AccountMemory::new();
    let view = place(&mut memory, [0x46; 32], PROGRAM_ID, data, false, false, false);
    let acct = Account::<ShortDiscBytes>::load(&mut memory, view).ok().unwrap();
    assert_eq!(acct.get(&memory).value, [1, 2, 3, 4]);
}

#[test]
fn account_load_uses_long_discriminator_len_as_data_offset() {
    assert_eq!(
        <LongDiscCounter as SlabSchema>::data_offset(),
        LongDiscCounter::discriminator().len()
    );
    assert_eq!(
        <LongDiscCounter as SlabSchema>::min_data_len(),
        LongDiscCounter::discriminator().len() + core::mem::size_of::<LongDiscCounter>()
    );

    let data = counter_data(LongDiscCounter::discriminator(), 123);
    let mut memory = AccountMemory::new();
    let view = place(&mut memory, [0x47; 32], PROGRAM_ID, data, false, false, false);
    let acct = Account::<LongDiscCounter>::load(&mut memory, view).ok().unwrap();
    assert_eq!(acct.get(&memory).value, 123);
}

#[test]
fn account_load_mut_rejects_non_writable() {
    let mut memory = AccountMemory::new();
    let view = pod_counter(&mut memory, PROGRAM_ID, false, 17);
    assert_eq!(Account::<PodCounter>::load_mut(&mut memory, view).err(), Some(mut_error()));
}

#[test]
fn account_load_refuses_owner_length_and_discriminator() {
    let mut memory = AccountMemory::new();
    let foreign = pod_counter(&mut memory, [0x99; 32], false, 17);
    assert_eq!(
        Account::<PodCounter>::load(&mut memory, foreign).err(),
        Some(ProgramError::IllegalOwner)
    );
    let data = counter_data(PodCounter::discriminator(), 17);
    let short =
        place(&mut memory, [1; 32], PROGRAM_ID, data[..15].to_vec(), false, false, false);
    assert_eq!(
        Account::<PodCounter>::load(&mut memory, short).err(),
        Some(ProgramError::AccountDataTooSmall)
    );
    let other = borsh_counter(&mut memory, PROGRAM_ID, false, 17);
    assert_eq!(
        Account::<PodCounter>::load(&mut memory, other).err(),
        Some(ProgramError::InvalidAccountData)
    );
    for view in [foreign, short, other] {
        assert!(!view.is_borrowed(&memory));
    }
}

#[test]
fn borsh_account_load_accepts_valid_owner_and_discriminator() {
    let mut memory = AccountMemory::new();
    let view = borsh_counter(&mut memory, PROGRAM_ID, false, 9);
    let acct = BorshAccount::<Counter>::load(&mut memory, view).ok().unwrap();
    assert_eq!(acct.get().value, 9);
}

#[test]
fn borsh_account_load_mut_rejects_non_writable() {
    let mut memory = AccountMemory::new();
    let view = borsh_counter(&mut memory, PROGRAM_ID, false, 9);
    assert_eq!(BorshAccount::<Counter>::load_mut(&mut memory, view).err(), Some(mut_error()));
}

#[test]
fn borsh_account_load_rejects_wrong_owner() {
    let mut memory = AccountMemory::new();
    let view = borsh_counter(&mut memory, [0x99; 32], true, 9);
    assert_eq!(
        BorshAccount::<Counter>::load(&mut memory, view).err(),
        Some(ProgramError::IllegalOwner)
    );
}

#[test]
fn borsh_account_load_mut_accepts_writable_account() {
    let mut memory = AccountMemory::new();
    let view = borsh_counter(&mut memory, PROGRAM_ID, true, 9);
    let acct = BorshAccount::<Counter>::load_mut(&mut memory, view).ok().unwrap();
    assert_eq!(acct.get().value, 9);
}

#[test]
fn borrows_exclude_each_other_and_are_given_back() {
    let mut memory = AccountMemory::new();
    let view = pod_counter(&mut memory, PROGRAM_ID, true, 1);
    let first = Account::<PodCounter>::load(&mut memory, view).ok().unwrap();
    let second = Account::<PodCounter>::load(&mut memory, view).ok().unwrap();
    assert_eq!(memory.account(view).borrow_state, 253);
    assert_eq!(
        Account::<PodCounter>::load_mut(&mut memory, view).err(),
        Some(ProgramError::AccountBorrowFailed)
    );
    first.release(&mut memory);
    second.release(&mut memory);
    assert_eq!(memory.account(view).borrow_state, 255);
    let writer = Account::<PodCounter>::load_mut(&mut memory, view).ok().unwrap();
    assert_eq!(memory.account(view).borrow_state, 0);
    assert_eq!(
        Account::<PodCounter>::load(&mut memory, view).err(),
        Some(ProgramError::AccountBorrowFailed)
    );
    writer.release(&mut memory);
    assert_eq!(memory.account(view).borrow_state, 255);
}

#[test]
fn the_last_reader_is_refused() {
    let mut memory = AccountMemory::new();
    let view = pod_counter(&mut memory, PROGRAM_ID, true, 1);
    let mut readers = Vec::new();
    for _ in 0..254 {
        readers.push(view.try_borrow(&mut memory).ok().unwrap());
    }
    assert_eq!(memory.account(view).borrow_state, 1);
    assert_eq!(view.try_borrow(&mut memory).err(), Some(ProgramError::AccountBorrowFailed));
    assert_eq!(view.check_borrow(&memory), Err(ProgramError::AccountBorrowFailed));
    assert_eq!(view.check_borrow_mut(&memory), Err(ProgramError::AccountBorrowFailed));
    for reader in readers {
        reader.release(&mut memory);
    }
    assert_eq!(view.check_borrow_mut(&memory), Ok(()));
}
