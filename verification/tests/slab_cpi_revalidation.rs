//! Checking a slab again after another program was called.

use anchor_lang::accounts::slab::{Account, Slab};
use anchor_lang::accounts::AnchorAccount;
use anchor_lang::memory::{AccountMemory, AccountView, RuntimeAccount};
use anchor_lang::schema::{Discriminator, Owner, Pod};
use anchor_lang::Address;
use solana_program_error::ProgramError;

const PROGRAM_ID: [u8; 32] = [0x42; 32];
const FOREIGN_PROGRAM_ID: [u8; 32] = [0x24; 32];
const COUNTER_DISCRIMINATOR: [u8; 8] = [0xff, 0xb0, 0x04, 0xf5, 0xbc, 0xfd, 0x7c, 0x19];
const FOREIGN_DISCRIMINATOR: [u8; 8] = [0x23, 0xaa, 0x41, 0x17, 0x83, 0x62, 0xdd, 0x09];

#[derive(Clone, Copy, Debug, PartialEq)]
struct Counter {
    value: u64,
    bump: u8,
}

const COUNTER_SIZE: usize = 16;

impl Pod for Counter {
    fn size_of() -> usize {
        COUNTER_SIZE
    }

    fn to_bytes(&self) -> Vec<u8> {
        let mut bytes = self.value.to_le_bytes().to_vec();
        bytes.push(self.bump);
        bytes.extend_from_slice(&[0; 7]);
        bytes
    }

    fn from_bytes(data: &[u8], at: usize) -> Self {
        let mut bytes = [0u8; 8];
        bytes.copy_from_slice(&data[at..at + 8]);
        Counter { value: u64::from_le_bytes(bytes), bump: data[at + 8] }
    }
}

impl Owner for Counter {
    fn owner() -> Address {
        Address::new_from_array(PROGRAM_ID)
    }
}

impl Discriminator for Counter {
    fn discriminator() -> Vec<u8> {
        COUNTER_DISCRIMINATOR.to_vec()
    }
}

#[derive(Clone, Copy)]
struct Item([u8; 8]);

impl Pod for Item {
    fn size_of() -> usize {
        8
    }

    fn to_bytes(&self) -> Vec<u8> {
        self.0.to_vec()
    }

    fn from_bytes(data: &[u8], at: usize) -> Self {
        let mut bytes = [0u8; 8];
        bytes.copy_from_slice(&data[at..at + 8]);
        Item(bytes)
    }
}

type CounterAccount = Account<Counter>;
type CounterLedger = Slab<Counter, Item>;

const HEADER_OFFSET: usize = 8;
const LEN_OFFSET: usize = HEADER_OFFSET + COUNTER_SIZE;
const ITEMS_OFFSET: usize = LEN_OFFSET + 4;
const ITEM_SIZE: usize = 8;

fn place(memory: &mut AccountMemory, address: [u8; 32], data: Vec<u8>) -> AccountView {
    memory.push(RuntimeAccount {
        borrow_state: 255,
        is_signer: false,
        is_writable: true,
        executable: false,
        address: Address::new_from_array(address),
        owner: Address::new_from_array(PROGRAM_ID),
        lamports: 0,
        data,
    })
}

fn setup_counter_account(memory: &mut AccountMemory) -> AccountView {
    let mut data = vec![0u8; HEADER_OFFSET + COUNTER_SIZE];
    data[..8].copy_from_slice(&COUNTER_DISCRIMINATOR);
    place(memory, [0xAB; 32], data)
}

fn setup_ledger(memory: &mut AccountMemory, capacity: usize, populated_len: u32) -> AccountView {
    let mut data = vec![0u8; ITEMS_OFFSET + capacity * ITEM_SIZE];
    data[..8].copy_from_slice(&COUNTER_DISCRIMINATOR);
    data[LEN_OFFSET..LEN_OFFSET + 4].copy_from_slice(&populated_len.to_le_bytes());
    place(memory, [0xAA; 32], data)
}

#[test]
fn revalidate_after_cpi_rejects_owner_change() {
    let mut memory = AccountMemory::new();
    let view = setup_counter_account(&mut memory);
    let account = CounterAccount::load_mut(&mut memory, view).ok().unwrap();

    let data = memory.account(view).data.clone();
    memory.update(view, 0, Address::new_from_array(FOREIGN_PROGRAM_ID), data);

    assert_eq!(account.revalidate_after_cpi(&memory), Err(ProgramError::IllegalOwner));
}

#[test]
fn revalidate_after_cpi_rejects_discriminator_change() {
    let mut memory = AccountMemory::new();
    let view = setup_counter_account(&mut memory);
    let account = CounterAccount::load_mut(&mut memory, view).ok().unwrap();

    memory.write(view, 0, &FOREIGN_DISCRIMINATOR);

    assert_eq!(account.revalidate_after_cpi(&memory), Err(ProgramError::InvalidAccountData));
}

#[test]
fn revalidate_after_cpi_rejects_tail_len_exceeding_live_capacity() {
    let mut memory = AccountMemory::new();
    let view = setup_ledger(&mut memory, 4, 3);
    let slab = CounterLedger::load_mut(&mut memory, view).ok().unwrap();

    memory.data_mut(view).truncate(ITEMS_OFFSET + ITEM_SIZE);

    assert_eq!(slab.revalidate_after_cpi(&memory), Err(ProgramError::InvalidAccountData));
}

#[test]
fn revalidate_after_cpi_accepts_schema_preserving_tail_mutation() {
    let mut memory = AccountMemory::new();
    let view = setup_ledger(&mut memory, 2, 1);
    let slab = CounterLedger::load_mut(&mut memory, view).ok().unwrap();

    memory.write(view, ITEMS_OFFSET, &[0x11; 8]);

    slab.revalidate_after_cpi(&memory).unwrap();
    assert_eq!(slab.len(&memory), 1);
    assert_eq!(slab.capacity(&memory), 2);
}

#[test]
fn slab_rejects_missing_count_and_overlong_count() {
    let mut memory = AccountMemory::new();
    let mut data = vec![0u8; LEN_OFFSET + 3];
    data[..8].copy_from_slice(&COUNTER_DISCRIMINATOR);
    let short = place(&mut memory, [1; 32], data);
    assert_eq!(
        CounterLedger::load(&mut memory, short).err(),
        Some(ProgramError::AccountDataTooSmall)
    );
    let full = setup_ledger(&mut memory, 2, 3);
    assert_eq!(
        CounterLedger::load(&mut memory, full).err(),
        Some(ProgramError::InvalidAccountData)
    );
    assert!(!short.is_borrowed(&memory));
    assert!(!full.is_borrowed(&memory));
}

#[test]
fn slab_reads_what_was_stored() {
    let mut memory = AccountMemory::new();
    let view = setup_ledger(&mut memory, 2, 1);
    let other = setup_counter_account(&mut memory);
    let before = memory.account(other).data.clone();
    let slab = CounterLedger::load_mut(&mut memory, view).ok().unwrap();
    slab.set(&mut memory, Counter { value: 0xdead_beef, bump: 9 });
    assert_eq!(slab.get(&memory), Counter { value: 0xdead_beef, bump: 9 });
    assert_eq!(slab.len(&memory), 1);
    assert_eq!(memory.account(view).data[..8], COUNTER_DISCRIMINATOR);
    assert_eq!(memory.account(other).data, before);
}
