//! The least data of slabs with a schema of their own.

use anchor_lang::accounts::slab::{Account, Slab};
use anchor_lang::memory::{AccountMemory, AccountView};
use anchor_lang::schema::{Pod, SlabSchema};
use solana_program_error::ProgramError;

const DATA_OFFSET: usize = 8;
const HEADER_SIZE: usize = 16;
const PHYSICAL_MIN_DATA_LEN: usize = DATA_OFFSET + HEADER_SIZE;
const DECLARED_MIN_DATA_LEN: usize = PHYSICAL_MIN_DATA_LEN + 16;

#[derive(Clone, Copy)]
struct CustomHeader {
    counter: u64,
    bump: u64,
}

fn word(data: &[u8], at: usize) -> u64 {
    let mut bytes = [0u8; 8];
    bytes.copy_from_slice(&data[at..at + 8]);
    u64::from_le_bytes(bytes)
}

impl Pod for CustomHeader {
    fn size_of() -> usize {
        HEADER_SIZE
    }

    fn to_bytes(&self) -> Vec<u8> {
        let mut bytes = self.counter.to_le_bytes().to_vec();
        bytes.extend_from_slice(&self.bump.to_le_bytes());
        bytes
    }

    fn from_bytes(data: &[u8], at: usize) -> Self {
        CustomHeader { counter: word(data, at), bump: word(data, at + 8) }
    }
}

impl SlabSchema for CustomHeader {
    fn data_offset() -> usize {
        DATA_OFFSET
    }

    fn min_data_len() -> usize {
        DECLARED_MIN_DATA_LEN
    }

    fn validate(memory: &AccountMemory, view: AccountView) -> Result<(), ProgramError> {
        if view.data_len(memory) < DECLARED_MIN_DATA_LEN {
            return Err(ProgramError::AccountDataTooSmall);
        }
        Ok(())
    }
}

type CustomAccount = Account<CustomHeader>;
type CustomLedger = Slab<CustomHeader, u8>;

const TAIL_ITEMS_OFFSET: usize = DATA_OFFSET + HEADER_SIZE + 4;

#[test]
fn custom_schema_minimum_exceeds_physical_layout() {
    assert_eq!(PHYSICAL_MIN_DATA_LEN, 24);
    assert_eq!(CustomAccount::min_data_len(), DECLARED_MIN_DATA_LEN);
    assert!(DECLARED_MIN_DATA_LEN > PHYSICAL_MIN_DATA_LEN);
}

#[test]
fn tail_slab_min_data_len_floors_at_schema_minimum() {
    assert!(TAIL_ITEMS_OFFSET < DECLARED_MIN_DATA_LEN);
    assert_eq!(CustomLedger::min_data_len(), DECLARED_MIN_DATA_LEN);
    assert_eq!(CustomLedger::init_space(), DECLARED_MIN_DATA_LEN);
}

#[test]
fn tail_slab_space_for_zero_capacity_floors_at_schema_minimum() {
    assert_eq!(CustomLedger::space_for(0), DECLARED_MIN_DATA_LEN);
    assert_eq!(CustomLedger::space_for(4), DECLARED_MIN_DATA_LEN);
    let big = DECLARED_MIN_DATA_LEN - TAIL_ITEMS_OFFSET + 8;
    assert_eq!(CustomLedger::space_for(big as u32), TAIL_ITEMS_OFFSET + big);
}
