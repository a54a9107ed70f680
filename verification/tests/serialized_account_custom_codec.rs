//! Serialized accounts with encodings of their own.

use anchor_lang::accounts::serialized::{AnchorAccountSerialize, SerializedAccount};
use anchor_lang::accounts::AnchorAccount;
use anchor_lang::memory::{AccountMemory, AccountView, Release, RuntimeAccount};
use anchor_lang::schema::{Discriminator, Owner};
use anchor_lang::Address;
use solana_program_error::ProgramError;

const PROGRAM_ID: [u8; 32] = [0x42; 32];
const STATS_DISC: [u8; 8] = [0x01, 0x02, 0x03, 0x04, 0x05, 0x06, 0x07, 0x08];
const LEDGER_DISC: [u8; 8] = [0x10, 0x20, 0x30, 0x40, 0x50, 0x60, 0x70, 0x80];
const COMPACT_DISC: [u8; 4] = [0xde, 0xad, 0xbe, 0xef];
const WIDE_DISC: [u8; 16] = [
    0x01, 0x02, 0x03, 0x04, 0x05, 0x06, 0x07, 0x08, 0x09, 0x0a, 0x0b, 0x0c, 0x0d, 0x0e, 0x0f, 0x10,
];

fn half(data: &[u8], at: usize) -> u32 {
    let mut bytes = [0u8; 4];
    bytes.copy_from_slice(&data[at..at + 4]);
    u32::from_le_bytes(bytes)
}

fn write_bytes(bytes: &[u8], buf: &mut Vec<u8>, at: usize) -> Result<usize, ProgramError> {
    if buf.len() - at < bytes.len() {
        return Err(ProgramError::InvalidAccountData);
    }
    buf[at..at + bytes.len()].copy_from_slice(bytes);
    Ok(at + bytes.len())
}

struct LeCodec;

#[derive(Clone, PartialEq, Debug)]
struct Stats {
    count: u32,
    flags: u32,
}

impl Owner for Stats {
    fn owner() -> Address {
        Address::new_from_array(PROGRAM_ID)
    }
}

impl Discriminator for Stats {
    fn discriminator() -> Vec<u8> {
        STATS_DISC.to_vec()
    }
}

impl AnchorAccountSerialize<Stats> for LeCodec {
    fn serialize(value: &Stats, buf: &mut Vec<u8>, at: usize) -> Result<usize, ProgramError> {
        let mut bytes = value.count.to_le_bytes().to_vec();
        bytes.extend_from_slice(&value.flags.to_le_bytes());
        write_bytes(&bytes, buf, at)
    }

    fn deserialize(buf: &[u8], at: usize) -> Result<(Stats, usize), ProgramError> {
        if buf.len() - at < 8 {
            return Err(ProgramError::InvalidAccountData);
        }
        Ok((Stats { count: half(buf, at), flags: half(buf, at + 4) }, at + 8))
    }
}

type StatsAccount = SerializedAccount<Stats, LeCodec>;

#[derive(Clone, PartialEq, Debug)]
struct Ledger {
    balance: u64,
    nonce: u32,
}

impl Owner for Ledger {
    fn owner() -> Address {
        Address::new_from_array(PROGRAM_ID)
    }
}

impl Discriminator for Ledger {
    fn discriminator() -> Vec<u8> {
        LEDGER_DISC.to_vec()
    }
}

/// The layout of a derived encoding: the fields in order, each little-endian.
struct WincodeCodec;

fn ledger_bytes(ledger: &Ledger) -> Vec<u8> {
    let mut bytes = ledger.balance.to_le_bytes().to_vec();
    bytes.extend_from_slice(&ledger.nonce.to_le_bytes());
    bytes
}

impl AnchorAccountSerialize<Ledger> for WincodeCodec {
    fn serialize(value: &Ledger, buf: &mut Vec<u8>, at: usize) -> Result<usize, ProgramError> {
        let bytes = ledger_bytes(value);
        if buf.len() - at < bytes.len() {
            return Err(ProgramError::AccountDataTooSmall);
        }
        write_bytes(&bytes, buf, at)
    }

    fn deserialize(buf: &[u8], at: usize) -> Result<(Ledger, usize), ProgramError> {
        if buf.len() - at < 12 {
            return Err(ProgramError::InvalidAccountData);
        }
        let balance = half(buf, at) as u64 + ((half(buf, at + 4) as u64) << 32);
        Ok((Ledger { balance, nonce: half(buf, at + 8) }, at + 12))
    }
}

type LedgerAccount = SerializedAccount<Ledger, WincodeCodec>;

#[derive(Clone, PartialEq, Debug)]
struct Compact {
    value: u32,
}

impl Owner for Compact {
    fn owner() -> Address {
        Address::new_from_array(PROGRAM_ID)
    }
}

impl Discriminator for Compact {
    fn discriminator() -> Vec<u8> {
        COMPACT_DISC.to_vec()
    }
}

impl AnchorAccountSerialize<Compact> for LeCodec {
    fn serialize(value: &Compact, buf: &mut Vec<u8>, at: usize) -> Result<usize, ProgramError> {
        write_bytes(&value.value.to_le_bytes(), buf, at)
    }

    fn deserialize(buf: &[u8], at: usize) -> Result<(Compact, usize), ProgramError> {
        if buf.len() - at < 4 {
            return Err(ProgramError::InvalidAccountData);
        }
        Ok((Compact { value: half(buf, at) }, at + 4))
    }
}

type CompactAccount = SerializedAccount<Compact, LeCodec>;

#[derive(Clone, PartialEq, Debug)]
struct Wide {
    value: u32,
}

impl Owner for Wide {
    fn owner() -> Address {
        Address::new_from_array(PROGRAM_ID)
    }
}

impl Discriminator for Wide {
    fn discriminator() -> Vec<u8> {
        WIDE_DISC.to_vec()
    }
}

impl AnchorAccountSerialize<Wide> for LeCodec {
    fn serialize(value: &Wide, buf: &mut Vec<u8>, at: usize) -> Result<usize, ProgramError> {
        write_bytes(&value.value.to_le_bytes(), buf, at)
    }

    fn deserialize(buf: &[u8], at: usize) -> Result<(Wide, usize), ProgramError> {
        if buf.len() - at < 4 {
            return Err(ProgramError::InvalidAccountData);
        }
        Ok((Wide { value: half(buf, at) }, at + 4))
    }
}

type WideAccount = SerializedAccount<Wide, LeCodec>;

fn place(memory: &mut AccountMemory, data: Vec<u8>) -> AccountView {
    memory.push(RuntimeAccount {
        borrow_state: 255,
        is_signer: false,
        is_writable: true,
        executable: false,
        address: Address::new_from_array([0xAA; 32]),
        owner: Address::new_from_array(PROGRAM_ID),
        lamports: 1_000_000_000,
        data,
    })
}

fn set_owner(memory: &mut AccountMemory, view: AccountView, lamports: u64, owner: [u8; 32]) {
    let data = memory.account(view).data.clone();
    memory.update(view, lamports, Address::new_from_array(owner), data);
}

fn setup_stats(memory: &mut AccountMemory, count: u32, flags: u32) -> AccountView {
    let mut data = STATS_DISC.to_vec();
    data.extend_from_slice(&count.to_le_bytes());
    data.extend_from_slice(&flags.to_le_bytes());
    place(memory, data)
}

fn setup_ledger(memory: &mut AccountMemory, balance: u64, nonce: u32) -> AccountView {
    let mut data = LEDGER_DISC.to_vec();
    data.extend_from_slice(&ledger_bytes(&Ledger { balance, nonce }));
    place(memory, data)
}

#[test]
fn le_codec_immutable_load_deserializes() {
    let mut memory = AccountMemory::new();
    let view = setup_stats(&mut memory, 7, 0xABCD_1234);
    let acct = StatsAccount::load(&mut memory, view).ok().unwrap();
    assert_eq!(acct.get().count, 7);
    assert_eq!(acct.get().flags, 0xABCD_1234);
}

#[test]
fn le_codec_load_mut_exit_writes_back() {
    let mut memory = AccountMemory::new();
    let view = setup_stats(&mut memory, 1, 0);
    let mut acct = StatsAccount::load_mut(&mut memory, view).ok().unwrap();
    acct.set(Stats { count: 42, flags: 0xDEAD_BEEF });
    acct.exit(&mut memory).unwrap();
    assert_eq!(half(&memory.account(view).data, 8), 42);
    assert_eq!(half(&memory.account(view).data, 12), 0xDEAD_BEEF);
}

#[test]
fn le_codec_release_borrow_commits() {
    let mut memory = AccountMemory::new();
    let view = setup_stats(&mut memory, 1, 0);
    let mut acct = StatsAccount::load_mut(&mut memory, view).ok().unwrap();
    acct.set(Stats { count: 999, flags: 0 });
    acct.release_borrow(&mut memory).unwrap();
    assert_eq!(half(&memory.account(view).data, 8), 999);
}

#[test]
fn le_codec_reacquire_refreshes_from_buffer() {
    let mut memory = AccountMemory::new();
    let view = setup_stats(&mut memory, 1, 0);
    let mut acct = StatsAccount::load_mut(&mut memory, view).ok().unwrap();
    acct.set(Stats { count: 100, flags: 0 });
    acct.release_borrow(&mut memory).unwrap();
    let mut new_payload = [0u8; 8];
    new_payload[..4].copy_from_slice(&777u32.to_le_bytes());
    new_payload[4..8].copy_from_slice(&0x1111_2222u32.to_le_bytes());
    memory.write(view, 8, &new_payload);
    acct.reacquire_borrow_mut(&mut memory).unwrap();
    assert_eq!(acct.get().count, 777);
    assert_eq!(acct.get().flags, 0x1111_2222);
}

#[test]
fn le_codec_load_rejects_wrong_discriminator() {
    let mut memory = AccountMemory::new();
    let view = setup_stats(&mut memory, 1, 0);
    memory.write(view, 0, &[0u8; 8]);
    assert_eq!(
        StatsAccount::load(&mut memory, view).err(),
        Some(ProgramError::InvalidAccountData)
    );
}

#[test]
fn le_codec_load_rejects_wrong_owner() {
    let mut memory = AccountMemory::new();
    let view = setup_stats(&mut memory, 1, 0);
    set_owner(&mut memory, view, 1_000_000_000, [0xFE; 32]);
    assert_eq!(StatsAccount::load(&mut memory, view).err(), Some(ProgramError::IllegalOwner));
}

#[test]
fn le_codec_load_rejects_short_data() {
    let mut memory = AccountMemory::new();
    let view = place(&mut memory, STATS_DISC.to_vec());
    assert_eq!(
        StatsAccount::load(&mut memory, view).err(),
        Some(ProgramError::InvalidAccountData)
    );
}

#[test]
fn le_codec_reacquire_rejects_disc_swap() {
    let mut memory = AccountMemory::new();
    let view = setup_stats(&mut memory, 1, 0);
    let mut acct = StatsAccount::load_mut(&mut memory, view).ok().unwrap();
    acct.release_borrow(&mut memory).unwrap();
    memory.write(view, 0, &[0xFF; 8]);
    assert_eq!(
        acct.reacquire_borrow_mut(&mut memory).unwrap_err(),
        ProgramError::InvalidAccountData
    );
}

#[test]
fn le_codec_reacquire_rejects_owner_change() {
    let mut memory = AccountMemory::new();
    let view = setup_stats(&mut memory, 1, 0);
    let mut acct = StatsAccount::load_mut(&mut memory, view).ok().unwrap();
    acct.release_borrow(&mut memory).unwrap();
    set_owner(&mut memory, view, 1_000_000_000, [0xFE; 32]);
    assert_eq!(acct.reacquire_borrow_mut(&mut memory).unwrap_err(), ProgramError::IllegalOwner);
}

#[test]
fn le_codec_exit_on_transient_zero_lamport_account_serializes() {
    let mut memory = AccountMemory::new();
    let view = setup_stats(&mut memory, 1, 0xAABB_CCDD);
    let mut acct = StatsAccount::load_mut(&mut memory, view).ok().unwrap();
    acct.set(Stats { count: 555, flags: 0xAABB_CCDD });
    set_owner(&mut memory, view, 0, PROGRAM_ID);
    acct.exit(&mut memory).unwrap();
    assert_eq!(half(&memory.account(view).data, 8), 555);
}

#[test]
fn wincode_codec_load_deserializes() {
    let mut memory = AccountMemory::new();
    let view = setup_ledger(&mut memory, 1_000_000, 42);
    let acct = LedgerAccount::load(&mut memory, view).ok().unwrap();
    assert_eq!(acct.get().balance, 1_000_000);
    assert_eq!(acct.get().nonce, 42);
}

#[test]
fn wincode_codec_load_mut_exit_round_trip() {
    let mut memory = AccountMemory::new();
    let view = setup_ledger(&mut memory, 0, 0);
    let mut acct = LedgerAccount::load_mut(&mut memory, view).ok().unwrap();
    acct.set(Ledger { balance: 9_999, nonce: 7 });
    acct.exit(&mut memory).unwrap();
    acct.release(&mut memory);
    let acct = LedgerAccount::load(&mut memory, view).ok().unwrap();
    assert_eq!(acct.get().balance, 9_999);
    assert_eq!(acct.get().nonce, 7);
}

#[test]
fn wincode_codec_rejects_wrong_disc() {
    let mut memory = AccountMemory::new();
    let view = setup_ledger(&mut memory, 0, 0);
    memory.write(view, 0, &[0u8; 8]);
    assert_eq!(
        LedgerAccount::load(&mut memory, view).err(),
        Some(ProgramError::InvalidAccountData)
    );
}

#[test]
fn wincode_codec_release_reacquire_picks_up_cpi_write() {
    let mut memory = AccountMemory::new();
    let view = setup_ledger(&mut memory, 0, 0);
    let mut acct = LedgerAccount::load_mut(&mut memory, view).ok().unwrap();
    acct.release_borrow(&mut memory).unwrap();
    memory.write(view, 8, &ledger_bytes(&Ledger { balance: 12_345, nonce: 99 }));
    acct.reacquire_borrow_mut(&mut memory).unwrap();
    assert_eq!(acct.get().balance, 12_345);
    assert_eq!(acct.get().nonce, 99);
}

#[test]
fn four_byte_discriminator_load_and_exit_round_trip() {
    assert_eq!(CompactAccount::min_data_len(), COMPACT_DISC.len());
    let mut data = COMPACT_DISC.to_vec();
    data.extend_from_slice(&7u32.to_le_bytes());
    let mut memory = AccountMemory::new();
    let view = place(&mut memory, data);
    let mut acct = CompactAccount::load_mut(&mut memory, view).ok().unwrap();
    assert_eq!(acct.get().value, 7);
    acct.set(Compact { value: 99 });
    acct.exit(&mut memory).unwrap();
    assert_eq!(memory.account(view).data[..4], COMPACT_DISC);
    assert_eq!(half(&memory.account(view).data, 4), 99);
}

#[test]
fn sixteen_byte_discriminator_load_and_exit_round_trip() {
    assert_eq!(WideAccount::min_data_len(), WIDE_DISC.len());
    let mut data = WIDE_DISC.to_vec();
    data.extend_from_slice(&11u32.to_le_bytes());
    let mut memory = AccountMemory::new();
    let view = place(&mut memory, data);
    let mut acct = WideAccount::load_mut(&mut memory, view).ok().unwrap();
    assert_eq!(acct.get().value, 11);
    acct.set(Wide { value: 55 });
    acct.exit(&mut memory).unwrap();
    assert_eq!(memory.account(view).data[..16], WIDE_DISC);
    assert_eq!(half(&memory.account(view).data, 16), 55);
}

#[test]
fn four_byte_discriminator_rejects_buffer_shorter_than_disc() {
    let mut memory = AccountMemory::new();
    let view = place(&mut memory, vec![0xde, 0xad, 0xbe]);
    assert_eq!(
        CompactAccount::load(&mut memory, view).err(),
        Some(ProgramError::AccountDataTooSmall)
    );
}

#[test]
fn sixteen_byte_discriminator_rejects_classic_eight_byte_prefix() {
    let mut memory = AccountMemory::new();
    let view = place(&mut memory, WIDE_DISC[..8].to_vec());
    assert_eq!(
        WideAccount::load(&mut memory, view).err(),
        Some(ProgramError::AccountDataTooSmall)
    );
}
