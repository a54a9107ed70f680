//! Walking serialized accounts, and the remaining accounts of a context.

use anchor_lang::cursor::{append_account, append_repeated, AccountCursor};
use anchor_lang::memory::{AccountMemory, Release, RuntimeAccount};
use anchor_lang::{Address, Bumps, Context};
use solana_program_error::ProgramError;

struct DummyHeader;

impl Bumps for DummyHeader {
    type Bumps = ();
}

enum Record {
    NonDup { address: [u8; 32], lamports: u64, data_len: usize },
    Dup { index: u8 },
}

fn unique_addr(i: u8) -> [u8; 32] {
    let mut a = [0u8; 32];
    a[0] = i + 1;
    a
}

fn non_dup(i: u8) -> Record {
    Record::NonDup { address: unique_addr(i), lamports: 100 + i as u64, data_len: 0 }
}

fn non_dup_with_data(i: u8, data_len: usize) -> Record {
    Record::NonDup { address: unique_addr(i), lamports: 100, data_len }
}

fn build(records: &[Record]) -> Vec<u8> {
    let mut out: Vec<u8> = Vec::new();
    for record in records {
        match record {
            Record::NonDup { address, lamports, data_len } => {
                out.extend_from_slice(&[255, 0, 0, 0, 0, 0, 0, 0]);
                out.extend_from_slice(address);
                out.extend_from_slice(&[0xAA; 32]);
                out.extend_from_slice(&lamports.to_le_bytes());
                out.extend_from_slice(&(*data_len as u64).to_le_bytes());
                let end = out.len() + data_len + 10240;
                let padded = (end + 7) / 8 * 8;
                out.resize(padded + 8, 0);
            }
            Record::Dup { index } => {
                out.extend_from_slice(&[*index, 0, 0, 0, 0, 0, 0, 0]);
            }
        }
    }
    out
}

#[test]
fn cursor_next_advances_across_records() {
    let mut memory = AccountMemory::new();
    let mut cursor = AccountCursor::new(build(&[non_dup(0), non_dup(1), non_dup(2)]));

    assert_eq!(cursor.consumed(), 0);
    let v0 = cursor.next(&mut memory);
    assert_eq!(v0.address(&memory).to_bytes(), unique_addr(0));
    assert_eq!(cursor.consumed(), 1);
    let v1 = cursor.next(&mut memory);
    assert_eq!(v1.address(&memory).to_bytes(), unique_addr(1));
    let v2 = cursor.next(&mut memory);
    assert_eq!(v2.address(&memory).to_bytes(), unique_addr(2));
    assert_eq!(cursor.consumed(), 3);
}

#[test]
fn cursor_next_walks_past_variable_data_regions() {
    let mut memory = AccountMemory::new();
    let mut cursor = AccountCursor::new(build(&[
        non_dup_with_data(0, 3),
        non_dup_with_data(1, 17),
        non_dup_with_data(2, 8),
    ]));

    for i in 0u8..3 {
        let view = cursor.next(&mut memory);
        assert_eq!(view.address(&memory).to_bytes(), unique_addr(i));
        let expected_data_len = match i {
            0 => 3,
            1 => 17,
            _ => 8,
        };
        assert_eq!(view.data_len(&memory), expected_data_len);
    }
}

#[test]
fn cursor_walk_n_returns_all_views_at_once() {
    let mut memory = AccountMemory::new();
    let mut cursor = AccountCursor::new(build(&[non_dup(0), non_dup(1), non_dup(2), non_dup(3)]));

    let views = cursor.walk_n(&mut memory, 4);
    assert_eq!(views.len(), 4);
    for (i, v) in views.iter().enumerate() {
        assert_eq!(v.address(&memory).to_bytes(), unique_addr(i as u8));
    }
    assert_eq!(cursor.consumed(), 4);
}

#[test]
fn cursor_dup_resolves_to_earlier_view() {
    let mut memory = AccountMemory::new();
    let mut cursor = AccountCursor::new(build(&[non_dup(0), non_dup(1), Record::Dup { index: 0 }]));

    let views = cursor.walk_n(&mut memory, 3);

    assert_eq!(views[0].address(&memory).to_bytes(), unique_addr(0));
    assert_eq!(views[1].address(&memory).to_bytes(), unique_addr(1));
    assert_eq!(views[2].address(&memory).to_bytes(), unique_addr(0));
    assert_eq!(views[2], views[0]);
    assert_eq!(memory.len(), 2);
}

#[test]
fn cursor_dup_shares_borrow_state_with_earlier_view() {
    let mut memory = AccountMemory::new();
    let mut cursor = AccountCursor::new(build(&[non_dup(0), Record::Dup { index: 0 }]));

    let views = cursor.walk_n(&mut memory, 2);
    let original = views[0];
    let alias = views[1];

    let guard = match original.try_borrow_mut(&mut memory) {
        Ok(guard) => guard,
        Err(e) => panic!("first borrow: {e:?}"),
    };
    assert_eq!(alias.try_borrow(&mut memory).err(), Some(ProgramError::AccountBorrowFailed));
    guard.release(&mut memory);
    assert!(alias.try_borrow(&mut memory).is_ok());
}

#[test]
fn remaining_accounts_walks_trailing_region() {
    let mut memory = AccountMemory::new();
    let mut cursor =
        AccountCursor::new(build(&[non_dup(0), non_dup(1), non_dup(2), non_dup(3), non_dup(4)]));
    let _ = cursor.walk_n(&mut memory, 2);
    assert_eq!(cursor.consumed(), 2);

    let program_id = Address::new_from_array([0x42; 32]);
    let mut ctx: Context<'_, DummyHeader> =
        Context::new(&program_id, DummyHeader, (), &mut cursor, 3);

    let remaining = ctx.remaining_accounts(&mut memory);
    assert_eq!(remaining.len(), 3);
    assert_eq!(remaining[0].address(&memory).to_bytes(), unique_addr(2));
    assert_eq!(remaining[1].address(&memory).to_bytes(), unique_addr(3));
    assert_eq!(remaining[2].address(&memory).to_bytes(), unique_addr(4));
}

#[test]
fn remaining_account_views_expose_compat_helpers() {
    let mut memory = AccountMemory::new();
    let mut cursor = AccountCursor::new(build(&[
        non_dup(0),
        non_dup_with_data(1, 16),
        non_dup_with_data(2, 32),
    ]));
    let _ = cursor.walk_n(&mut memory, 1);

    let program_id = Address::new_from_array([0x42; 32]);
    let mut ctx: Context<'_, DummyHeader> =
        Context::new(&program_id, DummyHeader, (), &mut cursor, 2);

    let remaining = ctx.remaining_accounts(&mut memory);
    assert_eq!(remaining[0].key(&memory).to_bytes(), unique_addr(1));
    assert!(!remaining[0].data_is_empty(&memory));
    assert_eq!(remaining[0].try_data_len(&memory).unwrap(), 16);
    let shared = remaining[0].try_borrow_data(&mut memory).ok().unwrap();
    assert_eq!(shared.len(&memory), 16);
    shared.release(&mut memory);
    let exclusive = remaining[0].try_borrow_mut_data(&mut memory).ok().unwrap();
    assert_eq!(exclusive.len(&memory), 16);
    exclusive.release(&mut memory);
}

#[test]
fn remaining_accounts_returns_empty_when_nothing_trails() {
    let mut memory = AccountMemory::new();
    let mut cursor = AccountCursor::new(build(&[non_dup(0), non_dup(1)]));
    let _ = cursor.walk_n(&mut memory, 2);

    let program_id = Address::new_from_array([0x42; 32]);
    let mut ctx: Context<'_, DummyHeader> =
        Context::new(&program_id, DummyHeader, (), &mut cursor, 0);

    assert!(ctx.remaining_accounts(&mut memory).is_empty());
    assert!(ctx.remaining_accounts(&mut memory).is_empty());
}

#[test]
fn remaining_accounts_caches_and_does_not_re_walk_cursor() {
    let mut memory = AccountMemory::new();
    let mut cursor = AccountCursor::new(build(&[non_dup(0), non_dup(1), non_dup(2)]));
    let _ = cursor.walk_n(&mut memory, 1);

    let program_id = Address::new_from_array([0x42; 32]);
    let consumed_before = cursor.consumed();
    let mut ctx: Context<'_, DummyHeader> =
        Context::new(&program_id, DummyHeader, (), &mut cursor, 2);

    let first = ctx.remaining_accounts(&mut memory);
    let second = ctx.remaining_accounts(&mut memory);

    assert_eq!(first.len(), 2);
    assert_eq!(second.len(), 2);
    for (a, b) in first.iter().zip(second.iter()) {
        assert_eq!(a.address(&memory).to_bytes(), b.address(&memory).to_bytes());
    }
    drop(ctx);
    assert_eq!(cursor.consumed(), consumed_before + 2);
}

#[test]
fn remaining_alias_shares_borrow_state_with_declared_view() {
    let mut memory = AccountMemory::new();
    let mut cursor = AccountCursor::new(build(&[non_dup(0), Record::Dup { index: 0 }]));
    let declared = cursor.walk_n(&mut memory, 1)[0];
    let declared_address = declared.address(&memory);
    let guard = match declared.try_borrow_mut(&mut memory) {
        Ok(guard) => guard,
        Err(e) => panic!("declared borrow: {e:?}"),
    };

    let program_id = Address::new_from_array([0x42; 32]);
    let mut ctx: Context<'_, DummyHeader> =
        Context::new(&program_id, DummyHeader, (), &mut cursor, 1);

    let remaining = ctx.remaining_accounts(&mut memory);
    assert_eq!(remaining[0].address(&memory), declared_address);
    assert_eq!(
        remaining[0].try_borrow(&mut memory).err(),
        Some(ProgramError::AccountBorrowFailed)
    );
    guard.release(&mut memory);
    assert!(remaining[0].try_borrow(&mut memory).is_ok());
}

#[test]
fn records_are_parsed_field_by_field() {
    let mut input: Vec<u8> = vec![255, 1, 0, 1, 0, 0, 0, 0];
    input.extend_from_slice(&[0x11; 32]);
    input.extend_from_slice(&[0x22; 32]);
    input.extend_from_slice(&0x0102_0304_0506_0708u64.to_le_bytes());
    input.extend_from_slice(&3u64.to_le_bytes());
    input.extend_from_slice(&[7, 8, 9]);
    input.resize((88usize + 3 + 10240 + 7) / 8 * 8 + 8, 0);
    let mut memory = AccountMemory::new();
    let mut cursor = AccountCursor::new(input);
    let view = cursor.next(&mut memory);
    assert!(view.is_signer(&memory));
    assert!(!view.is_writable(&memory));
    assert!(view.executable(&memory));
    assert_eq!(view.address(&memory).to_bytes(), [0x11; 32]);
    assert_eq!(view.owner(&memory).to_bytes(), [0x22; 32]);
    assert_eq!(view.lamports(&memory), 0x0102_0304_0506_0708);
    assert_eq!(memory.account(view).data, vec![7, 8, 9]);
    assert!(!view.is_borrowed(&memory));
}

#[test]
fn can_walk_counts_whole_records() {
    let input = build(&[non_dup(0), Record::Dup { index: 0 }, non_dup_with_data(1, 5)]);
    let cursor = AccountCursor::new(input.clone());
    assert!(cursor.can_walk(0));
    assert!(cursor.can_walk(3));
    assert!(!cursor.can_walk(4));

    let mut short = input.clone();
    short.pop();
    assert!(AccountCursor::new(short.clone()).can_walk(2));
    assert!(!AccountCursor::new(short).can_walk(3));

    assert!(!AccountCursor::new(build(&[Record::Dup { index: 0 }])).can_walk(1));
    assert!(!AccountCursor::new(build(&[non_dup(0), Record::Dup { index: 1 }])).can_walk(2));
}

#[test]
fn walking_in_two_steps_is_walking_in_one() {
    let records = [non_dup(0), Record::Dup { index: 0 }, non_dup(1), Record::Dup { index: 2 }];
    let mut once_memory = AccountMemory::new();
    let mut once = AccountCursor::new(build(&records));
    let all = once.walk_n(&mut once_memory, 4);

    let mut memory = AccountMemory::new();
    let mut cursor = AccountCursor::new(build(&records));
    let mut parts = cursor.walk_n(&mut memory, 1);
    parts.extend(cursor.walk_n(&mut memory, 3));
    assert_eq!(parts, all);
    assert_eq!(cursor.pos, once.pos);
    assert_eq!(memory.len(), once_memory.len());
}

#[test]
fn appended_records_are_parsed_again() {
    let account = |first: u8, data: Vec<u8>| RuntimeAccount {
        borrow_state: 255,
        is_signer: first % 2 == 0,
        is_writable: first % 2 == 1,
        executable: first % 3 == 0,
        address: Address::new_from_array([first; 32]),
        owner: Address::new_from_array([first + 1; 32]),
        lamports: u64::MAX - first as u64,
        data,
    };
    let mut input: Vec<u8> = Vec::new();
    append_account(&mut input, &account(4, vec![1, 2, 3, 4, 5]));
    append_repeated(&mut input, 0);
    append_account(&mut input, &account(9, vec![]));
    let mut memory = AccountMemory::new();
    let mut cursor = AccountCursor::new(input);
    assert!(cursor.can_walk(3));
    let views = cursor.walk_n(&mut memory, 3);
    assert_eq!(views[0], views[1]);
    for (view, first, data) in [(views[0], 4u8, vec![1, 2, 3, 4, 5]), (views[2], 9u8, vec![])] {
        let expected = account(first, data);
        let found = memory.account(view);
        assert_eq!(found.borrow_state, 255);
        assert_eq!(found.is_signer, expected.is_signer);
        assert_eq!(found.is_writable, expected.is_writable);
        assert_eq!(found.executable, expected.executable);
        assert_eq!(found.address, expected.address);
        assert_eq!(found.owner, expected.owner);
        assert_eq!(found.lamports, expected.lamports);
        assert_eq!(found.data, expected.data);
    }
    assert_eq!(cursor.pos, cursor.input.len());
}

#[test]
fn appended_records_have_the_runtime_layout() {
    let mut input: Vec<u8> = Vec::new();
    append_account(
        &mut input,
        &RuntimeAccount {
            borrow_state: 255,
            is_signer: false,
            is_writable: false,
            executable: false,
            address: Address::new_from_array(unique_addr(0)),
            owner: Address::new_from_array([0xAA; 32]),
            lamports: 100,
            data: vec![0; 3],
        },
    );
    append_repeated(&mut input, 0);
    assert_eq!(input, build(&[non_dup_with_data(0, 3), Record::Dup { index: 0 }]));
}
