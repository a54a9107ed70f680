//! Instructions whose accounts may alias each other.
//!
//! Data-carrying wrappers reject a conflicting borrow of an aliased account with
//! `AccountBorrowFailed`, in either field order and across `Nested`, `Box`, and
//! `Option` fields. Wrappers without typed data accept aliases, and raw borrows or
//! handles for other programs through them still fail while a data wrapper holds a
//! conflicting borrow.

use anchor_lang::address::check_seeds;
use anchor_lang::dup_mut;
use anchor_lang::dup_mut::accounts::{
    TouchNestedTwoMut, TouchOptionalMutAndMut, TouchOuterMutPlusNested, TouchTwoMut,
    TransferToRawAlias,
};
use anchor_lang::dup_mut::init::{Initialize, InitializeBorsh};
use anchor_lang::dup_mut::instruction;
use anchor_lang::dup_mut::state::id;
use anchor_lang::system_program::{CreateRequest, TransferRequest};
use anchor_lang::{
    run_handler, AccountCursor, AccountMemory, AccountView, Address, Context, TryAccounts,
};
use solana_program_error::ProgramError;

type Key = [u8; 32];

const SYSTEM: Key = [0u8; 32];
const PAYER: Key = [7u8; 32];

struct Stored {
    key: Key,
    owner: Key,
    lamports: u64,
    data: Vec<u8>,
    executable: bool,
}

#[derive(Clone, Copy)]
struct Meta {
    key: Key,
    signer: bool,
    writable: bool,
}

fn meta(key: Key, signer: bool) -> Meta {
    Meta { key, signer, writable: true }
}

fn readonly(key: Key, signer: bool) -> Meta {
    Meta { key, signer, writable: false }
}

struct Chain {
    accounts: Vec<Stored>,
}

impl Chain {
    fn find(&self, key: &Key) -> Option<&Stored> {
        self.accounts.iter().find(|a| a.key == *key)
    }

    /// Serializes the accounts of an instruction. The flags of an account are those of
    /// all its occurrences, and every occurrence after the first is a repeated record.
    fn encode(&self, metas: &[Meta]) -> Vec<u8> {
        let mut out: Vec<u8> = Vec::new();
        for (i, m) in metas.iter().enumerate() {
            if let Some(first) = metas[..i].iter().position(|e| e.key == m.key) {
                out.extend_from_slice(&[first as u8, 0, 0, 0, 0, 0, 0, 0]);
                continue;
            }
            let signer = metas.iter().any(|e| e.key == m.key && e.signer);
            let writable = metas.iter().any(|e| e.key == m.key && e.writable);
            let empty = Stored {
                key: m.key,
                owner: SYSTEM,
                lamports: 0,
                data: Vec::new(),
                executable: false,
            };
            let a = self.find(&m.key).unwrap_or(&empty);
            out.extend_from_slice(&[
                255,
                signer as u8,
                writable as u8,
                a.executable as u8,
                0,
                0,
                0,
                0,
            ]);
            out.extend_from_slice(&a.key);
            out.extend_from_slice(&a.owner);
            out.extend_from_slice(&a.lamports.to_le_bytes());
            out.extend_from_slice(&(a.data.len() as u64).to_le_bytes());
            out.extend_from_slice(&a.data);
            let padded = (out.len() + 10240 + 7) / 8 * 8;
            out.resize(padded + 8, 0);
        }
        out
    }

    fn commit(&mut self, memory: &AccountMemory) {
        for account in memory.accounts.iter() {
            let key = account.address.to_bytes();
            self.accounts.retain(|a| a.key != key);
            self.accounts.push(Stored {
                key,
                owner: account.owner.to_bytes(),
                lamports: account.lamports,
                data: account.data.clone(),
                executable: account.executable,
            });
        }
    }

    /// Runs a handler on the accounts and keeps what it changed, unless it failed. No
    /// borrow is left behind either way.
    fn send<T: TryAccounts, R>(
        &mut self,
        metas: &[Meta],
        ix_data: &[u8],
        handler: impl for<'a> FnOnce(
            &mut Context<'a, T>,
            &mut AccountMemory,
            T::IxArgs<'a>,
        ) -> Result<R, ProgramError>,
    ) -> Result<(R, AccountMemory), ProgramError> {
        let program_id = id();
        let mut memory = AccountMemory::new();
        let mut cursor = AccountCursor::new(self.encode(metas));
        assert!(cursor.can_walk(metas.len()));
        let result = run_handler::<T, R>(
            &program_id,
            &mut memory,
            &mut cursor,
            ix_data,
            metas.len(),
            handler,
        );
        for account in memory.accounts.iter() {
            assert_eq!(account.borrow_state, 255, "a borrow was left behind");
        }
        let r = result?;
        self.commit(&memory);
        Ok((r, memory))
    }

    /// Runs an instruction on the accounts and keeps what it changed, unless it failed. No
    /// borrow is left behind either way.
    fn call<R>(
        &mut self,
        metas: &[Meta],
        instruction: impl for<'a> FnOnce(
            &'a Address,
            &mut AccountMemory,
            &'a mut AccountCursor,
            usize,
        ) -> Result<R, ProgramError>,
    ) -> Result<(R, AccountMemory), ProgramError> {
        let program_id = id();
        let mut memory = AccountMemory::new();
        let mut cursor = AccountCursor::new(self.encode(metas));
        assert!(cursor.can_walk(metas.len()));
        let result = instruction(&program_id, &mut memory, &mut cursor, metas.len());
        for account in memory.accounts.iter() {
            assert_eq!(account.borrow_state, 255, "a borrow was left behind");
        }
        let r = result?;
        self.commit(&memory);
        Ok((r, memory))
    }

    /// What the System program does with a transfer.
    fn transfer(
        &mut self,
        memory: &mut AccountMemory,
        request: &TransferRequest,
    ) -> Result<(), ProgramError> {
        assert_eq!(request.program.to_bytes(), SYSTEM);
        let have = request.from.lamports(memory);
        if have < request.lamports {
            return Err(ProgramError::InsufficientFunds);
        }
        let from = memory.account(request.from);
        let (owner, data) = (from.owner, from.data.clone());
        memory.update(request.from, have - request.lamports, owner, data);
        let to = memory.account(request.to);
        let (owner, data, had) = (to.owner, to.data.clone(), to.lamports);
        memory.update(request.to, had + request.lamports, owner, data);
        self.commit(memory);
        Ok(())
    }

    /// What the System program does to create an account.
    fn create(&mut self, memory: &AccountMemory, request: &CreateRequest) {
        let key = request.account.address(memory).to_bytes();
        assert!(self.find(&key).is_none());
        self.accounts.push(Stored {
            key,
            owner: request.owner.to_bytes(),
            lamports: 1_000_000,
            data: vec![0; request.space],
            executable: false,
        });
    }

    fn walk(&self, metas: &[Meta]) -> (AccountMemory, Vec<AccountView>) {
        let mut memory = AccountMemory::new();
        let mut cursor = AccountCursor::new(self.encode(metas));
        assert!(cursor.can_walk(metas.len()));
        let views = cursor.walk_n(&mut memory, metas.len());
        (memory, views)
    }

    fn value(&self, key: &Key) -> u64 {
        let account = self.find(key).expect("account should exist");
        let mut bytes = [0u8; 8];
        bytes.copy_from_slice(&account.data[8..16]);
        u64::from_le_bytes(bytes)
    }
}

fn setup() -> Chain {
    let mut accounts = Vec::new();
    accounts.push(Stored {
        key: PAYER,
        owner: SYSTEM,
        lamports: 10_000_000_000,
        data: Vec::new(),
        executable: false,
    });
    accounts.push(Stored {
        key: SYSTEM,
        owner: SYSTEM,
        lamports: 1,
        data: Vec::new(),
        executable: true,
    });
    accounts.push(Stored {
        key: id().to_bytes(),
        owner: [9u8; 32],
        lamports: 1,
        data: Vec::new(),
        executable: true,
    });
    Chain { accounts }
}

fn data_key(seed: u8) -> Key {
    match seed {
        0 => [
            0x7d, 0x94, 0xb8, 0xde, 0xb4, 0x72, 0x3e, 0xa9, 0x85, 0x81, 0x06, 0xe6, 0x2a, 0x58,
            0x69, 0xf7, 0xb3, 0x5b, 0xd0, 0x4f, 0x9c, 0x42, 0x30, 0x92, 0x24, 0x99, 0x06, 0x4f,
            0x86, 0x60, 0xf0, 0xe0,
        ],
        1 => [
            0x80, 0xb5, 0x0f, 0x13, 0x4c, 0x19, 0x5e, 0x63, 0x4a, 0x12, 0x09, 0x45, 0x23, 0x29,
            0x9a, 0xa2, 0xdd, 0x94, 0xf5, 0xfd, 0x24, 0x11, 0xbd, 0x72, 0x64, 0xf6, 0xb5, 0xd6,
            0x28, 0x48, 0xe8, 0x0e,
        ],
        _ => [
            0x8e, 0x88, 0x0e, 0x54, 0x0b, 0x8f, 0xdf, 0xe9, 0x9f, 0xbf, 0xc0, 0x5c, 0x59, 0x54,
            0xd5, 0x48, 0x9c, 0xa8, 0xea, 0xb7, 0x93, 0x55, 0x3d, 0xdf, 0xf4, 0x7f, 0xcd, 0x78,
            0x2c, 0xd1, 0xc0, 0xdc,
        ],
    }
}

fn borsh_key(seed: u8) -> Key {
    match seed {
        0 => [
            0x73, 0x61, 0x40, 0x06, 0xf9, 0xd1, 0x9f, 0xb5, 0xb8, 0xbd, 0x40, 0x3b, 0x04, 0xdc,
            0x0e, 0x57, 0x00, 0x03, 0xfa, 0x21, 0xd4, 0x77, 0x32, 0x15, 0xd9, 0x99, 0x4b, 0x39,
            0x82, 0xd5, 0x6a, 0xe5,
        ],
        _ => [
            0xdd, 0x36, 0xe2, 0x37, 0x7a, 0x95, 0x86, 0x58, 0x85, 0x45, 0x2d, 0x4f, 0x1c, 0x77,
            0x5c, 0x2a, 0xdd, 0x1f, 0x43, 0x2c, 0x59, 0x78, 0x56, 0x5f, 0xa0, 0x19, 0x5f, 0x00,
            0xa0, 0x70, 0x2c, 0x2b,
        ],
    }
}

fn init_metas(key: Key) -> Vec<Meta> {
    vec![meta(PAYER, true), meta(key, false), readonly(SYSTEM, false)]
}

fn init_data(chain: &mut Chain, seed: u8) -> Key {
    let key = data_key(seed);
    let metas = init_metas(key);
    let (mut memory, views) = chain.walk(&metas);
    let request = match Initialize::plan(&id(), &mut memory, &views, &[seed]) {
        Ok(request) => request,
        Err(e) => panic!("plan: {e:?}"),
    };
    chain.create(&memory, &request);
    match chain.call(&metas, |id, memory, cursor, n| {
        instruction::initialize(id, memory, cursor, &[seed], n)
    }) {
        Ok(_) => key,
        Err(e) => panic!("initialize should succeed: {e:?}"),
    }
}

fn init_borsh(chain: &mut Chain, seed: u8) -> Key {
    let key = borsh_key(seed);
    let metas = init_metas(key);
    let (mut memory, views) = chain.walk(&metas);
    let request = match InitializeBorsh::plan(&id(), &mut memory, &views, &[seed]) {
        Ok(request) => request,
        Err(e) => panic!("plan: {e:?}"),
    };
    chain.create(&memory, &request);
    match chain.call(&metas, |id, memory, cursor, n| {
        instruction::initialize_borsh(id, memory, cursor, &[seed], n)
    }) {
        Ok(_) => key,
        Err(e) => panic!("initialize_borsh should succeed: {e:?}"),
    }
}

fn assert_borrow_failed<R>(result: Result<R, ProgramError>) {
    match result {
        Ok(_) => panic!("expected AccountBorrowFailed, got success"),
        Err(e) => assert_eq!(e, ProgramError::AccountBorrowFailed),
    }
}

fn touch_two_mut(chain: &mut Chain, keys: [Key; 2], value: u64) -> Result<(), ProgramError> {
    let metas = [meta(keys[0], false), meta(keys[1], false)];
    chain
        .call(&metas, |id, memory, cursor, n| {
            instruction::touch_two_mut(id, memory, cursor, &[], n, value)
        })
        .map(|_| ())
}

fn touch_three_mut(chain: &mut Chain, keys: [Key; 3], value: u64) -> Result<(), ProgramError> {
    let metas = [meta(keys[0], false), meta(keys[1], false), meta(keys[2], false)];
    chain
        .call(&metas, |id, memory, cursor, n| {
            instruction::touch_three_mut(id, memory, cursor, &[], n, value)
        })
        .map(|_| ())
}

fn touch_outer(chain: &mut Chain, keys: [Key; 3], value: u64) -> Result<(), ProgramError> {
    let metas = [meta(keys[0], false), meta(keys[1], false), meta(keys[2], false)];
    chain
        .call(&metas, |id, memory, cursor, n| {
            instruction::touch_outer_mut_plus_nested(id, memory, cursor, &[], n, value)
        })
        .map(|_| ())
}

#[test]
fn two_mut_distinct_ok() {
    let mut chain = setup();
    let a = init_data(&mut chain, 0);
    let b = init_data(&mut chain, 1);
    touch_two_mut(&mut chain, [a, b], 7).expect("distinct accounts should succeed");
    assert_eq!(chain.value(&a), 7);
    assert_eq!(chain.value(&b), 8);
}

#[test]
fn two_mut_alias_rejected() {
    let mut chain = setup();
    let a = init_data(&mut chain, 0);
    assert_borrow_failed(touch_two_mut(&mut chain, [a, a], 7));
    assert_eq!(chain.value(&a), 0);
}

#[test]
fn three_mut_alias_rejected_in_every_position() {
    let mut chain = setup();
    let a = init_data(&mut chain, 0);
    let b = init_data(&mut chain, 1);
    for keys in [[a, a, b], [a, b, a], [b, a, a]] {
        assert_borrow_failed(touch_three_mut(&mut chain, keys, 10));
    }
}

#[test]
fn three_mut_distinct_ok() {
    let mut chain = setup();
    let a = init_data(&mut chain, 0);
    let b = init_data(&mut chain, 1);
    let c = init_data(&mut chain, 2);
    touch_three_mut(&mut chain, [a, b, c], 10).expect("all-distinct should succeed");
    assert_eq!(chain.value(&a), 10);
    assert_eq!(chain.value(&b), 11);
    assert_eq!(chain.value(&c), 12);
}

#[test]
fn mut_then_readonly_alias_rejected() {
    let mut chain = setup();
    let a = init_data(&mut chain, 0);
    let metas = [meta(a, false), readonly(a, false)];
    assert_borrow_failed(chain.call(&metas, |id, memory, cursor, n| {
            instruction::touch_mut_and_readonly(id, memory, cursor, &[], n, 42)
        }));
}

#[test]
fn readonly_then_mut_alias_rejected() {
    let mut chain = setup();
    let a = init_data(&mut chain, 0);
    let metas = [readonly(a, false), meta(a, false)];
    assert_borrow_failed(chain.call(&metas, |id, memory, cursor, n| {
            instruction::touch_readonly_and_mut(id, memory, cursor, &[], n, 42)
        }));
}

#[test]
fn mut_and_readonly_distinct_ok() {
    let mut chain = setup();
    let a = init_data(&mut chain, 0);
    let b = init_data(&mut chain, 1);

    let metas = [meta(a, false), readonly(b, false)];
    let first = chain.call(&metas, |id, memory, cursor, n| {
            instruction::touch_mut_and_readonly(id, memory, cursor, &[], n, 42)
        });
    assert!(first.is_ok());
    assert_eq!(chain.value(&a), 42);

    let metas = [readonly(a, false), meta(b, false)];
    let second = chain.call(&metas, |id, memory, cursor, n| {
            instruction::touch_readonly_and_mut(id, memory, cursor, &[], n, 5)
        });
    assert!(second.is_ok());
    assert_eq!(chain.value(&b), 47);
}

#[test]
fn two_readonly_alias_ok() {
    let mut chain = setup();
    let a = init_data(&mut chain, 0);
    let metas = [readonly(a, false), readonly(a, false)];
    let result =
        chain.call(&metas, |id, memory, cursor, n| {
            instruction::read_two(id, memory, cursor, &[], n, 0)
        });
    assert!(result.is_ok());
}

#[test]
fn borsh_mut_and_readonly() {
    let mut chain = setup();
    let a = init_borsh(&mut chain, 0);
    let b = init_borsh(&mut chain, 1);

    let metas = [meta(a, false), readonly(a, false)];
    assert_borrow_failed(chain.call(&metas, |id, memory, cursor, n| {
            instruction::touch_borsh_mut_and_readonly(id, memory, cursor, &[], n, 3)
        }));

    let metas = [meta(a, false), readonly(b, false)];
    let result = chain.call(&metas, |id, memory, cursor, n| {
            instruction::touch_borsh_mut_and_readonly(id, memory, cursor, &[], n, 3)
        });
    assert!(result.is_ok());
    assert_eq!(chain.value(&a), 3);
}

#[test]
fn boxed_mut_and_readonly() {
    let mut chain = setup();
    let a = init_data(&mut chain, 0);
    let b = init_data(&mut chain, 1);

    let metas = [meta(a, false), readonly(a, false)];
    assert_borrow_failed(chain.call(&metas, |id, memory, cursor, n| {
            instruction::touch_boxed_mut_and_readonly(id, memory, cursor, &[], n, 4)
        }));

    let metas = [meta(a, false), readonly(b, false)];
    let result = chain.call(&metas, |id, memory, cursor, n| {
            instruction::touch_boxed_mut_and_readonly(id, memory, cursor, &[], n, 4)
        });
    assert!(result.is_ok());
    assert_eq!(chain.value(&a), 4);
}

#[test]
fn optional_some_alias_rejected() {
    let mut chain = setup();
    let a = init_data(&mut chain, 0);
    let metas = [meta(a, false), meta(a, false)];
    assert_borrow_failed(chain.call(&metas, |id, memory, cursor, n| {
            instruction::touch_optional_mut_and_mut(id, memory, cursor, &[], n, 9)
        }));
}

#[test]
fn optional_none_holds_no_borrow() {
    let mut chain = setup();
    let a = init_data(&mut chain, 0);
    let metas = [readonly(id().to_bytes(), false), meta(a, false)];
    let result = chain.send::<TouchOptionalMutAndMut, _>(&metas, &[], |ctx, memory, _| {
        assert!(ctx.accounts.data_a.is_none());
        dup_mut::touch_optional_mut_and_mut(ctx, memory, 9)
    });
    assert!(result.is_ok());
    assert_eq!(chain.value(&a), 10);
}

#[test]
fn optional_some_distinct_ok() {
    let mut chain = setup();
    let a = init_data(&mut chain, 0);
    let b = init_data(&mut chain, 1);
    let metas = [meta(a, false), meta(b, false)];
    let result = chain.call(&metas, |id, memory, cursor, n| {
            instruction::touch_optional_mut_and_mut(id, memory, cursor, &[], n, 9)
        });
    assert!(result.is_ok());
    assert_eq!(chain.value(&a), 9);
    assert_eq!(chain.value(&b), 10);
}

#[test]
fn nested_two_mut() {
    let mut chain = setup();
    let a = init_data(&mut chain, 0);
    let b = init_data(&mut chain, 1);

    let metas = [meta(a, false), meta(a, false)];
    assert_borrow_failed(chain.call(&metas, |id, memory, cursor, n| {
            instruction::touch_nested_two_mut(id, memory, cursor, &[], n, 7)
        }));

    let metas = [meta(a, false), meta(b, false)];
    let result = chain.call(&metas, |id, memory, cursor, n| {
            instruction::touch_nested_two_mut(id, memory, cursor, &[], n, 7)
        });
    assert!(result.is_ok());
    assert_eq!(chain.value(&a), 7);
    assert_eq!(chain.value(&b), 8);
}

#[test]
fn nested_mut_readonly_alias_rejected() {
    let mut chain = setup();
    let a = init_data(&mut chain, 0);
    let metas = [meta(a, false), readonly(a, false)];
    assert_borrow_failed(chain.call(&metas, |id, memory, cursor, n| {
            instruction::touch_nested_mut_readonly(id, memory, cursor, &[], n, 42)
        }));
}

#[test]
fn nested_mut_readonly_distinct_ok() {
    let mut chain = setup();
    let a = init_data(&mut chain, 0);
    let b = init_data(&mut chain, 1);
    touch_two_mut(&mut chain, [a, b], 7).unwrap();
    let metas = [meta(a, false), readonly(b, false)];
    let result = chain.call(&metas, |id, memory, cursor, n| {
            instruction::touch_nested_mut_readonly(id, memory, cursor, &[], n, u64::MAX)
        });
    assert!(result.is_ok());
    assert_eq!(chain.value(&a), 7);
    assert_eq!(chain.value(&b), 8);
}

#[test]
fn outer_and_nested_alias_rejected() {
    let mut chain = setup();
    let a = init_data(&mut chain, 0);
    let b = init_data(&mut chain, 1);
    for keys in [[a, a, b], [a, b, a]] {
        assert_borrow_failed(touch_outer(&mut chain, keys, 20));
    }
    assert_borrow_failed(touch_outer(&mut chain, [b, a, a], 20));
}

#[test]
fn outer_and_nested_distinct_ok() {
    let mut chain = setup();
    let a = init_data(&mut chain, 0);
    let b = init_data(&mut chain, 1);
    let c = init_data(&mut chain, 2);
    touch_outer(&mut chain, [a, b, c], 20).expect("distinct accounts should succeed");
    assert_eq!(chain.value(&a), 20);
    assert_eq!(chain.value(&b), 21);
    assert_eq!(chain.value(&c), 22);
}

#[test]
fn signer_roles_accept_one_wallet() {
    let mut chain = setup();
    let metas = [meta(PAYER, true), readonly(PAYER, true)];
    let result = chain.call(&metas, |id, memory, cursor, n| {
            instruction::signer_roles(id, memory, cursor, &[], n)
        });
    assert!(result.is_ok());
}

#[test]
fn system_transfer_accepts_payer_as_recipient() {
    let mut chain = setup();
    let metas = [meta(PAYER, true), meta(PAYER, false), readonly(SYSTEM, false)];
    let (request, mut memory) = chain
        .call(&metas, |id, memory, cursor, n| {
            instruction::transfer_to_recipient(id, memory, cursor, &[], n, 1_000)
        })
        .ok()
        .expect("one wallet may be both payer and recipient");
    assert_eq!(request.from, request.to);
    assert_eq!(request.lamports, 1_000);
    let reply = chain.transfer(&mut memory, &request);
    assert_eq!(request.settle(reply), Ok(()));
    assert_eq!(chain.find(&PAYER).unwrap().lamports, 10_000_000_000);
}

#[test]
fn system_transfer_to_distinct_recipient() {
    let mut chain = setup();
    let recipient = [0x5A; 32];
    let metas = [meta(PAYER, true), meta(recipient, false), readonly(SYSTEM, false)];
    let (request, mut memory) = chain
        .call(&metas, |id, memory, cursor, n| {
            instruction::transfer_to_recipient(id, memory, cursor, &[], n, 1_000_000)
        })
        .ok()
        .expect("transfer to a distinct recipient should succeed");
    let reply = chain.transfer(&mut memory, &request);
    assert_eq!(request.settle(reply), Ok(()));
    assert_eq!(chain.find(&recipient).unwrap().lamports, 1_000_000);
}

#[test]
fn a_failed_transfer_fails_the_instruction() {
    let mut chain = setup();
    let recipient = [0x5A; 32];
    let metas = [meta(PAYER, true), meta(recipient, false), readonly(SYSTEM, false)];
    let (request, mut memory) = chain
        .call(&metas, |id, memory, cursor, n| {
            instruction::transfer_to_recipient(id, memory, cursor, &[], n, u64::MAX)
        })
        .ok()
        .unwrap();
    let reply = chain.transfer(&mut memory, &request);
    assert_eq!(request.settle(reply), Err(ProgramError::InsufficientFunds));
}

#[test]
fn unchecked_alias_of_mut_data_loads_but_cannot_borrow() {
    let mut chain = setup();
    let a = init_data(&mut chain, 0);
    let metas = [meta(a, false), readonly(a, false)];

    let result = chain.call(&metas, |id, memory, cursor, n| {
            instruction::touch_data_and_raw(id, memory, cursor, &[], n, 5, false)
        });
    assert!(result.is_ok());
    assert_eq!(chain.value(&a), 5);

    assert_borrow_failed(chain.call(&metas, |id, memory, cursor, n| {
            instruction::touch_data_and_raw(id, memory, cursor, &[], n, 6, true)
        }));
    assert_eq!(chain.value(&a), 5);
}

#[test]
fn unchecked_account_beside_mut_data_can_be_borrowed() {
    let mut chain = setup();
    let a = init_data(&mut chain, 0);
    let b = init_data(&mut chain, 1);
    let metas = [meta(a, false), readonly(b, false)];
    let result = chain.call(&metas, |id, memory, cursor, n| {
            instruction::touch_data_and_raw(id, memory, cursor, &[], n, 6, true)
        });
    assert!(result.is_ok());
    assert_eq!(chain.value(&a), 6);
}

#[test]
fn cpi_through_unchecked_alias_of_mut_data_rejected() {
    let mut chain = setup();
    let a = init_data(&mut chain, 0);
    let b = init_data(&mut chain, 1);

    let metas = [meta(PAYER, true), meta(a, false), meta(a, false), readonly(SYSTEM, false)];
    assert_borrow_failed(chain.call(&metas, |id, memory, cursor, n| {
            instruction::transfer_to_raw_alias(id, memory, cursor, &[], n, 8)
        }));

    let metas = [meta(PAYER, true), meta(a, false), meta(b, false), readonly(SYSTEM, false)];
    let (request, mut memory) = chain
        .call(&metas, |id, memory, cursor, n| {
            instruction::transfer_to_raw_alias(id, memory, cursor, &[], n, 8)
        })
        .ok()
        .expect("a distinct unchecked account should succeed");
    assert_eq!(request.lamports, 0);
    let reply = chain.transfer(&mut memory, &request);
    assert_eq!(request.settle(reply), Ok(()));
    assert_eq!(chain.value(&a), 8);
}

#[test]
fn numbers_wrap_around() {
    let mut chain = setup();
    let a = init_data(&mut chain, 0);
    let b = init_data(&mut chain, 1);
    let c = init_data(&mut chain, 2);
    touch_three_mut(&mut chain, [a, b, c], u64::MAX).unwrap();
    assert_eq!(chain.value(&a), u64::MAX);
    assert_eq!(chain.value(&b), 0);
    assert_eq!(chain.value(&c), 1);
}

#[test]
fn read_two_checks_both_accounts() {
    let mut chain = setup();
    let a = init_data(&mut chain, 0);
    let b = init_data(&mut chain, 1);
    touch_two_mut(&mut chain, [a, b], 7).unwrap();
    for (keys, expected, ok) in
        [([a, a], 7, true), ([a, b], 7, false), ([b, a], 7, false), ([b, b], 7, false)]
    {
        let metas = [readonly(keys[0], false), readonly(keys[1], false)];
        let result = chain.call(&metas, |id, memory, cursor, n| {
            instruction::read_two(id, memory, cursor, &[], n, expected)
        });
        if ok {
            assert!(result.is_ok());
        } else {
            assert_eq!(result.err(), Some(ProgramError::InvalidAccountData));
        }
    }
}

#[test]
fn too_few_accounts_are_refused() {
    let mut chain = setup();
    let a = init_data(&mut chain, 0);
    let result = chain.send::<TouchTwoMut, _>(&[meta(a, false)], &[], |ctx, memory, _| {
        dup_mut::touch_two_mut(ctx, memory, 1)
    });
    assert_eq!(result.err(), Some(ProgramError::NotEnoughAccountKeys));
    assert_eq!(chain.value(&a), 0);
}

#[test]
fn accounts_after_the_declared_ones_are_the_remaining_ones() {
    let mut chain = setup();
    let a = init_data(&mut chain, 0);
    let b = init_data(&mut chain, 1);
    let c = init_data(&mut chain, 2);
    let metas = [meta(a, false), meta(b, false), meta(c, false), meta(a, false)];
    let result = chain.send::<TouchTwoMut, _>(&metas, &[], |ctx, memory, _| {
        let remaining = ctx.remaining_accounts(memory);
        assert_eq!(remaining.len(), 2);
        assert_eq!(remaining[0].address(memory).to_bytes(), c);
        assert_eq!(remaining[1], ctx.accounts.data_a.view);
        assert_eq!(
            remaining[1].check_borrow(memory),
            Err(ProgramError::AccountBorrowFailed)
        );
        dup_mut::touch_two_mut(ctx, memory, 3)
    });
    assert!(result.is_ok());
    assert_eq!(chain.value(&a), 3);
    assert_eq!(chain.value(&b), 4);
    assert_eq!(chain.value(&c), 0);
}

#[test]
fn a_failing_handler_gives_its_borrows_back() {
    let mut chain = setup();
    let a = init_data(&mut chain, 0);
    let b = init_data(&mut chain, 1);
    let metas = [meta(a, false), meta(b, false)];
    let result: Result<((), AccountMemory), ProgramError> =
        chain.send::<TouchTwoMut, ()>(&metas, &[], |_, _, _| Err(ProgramError::Custom(77)));
    assert_eq!(result.err(), Some(ProgramError::Custom(77)));
}

#[test]
fn header_sizes_add_up() {
    assert_eq!(TouchTwoMut::HEADER_SIZE, 2);
    assert_eq!(TouchNestedTwoMut::HEADER_SIZE, 2);
    assert_eq!(TouchOuterMutPlusNested::HEADER_SIZE, 3);
    assert_eq!(TransferToRawAlias::HEADER_SIZE, 4);
}

#[test]
fn a_plan_names_the_program_address_and_its_bump() {
    let chain = setup();
    let (mut memory, views) = chain.walk(&init_metas(borsh_key(1)));
    let request = InitializeBorsh::plan(&id(), &mut memory, &views, &[1]).ok().unwrap();
    assert_eq!(request.bump, 252);
    assert_eq!(request.seed, 1);
    assert_eq!(request.prefix, b'b');
    assert_eq!(request.space, 16);
    assert_eq!(request.owner, id());
    assert_eq!(request.payer, views[0]);
    assert_eq!(request.account, views[1]);

    let (mut memory, views) = chain.walk(&init_metas(data_key(0)));
    let request = Initialize::plan(&id(), &mut memory, &views, &[0]).ok().unwrap();
    assert_eq!(request.bump, 255);
    assert_eq!(request.prefix, b'd');
}

#[test]
fn a_plan_is_refused_for_a_wrong_address_payer_or_argument() {
    let chain = setup();
    let (mut memory, views) = chain.walk(&init_metas(data_key(1)));
    assert_eq!(
        Initialize::plan(&id(), &mut memory, &views, &[0]).err(),
        Some(ProgramError::InvalidSeeds)
    );
    assert_eq!(
        Initialize::plan(&id(), &mut memory, &views, &[]).err(),
        Some(ProgramError::InvalidInstructionData)
    );
    let other = Address::new_from_array([1; 32]);
    assert_eq!(
        Initialize::plan(&other, &mut memory, &views, &[1]).err(),
        Some(ProgramError::InvalidSeeds)
    );
    assert!(Initialize::plan(&id(), &mut memory, &views, &[1]).is_ok());
    let guard = views[1].try_borrow(&mut memory);
    assert!(guard.is_ok());
    assert_eq!(
        Initialize::plan(&id(), &mut memory, &views, &[1]).err(),
        Some(ProgramError::AccountBorrowFailed)
    );
    let metas = [meta(PAYER, false), meta(data_key(1), false), readonly(SYSTEM, false)];
    let (mut memory, views) = chain.walk(&metas);
    assert_eq!(
        Initialize::plan(&id(), &mut memory, &views, &[1]).err(),
        Some(ProgramError::MissingRequiredSignature)
    );
}

#[test]
fn an_account_is_initialized_once() {
    let mut chain = setup();
    let a = init_data(&mut chain, 0);
    assert_eq!(chain.value(&a), 0);
    assert_eq!(
        chain.find(&a).unwrap().data[..8],
        [0xce, 0x9c, 0x3b, 0xbc, 0x12, 0x4f, 0xf0, 0xe8]
    );
    let again = chain.send::<Initialize, _>(&init_metas(a), &[0], |ctx, _, seed| {
        dup_mut::initialize(ctx, seed)
    });
    assert_eq!(again.err(), Some(ProgramError::AccountAlreadyInitialized));

    let b = init_borsh(&mut chain, 0);
    assert_eq!(
        chain.find(&b).unwrap().data,
        vec![0x14, 0xd2, 0x9e, 0x22, 0x29, 0xd7, 0xed, 0x8d, 0, 0, 0, 0, 0, 0, 0, 0]
    );
}

#[test]
fn a_new_account_has_its_bump_and_seed_in_the_context() {
    let mut chain = setup();
    let key = borsh_key(1);
    let metas = init_metas(key);
    let (mut memory, views) = chain.walk(&metas);
    let request = InitializeBorsh::plan(&id(), &mut memory, &views, &[1]).ok().unwrap();
    chain.create(&memory, &request);
    let result = chain.send::<InitializeBorsh, _>(&metas, &[1], |ctx, _, seed| {
        assert_eq!(seed, 1);
        assert_eq!(ctx.bumps.data, 252);
        assert_eq!(ctx.accounts.data.get().value, 0);
        dup_mut::initialize_borsh(ctx, seed)
    });
    assert!(result.is_ok());
}

#[test]
fn an_account_that_was_not_created_is_not_initialized() {
    let mut chain = setup();
    let missing = chain.send::<Initialize, _>(&init_metas(data_key(0)), &[0], |ctx, _, seed| {
        dup_mut::initialize(ctx, seed)
    });
    assert_eq!(missing.err(), Some(ProgramError::IllegalOwner));
    chain.accounts.push(Stored {
        key: data_key(0),
        owner: id().to_bytes(),
        lamports: 1,
        data: vec![0; 15],
        executable: false,
    });
    let short = chain.send::<Initialize, _>(&init_metas(data_key(0)), &[0], |ctx, _, seed| {
        dup_mut::initialize(ctx, seed)
    });
    assert_eq!(short.err(), Some(ProgramError::AccountDataTooSmall));
}

#[test]
fn a_derived_address_decides_what_may_be_created() {
    let expected = Address::new_from_array(data_key(0));
    let other = Address::new_from_array(data_key(1));
    assert_eq!(check_seeds(&expected, Some((expected, 254))), Ok(254));
    assert_eq!(check_seeds(&expected, Some((other, 254))), Err(ProgramError::InvalidSeeds));
    assert_eq!(check_seeds(&expected, None), Err(ProgramError::InvalidSeeds));

    let chain = setup();
    let (mut memory, views) = chain.walk(&init_metas(data_key(0)));
    let request = Initialize::plan_at(&id(), &mut memory, &views, 9, Some((expected, 254)));
    let request = request.ok().unwrap();
    assert_eq!((request.prefix, request.seed, request.bump), (b'd', 9, 254));
    let request = InitializeBorsh::plan_at(&id(), &mut memory, &views, 9, Some((expected, 254)));
    let request = request.ok().unwrap();
    assert_eq!((request.prefix, request.seed, request.bump), (b'b', 9, 254));
    assert_eq!(
        Initialize::plan_at(&id(), &mut memory, &views, 9, None).err(),
        Some(ProgramError::InvalidSeeds)
    );
    assert_eq!(
        InitializeBorsh::plan_at(&id(), &mut memory, &views, 9, Some((other, 254))).err(),
        Some(ProgramError::InvalidSeeds)
    );
}

#[test]
fn a_new_account_is_loaded_at_the_derived_address() {
    let mut chain = setup();
    chain.accounts.push(Stored {
        key: data_key(0),
        owner: id().to_bytes(),
        lamports: 1,
        data: vec![0; 16],
        executable: false,
    });
    let expected = Address::new_from_array(data_key(0));
    let metas = init_metas(data_key(0));
    let (mut memory, views) = chain.walk(&metas);
    assert_eq!(
        Initialize::load_at(&mut memory, &views, 9, None).err(),
        Some(ProgramError::InvalidSeeds)
    );
    assert_eq!(memory.account(views[1]).data, vec![0; 16]);
    let loaded = Initialize::load_at(&mut memory, &views, 9, Some((expected, 254)));
    let (accounts, bumps, seed) = loaded.ok().unwrap();
    assert_eq!(bumps.data, 254);
    assert_eq!(seed, 9);
    assert_eq!(accounts.data.get(&memory).value, 0);
    assert_eq!(memory.account(views[1]).borrow_state, 0);

    let (mut memory, views) = chain.walk(&metas);
    let loaded = InitializeBorsh::load_at(&mut memory, &views, 9, Some((expected, 254)));
    let (accounts, bumps, seed) = loaded.ok().unwrap();
    assert_eq!((bumps.data, seed, accounts.data.get().value), (254, 9, 0));
}

#[test]
fn the_cursor_moves_past_the_remaining_accounts_only_when_they_are_listed() {
    let mut chain = setup();
    let keys = [init_data(&mut chain, 0), init_data(&mut chain, 1), init_data(&mut chain, 2)];
    let metas = [meta(keys[0], false), meta(keys[1], false), meta(keys[2], false)];
    for list in [false, true] {
        let program_id = id();
        let mut memory = AccountMemory::new();
        let mut cursor = AccountCursor::new(chain.encode(&metas));
        assert!(cursor.can_walk(3));
        let result = run_handler::<TouchTwoMut, usize>(
            &program_id,
            &mut memory,
            &mut cursor,
            &[],
            3,
            |ctx, memory, _| {
                if list {
                    assert_eq!(ctx.remaining_accounts(memory), ctx.remaining_accounts(memory));
                }
                Ok(memory.len())
            },
        );
        let walked = if list { 3 } else { 2 };
        assert_eq!(result, Ok(walked));
        assert_eq!(cursor.consumed(), walked);
    }
}
