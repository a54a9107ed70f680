//! The data that is updated.

use crate::accounts::serialized::{readable, AnchorAccountSerialize, BorshSerializer};
use crate::address::{address_of, lemma_address_of, Address};
use crate::le::{law_u64_round_trip, le_u64, read_u64, u64_le, u64_to_le, write_at};
use crate::schema::{Discriminator, Owner};
use solana_program_error::ProgramError;
use vstd::prelude::*;

verus! {

/// The address of the program.
pub open spec fn spec_program() -> Seq<u8> {
    Seq::new(32, |i: int| 0x42u8)
}

/// The address of the program.
pub fn program() -> (id: Address)
    ensures
        id@ == spec_program(),
{
    let id = Address {
        bytes: [
            0x42, 0x42, 0x42, 0x42, 0x42, 0x42, 0x42, 0x42, 0x42, 0x42, 0x42, 0x42, 0x42, 0x42,
            0x42, 0x42, 0x42, 0x42, 0x42, 0x42, 0x42, 0x42, 0x42, 0x42, 0x42, 0x42, 0x42, 0x42,
            0x42, 0x42, 0x42, 0x42,
        ],
    };
    assert(id@ =~= spec_program());
    id
}

/// Something that one authority controls.
#[derive(Clone, Copy, Debug, PartialEq, Eq)]
pub struct Vault {
    pub current_authority: Address,
}

impl Owner for Vault {
    open spec fn spec_owner() -> Seq<u8> {
        spec_program()
    }

    fn owner() -> (owner: Address) {
        program()
    }
}

impl Discriminator for Vault {
    open spec fn spec_discriminator() -> Seq<u8> {
        seq![0x41, 0x75, 0x74, 0x68, 0x56, 0x61, 0x75, 0x6c]
    }

    fn discriminator() -> (bytes: Vec<u8>) {
        let bytes = vec![0x41, 0x75, 0x74, 0x68, 0x56, 0x61, 0x75, 0x6c];
        assert(bytes@ =~= Self::spec_discriminator());
        bytes
    }
}

impl AnchorAccountSerialize<Vault> for BorshSerializer {
    open spec fn encoded(value: Vault) -> Seq<u8> {
        value.current_authority@
    }

    open spec fn encode_error(value: Vault, room: nat) -> Option<ProgramError> {
        if room < 32 {
            Some(ProgramError::AccountDataTooSmall)
        } else {
            None
        }
    }

    open spec fn decoded(bytes: Seq<u8>) -> Result<(Vault, nat), ProgramError> {
        if bytes.len() < 32 {
            Err(ProgramError::InvalidAccountData)
        } else {
            Ok((Vault { current_authority: address_of(bytes.take(32)) }, 32))
        }
    }

    fn serialize(value: &Vault, buf: &mut Vec<u8>, at: usize) -> (r: Result<usize, ProgramError>) {
        if buf.len() - at < 32 {
            return Err(ProgramError::AccountDataTooSmall);
        }
        write_at(buf, at, &value.current_authority.bytes);
        Ok(at + 32)
    }

    fn deserialize(buf: &[u8], at: usize) -> (r: Result<(Vault, usize), ProgramError>) {
        if buf.len() - at < 32 {
            return Err(ProgramError::InvalidAccountData);
        }
        let mut bytes: [u8; 32] = [0; 32];
        let mut i: usize = 0;
        while i < 32
            invariant
                i <= 32,
                at + 32 <= buf@.len(),
                forall|j: int| 0 <= j < i ==> bytes@[j] == buf@[at + j],
            decreases 32 - i,
        {
            bytes[i] = buf[at + i];
            i = i + 1;
        }
        let current_authority = Address { bytes };
        proof {
            assert(current_authority@ =~= buf@.skip(at as int).take(32));
            lemma_address_of(current_authority);
        }
        Ok((Vault { current_authority }, at + 32))
    }
}

/// A count of steps.
#[derive(Clone, Copy, Debug, PartialEq, Eq, Structural)]
pub struct StepCounter {
    pub value: u64,
}

impl Owner for StepCounter {
    open spec fn spec_owner() -> Seq<u8> {
        spec_program()
    }

    fn owner() -> (owner: Address) {
        program()
    }
}

impl Discriminator for StepCounter {
    open spec fn spec_discriminator() -> Seq<u8> {
        seq![0x53, 0x74, 0x65, 0x70, 0x43, 0x74, 0x72, 0x21]
    }

    fn discriminator() -> (bytes: Vec<u8>) {
        let bytes = vec![0x53, 0x74, 0x65, 0x70, 0x43, 0x74, 0x72, 0x21];
        assert(bytes@ =~= Self::spec_discriminator());
        bytes
    }
}

impl AnchorAccountSerialize<StepCounter> for BorshSerializer {
    open spec fn encoded(value: StepCounter) -> Seq<u8> {
        u64_le(value.value)
    }

    open spec fn encode_error(value: StepCounter, room: nat) -> Option<ProgramError> {
        if room < 8 {
            Some(ProgramError::AccountDataTooSmall)
        } else {
            None
        }
    }

    open spec fn decoded(bytes: Seq<u8>) -> Result<(StepCounter, nat), ProgramError> {
        if bytes.len() < 8 {
            Err(ProgramError::InvalidAccountData)
        } else {
            Ok((StepCounter { value: le_u64(bytes) }, 8))
        }
    }

    fn serialize(value: &StepCounter, buf: &mut Vec<u8>, at: usize) -> (r: Result<
        usize,
        ProgramError,
    >) {
        if buf.len() - at < 8 {
            return Err(ProgramError::AccountDataTooSmall);
        }
        let bytes = u64_to_le(value.value);
        write_at(buf, at, bytes.as_slice());
        Ok(at + 8)
    }

    fn deserialize(buf: &[u8], at: usize) -> (r: Result<(StepCounter, usize), ProgramError>) {
        if buf.len() - at < 8 {
            return Err(ProgramError::InvalidAccountData);
        }
        Ok((StepCounter { value: read_u64(buf, at) }, at + 8))
    }
}

/// What is encoded is read back, whatever follows.
pub proof fn law_updated_data_is_read_back(vault: Vault, counter: StepCounter)
    ensures
        readable::<Vault, BorshSerializer>(vault),
        readable::<StepCounter, BorshSerializer>(counter),
{
    let address = vault.current_authority;
    lemma_address_of(address);
    assert forall|rest: Seq<u8>| #[trigger]
        <BorshSerializer as AnchorAccountSerialize<Vault>>::decoded(
            <BorshSerializer as AnchorAccountSerialize<Vault>>::encoded(vault) + rest,
        ) == Ok::<(Vault, nat), ProgramError>((vault, 32)) by {
        assert((address@ + rest).take(32) =~= address@);
    }
    law_u64_round_trip(counter.value);
    assert forall|rest: Seq<u8>| #[trigger]
        <BorshSerializer as AnchorAccountSerialize<StepCounter>>::decoded(
            <BorshSerializer as AnchorAccountSerialize<StepCounter>>::encoded(counter) + rest,
        ) == Ok::<(StepCounter, nat), ProgramError>((counter, 8)) by {
        let bytes = u64_le(counter.value) + rest;
        assert(bytes.take(8) =~= u64_le(counter.value));
        assert(le_u64(bytes) == le_u64(bytes.take(8)));
    }
}

} // verus!
