//! The program's id and the data of its accounts.

use crate::accounts::serialized::{readable, AnchorAccountSerialize, BorshSerializer};
use crate::address::Address;
use crate::le::{law_u64_round_trip, le_u64, read_u64, u64_le, u64_to_le, write_at};
use crate::schema::{faithful, Discriminator, Owner, Pod};
use solana_program_error::ProgramError;
use vstd::prelude::*;

verus! {

/// The program's id, `2TxMd2YAMi9Sk4xxiJBNkYQNuxK9FwvwwiujuEbKoanz`.
pub open spec fn spec_id() -> Seq<u8> {
    seq![
        0x15, 0xc3, 0x60, 0xf0, 0x5b, 0x2d, 0xcd, 0xdd, 0x1b, 0xbf, 0xa2, 0x01, 0xfb, 0x77, 0x99,
        0xd7, 0xcf, 0xa4, 0x01, 0x4c, 0x73, 0x32, 0x7b, 0x3e, 0x61, 0xac, 0x33, 0xb4, 0x24, 0x11,
        0x72, 0xdf,
    ]
}

/// The program's id.
pub fn id() -> (id: Address)
    ensures
        id@ == spec_id(),
{
    let id = Address {
        bytes: [
            0x15, 0xc3, 0x60, 0xf0, 0x5b, 0x2d, 0xcd, 0xdd, 0x1b, 0xbf, 0xa2, 0x01, 0xfb, 0x77,
            0x99, 0xd7, 0xcf, 0xa4, 0x01, 0x4c, 0x73, 0x32, 0x7b, 0x3e, 0x61, 0xac, 0x33, 0xb4,
            0x24, 0x11, 0x72, 0xdf,
        ],
    };
    assert(id@ =~= spec_id());
    id
}

/// A number, kept in place.
#[derive(Clone, Copy, Debug, PartialEq, Eq, Structural)]
pub struct Data {
    pub value: u64,
}

impl Pod for Data {
    open spec fn size() -> nat {
        8
    }

    open spec fn encoded(self) -> Seq<u8> {
        u64_le(self.value)
    }

    open spec fn decoded(bytes: Seq<u8>) -> Self {
        Data { value: le_u64(bytes) }
    }

    fn size_of() -> (n: usize) {
        8
    }

    fn to_bytes(&self) -> (bytes: Vec<u8>) {
        proof {
            law_u64_round_trip(self.value);
        }
        u64_to_le(self.value)
    }

    fn from_bytes(data: &[u8], at: usize) -> (value: Self) {
        Data { value: read_u64(data, at) }
    }
}

/// A number is read back from its bytes.
pub proof fn law_data_is_read_back(data: Data)
    ensures
        faithful(data),
{
    law_u64_round_trip(data.value);
}

impl Owner for Data {
    open spec fn spec_owner() -> Seq<u8> {
        spec_id()
    }

    fn owner() -> (owner: Address) {
        id()
    }
}

impl Discriminator for Data {
    open spec fn spec_discriminator() -> Seq<u8> {
        seq![0xce, 0x9c, 0x3b, 0xbc, 0x12, 0x4f, 0xf0, 0xe8]
    }

    fn discriminator() -> (bytes: Vec<u8>) {
        let bytes = vec![0xce, 0x9c, 0x3b, 0xbc, 0x12, 0x4f, 0xf0, 0xe8];
        assert(bytes@ =~= Self::spec_discriminator());
        bytes
    }
}

/// A number, in the Borsh format.
#[derive(Clone, Copy, Debug, PartialEq, Eq, Structural)]
pub struct BorshData {
    pub value: u64,
}

impl Owner for BorshData {
    open spec fn spec_owner() -> Seq<u8> {
        spec_id()
    }

    fn owner() -> (owner: Address) {
        id()
    }
}

impl Discriminator for BorshData {
    open spec fn spec_discriminator() -> Seq<u8> {
        seq![0x14, 0xd2, 0x9e, 0x22, 0x29, 0xd7, 0xed, 0x8d]
    }

    fn discriminator() -> (bytes: Vec<u8>) {
        let bytes = vec![0x14, 0xd2, 0x9e, 0x22, 0x29, 0xd7, 0xed, 0x8d];
        assert(bytes@ =~= Self::spec_discriminator());
        bytes
    }
}

impl AnchorAccountSerialize<BorshData> for BorshSerializer {
    open spec fn encoded(value: BorshData) -> Seq<u8> {
        u64_le(value.value)
    }

    open spec fn encode_error(value: BorshData, room: nat) -> Option<ProgramError> {
        if room < 8 {
            Some(ProgramError::AccountDataTooSmall)
        } else {
            None
        }
    }

    open spec fn decoded(bytes: Seq<u8>) -> Result<(BorshData, nat), ProgramError> {
        if bytes.len() < 8 {
            Err(ProgramError::InvalidAccountData)
        } else {
            Ok((BorshData { value: le_u64(bytes) }, 8))
        }
    }

    fn serialize(value: &BorshData, buf: &mut Vec<u8>, at: usize) -> (r: Result<
        usize,
        ProgramError,
    >) {
        if buf.len() - at < 8 {
            return Err(ProgramError::AccountDataTooSmall);
        }
        let bytes = u64_to_le(value.value);
        write_at(buf, at, bytes.as_slice());
        Ok(at + 8)
    }

    fn deserialize(buf: &[u8], at: usize) -> (r: Result<(BorshData, usize), ProgramError>) {
        if buf.len() - at < 8 {
            return Err(ProgramError::InvalidAccountData);
        }
        Ok((BorshData { value: read_u64(buf, at) }, at + 8))
    }
}

/// A number in the Borsh format is read back from its encoding, whatever follows.
pub proof fn law_borsh_data_is_read_back(data: BorshData)
    ensures
        readable::<BorshData, BorshSerializer>(data),
{
    law_u64_round_trip(data.value);
    assert forall|rest: Seq<u8>| #[trigger]
        <BorshSerializer as AnchorAccountSerialize<BorshData>>::decoded(
            u64_le(data.value) + rest,
        ) == Ok::<
            (BorshData, nat),
            ProgramError,
        >((data, 8)) by {
        let bytes = u64_le(data.value) + rest;
        assert(bytes.take(8) =~= u64_le(data.value));
        assert(le_u64(bytes) == le_u64(bytes.take(8)));
    }
}

} // verus!
