//! Account addresses and the derivation of program addresses.

use crate::error::ErrorCode;
use solana_program_error::ProgramError;
use vstd::prelude::*;

verus! {

/// A 32-byte account address.
#[derive(Clone, Copy, Debug, PartialEq, Eq)]
pub struct Address {
    pub bytes: [u8; 32],
}

impl View for Address {
    type V = Seq<u8>;

    open spec fn view(&self) -> Seq<u8> {
        self.bytes@
    }
}

impl Address {
    pub fn new_from_array(bytes: [u8; 32]) -> (address: Address)
        ensures
            address.bytes == bytes,
    {
        Address { bytes }
    }

    pub fn to_bytes(&self) -> (bytes: [u8; 32])
        ensures
            bytes == self.bytes,
    {
        self.bytes
    }

    /// Whether two addresses hold the same bytes.
    pub fn same_as(&self, other: &Address) -> (same: bool)
        ensures
            same == (self@ == other@),
    {
        let mut i: usize = 0;
        while i < 32
            invariant
                i <= 32,
                forall|j: int| 0 <= j < i ==> self.bytes[j] == other.bytes[j],
            decreases 32 - i,
        {
            if self.bytes[i] != other.bytes[i] {
                assert(self@[i as int] != other@[i as int]);
                return false;
            }
            i = i + 1;
        }
        assert(self@ =~= other@);
        true
    }
}

/// The address with these bytes.
pub open spec fn address_of(bytes: Seq<u8>) -> Address {
    choose|address: Address| address@ == bytes
}

/// An address is determined by its bytes.
pub proof fn lemma_address_of(address: Address)
    ensures
        address_of(address@) == address,
{
    let other = address_of(address@);
    assert(other@ == address@);
    assert(other.bytes =~= address.bytes);
}

/// Any 32 bytes are those of an address.
pub proof fn law_every_address_has_its_bytes(bytes: Seq<u8>)
    requires
        bytes.len() == 32,
    ensures
        address_of(bytes).bytes@ == bytes,
{
    let address = Address {
        bytes: [
            bytes[0], bytes[1], bytes[2], bytes[3], bytes[4], bytes[5], bytes[6], bytes[7],
            bytes[8], bytes[9], bytes[10], bytes[11], bytes[12], bytes[13], bytes[14], bytes[15],
            bytes[16], bytes[17], bytes[18], bytes[19], bytes[20], bytes[21], bytes[22], bytes[23],
            bytes[24], bytes[25], bytes[26], bytes[27], bytes[28], bytes[29], bytes[30], bytes[31],
        ],
    };
    assert(address@ =~= bytes);
}

/// A derived address by its bytes, with its bump.
pub open spec fn derived_view(derived: Option<(Address, u8)>) -> Option<(Seq<u8>, u8)> {
    match derived {
        Some((address, bump)) => Some((address@, bump)),
        None => None,
    }
}

/// The program address and bump that seeds derive for a program, as
/// `pinocchio::Address::try_find_program_address` finds them; `None` where it finds none.
pub uninterp spec fn program_address(seeds: Seq<Seq<u8>>, program_id: Seq<u8>) -> Option<
    (Seq<u8>, u8),
>;

/// Calls `pinocchio::Address::try_find_program_address` on two seeds. Claimed: what it
/// returns is a function of the seeds, in their order, and the program id alone, which is
/// named [`program_address`].
#[verifier::external_body]
pub(crate) fn find_program_address(
    first: &[u8],
    second: &[u8],
    program_id: &Address,
) -> (found: Option<(Address, u8)>)
    ensures
        derived_view(found) == program_address(seq![first@, second@], program_id@),
{
    let id = pinocchio::Address::new_from_array(program_id.bytes);
    let (address, bump) = pinocchio::Address::try_find_program_address(&[first, second], &id)?;
    Some((Address { bytes: address.to_bytes() }, bump))
}

/// The bump of an account at a program address; any other account is refused.
pub open spec fn checked_bump(
    address: Seq<u8>,
    derived: Option<(Seq<u8>, u8)>,
) -> Result<u8, ProgramError> {
    match derived {
        Some((expected, bump)) => if expected == address {
            Ok(bump)
        } else {
            Err(ErrorCode::ConstraintSeeds.program_error())
        },
        None => Err(ErrorCode::ConstraintSeeds.program_error()),
    }
}

/// Checks that an account is at the program address that was derived, and returns its
/// bump.
pub fn check_seeds(address: &Address, derived: Option<(Address, u8)>) -> (r: Result<
    u8,
    ProgramError,
>)
    ensures
        r == checked_bump(address@, derived_view(derived)),
{
    match derived {
        Some((expected, bump)) => {
            if expected.same_as(address) {
                Ok(bump)
            } else {
                Err(ErrorCode::ConstraintSeeds.into())
            }
        },
        None => Err(ErrorCode::ConstraintSeeds.into()),
    }
}

/// The address and bump that a prefix and a seed of one byte each derive for a program.
pub fn derive_address(prefix: u8, seed: u8, program_id: &Address) -> (found: Option<(Address, u8)>)
    ensures
        derived_view(found) == program_address(seq![seq![prefix], seq![seed]], program_id@),
{
    let first: Vec<u8> = vec![prefix];
    let second: Vec<u8> = vec![seed];
    assert(first@ =~= seq![prefix]);
    assert(second@ =~= seq![seed]);
    find_program_address(first.as_slice(), second.as_slice(), program_id)
}

} // verus!
