//! How typed values lie in account data.

use crate::address::Address;
use crate::le::begins_with;
use crate::memory::{AccountMemory, AccountModel, AccountView};
use solana_program_error::ProgramError;
use vstd::prelude::*;

verus! {

/// The most data that an account can hold.
pub const MAX_DATA_LEN: usize = 10_485_760;

/// A value with a fixed layout in bytes, in which every byte string of the right
/// length is a value.
pub trait Pod: Sized {
    /// The number of bytes.
    open spec fn size() -> nat {
        0
    }

    /// The bytes of a value.
    open spec fn encoded(self) -> Seq<u8> {
        Seq::empty()
    }

    /// The value of some bytes.
    open spec fn decoded(bytes: Seq<u8>) -> Self {
        arbitrary()
    }

    /// The number of bytes.
    fn size_of() -> (n: usize)
        ensures
            n == Self::size(),
            n <= MAX_DATA_LEN,
    ;

    /// The bytes of the value, from which it is read back.
    fn to_bytes(&self) -> (bytes: Vec<u8>)
        ensures
            bytes@ == self.encoded(),
            bytes@.len() == Self::size(),
            Self::decoded(bytes@) == *self,
    ;

    /// The value of the bytes of `data` from `at` on.
    fn from_bytes(data: &[u8], at: usize) -> (value: Self)
        requires
            at + Self::size() <= data@.len(),
        ensures
            value == Self::decoded(data@.subrange(at as int, at + Self::size())),
    ;
}

/// The value has as many bytes as its type says, and is read back from them.
pub open spec fn faithful<T: Pod>(value: T) -> bool {
    &&& value.encoded().len() == T::size()
    &&& T::decoded(value.encoded()) == value
}

impl Pod for u8 {
    open spec fn size() -> nat {
        1
    }

    open spec fn encoded(self) -> Seq<u8> {
        seq![self]
    }

    open spec fn decoded(bytes: Seq<u8>) -> Self {
        bytes[0]
    }

    fn size_of() -> (n: usize) {
        1
    }

    fn to_bytes(&self) -> (bytes: Vec<u8>) {
        let mut bytes: Vec<u8> = Vec::new();
        bytes.push(*self);
        bytes
    }

    fn from_bytes(data: &[u8], at: usize) -> (value: Self) {
        data[at]
    }
}

/// A type whose accounts belong to one program.
pub trait Owner {
    /// The program that owns the accounts.
    open spec fn spec_owner() -> Seq<u8> {
        Seq::empty()
    }

    /// The program that owns the accounts.
    fn owner() -> (owner: Address)
        ensures
            owner@ == Self::spec_owner(),
    ;
}

/// A type whose account data begins with bytes that tell the type.
pub trait Discriminator {
    /// The bytes that account data begins with.
    open spec fn spec_discriminator() -> Seq<u8> {
        Seq::empty()
    }

    /// The bytes that account data begins with.
    fn discriminator() -> (bytes: Vec<u8>)
        ensures
            bytes@ == Self::spec_discriminator(),
            bytes@.len() <= MAX_DATA_LEN,
    ;
}

/// The header of a slab: where it lies in the account's data and which accounts may
/// hold it.
pub trait SlabSchema: Pod {
    /// Where the header begins.
    open spec fn spec_data_offset() -> nat {
        0
    }

    /// The least data that an account with the header has.
    open spec fn spec_min_data_len() -> nat {
        0
    }

    /// Whether an account holds the header, and if not, why.
    open spec fn validated(account: AccountModel) -> Result<(), ProgramError> {
        Ok(())
    }

    /// Where the header begins.
    fn data_offset() -> (n: usize)
        ensures
            n == Self::spec_data_offset(),
            n <= MAX_DATA_LEN,
    ;

    /// The least data that an account with the header has.
    fn min_data_len() -> (n: usize)
        ensures
            n == Self::spec_min_data_len(),
    ;

    /// Checks that an account holds the header.
    fn validate(memory: &AccountMemory, view: AccountView) -> (r: Result<(), ProgramError>)
        requires
            view.slot < memory@.len(),
        ensures
            r == Self::validated(memory@[view.slot as int]),
    ;
}

/// What a check of owner, length and discriminator comes to, in this order.
pub open spec fn checked_header(
    account: AccountModel,
    owner: Seq<u8>,
    discriminator: Seq<u8>,
    min_len: nat,
) -> Result<(), ProgramError> {
    if account.owner != owner {
        Err(ProgramError::IllegalOwner)
    } else if account.data.len() < min_len {
        Err(ProgramError::AccountDataTooSmall)
    } else if account.data.take(discriminator.len() as int) != discriminator {
        Err(ProgramError::InvalidAccountData)
    } else {
        Ok(())
    }
}

/// Checks owner, length and discriminator, in this order.
pub fn check_header(
    memory: &AccountMemory,
    view: AccountView,
    owner: &Address,
    discriminator: &Vec<u8>,
    min_len: usize,
) -> (r: Result<(), ProgramError>)
    requires
        view.slot < memory@.len(),
        discriminator@.len() <= min_len,
    ensures
        r == checked_header(memory@[view.slot as int], owner@, discriminator@, min_len as nat),
{
    if !view.owned_by(memory, owner) {
        return Err(ProgramError::IllegalOwner);
    }
    if view.data_len(memory) < min_len {
        return Err(ProgramError::AccountDataTooSmall);
    }
    if !begins_with(memory.account(view).data.as_slice(), discriminator.as_slice()) {
        return Err(ProgramError::InvalidAccountData);
    }
    Ok(())
}

impl<T: Owner + Discriminator + Pod> SlabSchema for T {
    open spec fn spec_data_offset() -> nat {
        T::spec_discriminator().len()
    }

    open spec fn spec_min_data_len() -> nat {
        T::spec_discriminator().len() + T::size()
    }

    open spec fn validated(account: AccountModel) -> Result<(), ProgramError> {
        checked_header(
            account,
            T::spec_owner(),
            T::spec_discriminator(),
            T::spec_discriminator().len() + T::size(),
        )
    }

    fn data_offset() -> (n: usize) {
        T::discriminator().len()
    }

    fn min_data_len() -> (n: usize) {
        T::discriminator().len() + T::size_of()
    }

    fn validate(memory: &AccountMemory, view: AccountView) -> (r: Result<(), ProgramError>) {
        let discriminator = T::discriminator();
        let min_len: usize = discriminator.len() + T::size_of();
        check_header(memory, view, &T::owner(), &discriminator, min_len)
    }
}

/// Whether the check of an account looks at nothing of its borrow state.
pub open spec fn schema_ignores_borrows<H: SlabSchema>() -> bool {
    forall|account: AccountModel, borrow_state: u8| #[trigger]
        H::validated(AccountModel { borrow_state, ..account }) == H::validated(account)
}

/// The check of owner, length and discriminator ignores borrow states.
pub proof fn law_header_check_ignores_borrows<T: Owner + Discriminator + Pod>()
    ensures
        schema_ignores_borrows::<T>(),
{
}

} // verus!
