//! How an account loads beside another one, told by how it loads alone.

use crate::accounts::serialized::{AnchorAccountSerialize, SerializedAccount};
use crate::accounts::slab::{data_hold, Account};
use crate::accounts::Wrapper;
use crate::laws::borrows::{
    law_exclusive_borrow_empties_the_state, law_shared_borrow_counts_down,
};
use crate::laws::wrappers::{law_which_serialized_account_loads, law_which_typed_account_loads};
use crate::memory::{taken, AccountView, Memory};
use crate::schema::{Discriminator, Owner, Pod};
use solana_program_error::ProgramError;
use vstd::prelude::*;

verus! {

/// Once an account of a type is loaded, another one of that type loads exactly as it does
/// alone, unless both are one account and at least one of them is to write it, or no room
/// is left for a second reader: then the error is that the data is borrowed.
pub proof fn law_typed_account_beside_another<T: Owner + Discriminator + Pod>(
    m: Memory,
    first: (AccountView, bool),
    second: (AccountView, bool),
)
    requires
        first.0.slot < m.len(),
        second.0.slot < m.len(),
        Account::<T>::loaded(m, first.0, first.1) is Ok,
    ensures
        ({
            let n = taken(m, data_hold(first.0, first.1));
            let alone = Account::<T>::loaded(m, second.0, second.1);
            let beside = Account::<T>::loaded(n, second.0, second.1);
            let conflict = first.0.slot == second.0.slot && (first.1 || second.1
                || m[first.0.slot as int].borrow_state < 3);
            &&& alone matches Err(e) ==> beside == Err::<Account<T>, ProgramError>(e)
            &&& alone is Ok && conflict ==> beside == Err::<Account<T>, ProgramError>(
                ProgramError::AccountBorrowFailed,
            )
            &&& alone is Ok && !conflict ==> beside == alone
        }),
{
    let n = taken(m, data_hold(first.0, first.1));
    law_shared_borrow_counts_down(m, first.0);
    law_exclusive_borrow_empties_the_state(m, first.0);
    law_which_typed_account_loads::<T>(m, first.0, first.1);
    law_which_typed_account_loads::<T>(m, second.0, second.1);
    law_which_typed_account_loads::<T>(n, second.0, second.1);
    let d = T::spec_discriminator();
    assert(n[second.0.slot as int].data == m[second.0.slot as int].data);
}

/// The same holds of serialized accounts of one type.
pub proof fn law_serialized_account_beside_another<
    T: Owner + Discriminator,
    S: AnchorAccountSerialize<T>,
>(m: Memory, first: (AccountView, bool), second: (AccountView, bool))
    requires
        first.0.slot < m.len(),
        second.0.slot < m.len(),
        SerializedAccount::<T, S>::loaded(m, first.0, first.1) is Ok,
    ensures
        ({
            let n = taken(m, data_hold(first.0, first.1));
            let alone = SerializedAccount::<T, S>::loaded(m, second.0, second.1);
            let beside = SerializedAccount::<T, S>::loaded(n, second.0, second.1);
            let conflict = first.0.slot == second.0.slot && (first.1 || second.1
                || m[first.0.slot as int].borrow_state < 3);
            &&& alone matches Err(e) ==> beside == Err::<SerializedAccount<T, S>, ProgramError>(e)
            &&& alone is Ok && conflict ==> beside == Err::<SerializedAccount<T, S>, ProgramError>(
                ProgramError::AccountBorrowFailed,
            )
            &&& alone is Ok && !conflict ==> beside == alone
        }),
{
    let n = taken(m, data_hold(first.0, first.1));
    law_shared_borrow_counts_down(m, first.0);
    law_exclusive_borrow_empties_the_state(m, first.0);
    law_which_serialized_account_loads::<T, S>(m, first.0, first.1);
    law_which_serialized_account_loads::<T, S>(m, second.0, second.1);
    law_which_serialized_account_loads::<T, S>(n, second.0, second.1);
    assert(n[second.0.slot as int].data == m[second.0.slot as int].data);
}

} // verus!
