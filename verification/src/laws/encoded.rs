//! What serialized accounts write back and take back.

use crate::accounts::serialized::{
    law_written_value_is_read_back, readable, AnchorAccountSerialize, SerializedAccount,
};
use crate::accounts::Wrapper;
use crate::laws::borrows::law_exclusive_borrow_empties_the_state;
use crate::laws::wrappers::{law_header_check, law_which_account_is_closed};
use crate::memory::{freed, held, AccountModel, Held, Hold, Memory};
use crate::schema::{Discriminator, Owner};
use solana_program_error::ProgramError;
use vstd::multiset::Multiset;
use vstd::prelude::*;

verus! {

/// An account that was loaded for writing, holds its borrow and was not closed is written
/// back whenever its codec encodes the value into the room after the discriminator,
/// whatever length the value had that was loaded: the encoded value follows the
/// discriminator, what the shorter of two values no longer takes is zero, and every other
/// byte, everything else of the account and every other account is as it was.
pub proof fn law_value_that_fits_is_written_back<
    T: Owner + Discriminator,
    S: AnchorAccountSerialize<T>,
>(account: SerializedAccount<T, S>, m: Memory)
    requires
        account.view.slot < m.len(),
        account.mutable,
        account.borrowed,
        ({
            let a = m[account.view.slot as int];
            let at = T::spec_discriminator().len();
            &&& a.lamports != 0 || a.data.len() != 0 || a.owner != Seq::new(32, |i: int| 0u8)
            &&& a.data.len() >= at
            &&& S::encode_error(account.data, (a.data.len() - at) as nat) is None
            &&& S::encoded(account.data).len() <= a.data.len() - at
        }),
    ensures
        ({
            let slot = account.view.slot as int;
            let a = m[slot];
            let at = T::spec_discriminator().len() as int;
            let enc = S::encoded(account.data);
            let exit = account.exited(m);
            let b = exit.memory[slot];
            &&& exit.result is Ok
            &&& exit.memory.len() == m.len()
            &&& forall|i: int| 0 <= i < m.len() && i != slot ==> #[trigger] exit.memory[i] == m[i]
            &&& b == (AccountModel { data: b.data, ..a })
            &&& b.data.len() == a.data.len()
            &&& forall|i: int| 0 <= i < at ==> #[trigger] b.data[i] == a.data[i]
            &&& b.data.subrange(at, at + enc.len()) == enc
            &&& forall|i: int|
                at + enc.len() <= i < b.data.len() ==> #[trigger] b.data[i] == if i < at
                    + account.payload_len {
                    0
                } else {
                    a.data[i]
                }
            &&& exit.account.view == account.view
            &&& exit.account.data == account.data
            &&& exit.account.mutable
            &&& exit.account.borrowed
            &&& exit.account.payload_len == enc.len() as usize
        }),
{
    let slot = account.view.slot as int;
    let a = m[slot];
    let at = T::spec_discriminator().len() as int;
    let enc = S::encoded(account.data);
    law_which_account_is_closed(a);
    let b = account.exited(m).memory[slot].data;
    assert(b.subrange(at, at + enc.len()) =~= enc);
}

/// Where nothing is to be written back, nothing changes: the account was loaded for
/// reading, its borrow was released, or it was closed.
pub proof fn law_nothing_is_written_back<T: Owner + Discriminator, S: AnchorAccountSerialize<T>>(
    account: SerializedAccount<T, S>,
    m: Memory,
)
    requires
        account.view.slot < m.len(),
        ({
            let a = m[account.view.slot as int];
            ||| !account.mutable
            ||| !account.borrowed
            ||| a.lamports == 0 && a.data.len() == 0 && a.owner == Seq::new(32, |i: int| 0u8)
        }),
    ensures
        account.exited(m).result is Ok,
        account.exited(m).account == account,
        account.exited(m).memory == m,
{
    law_which_account_is_closed(m[account.view.slot as int]);
}

/// Where the data no longer has room for the discriminator, that is the error, and the
/// borrow is given back; where the codec refuses the value, its error is, and nothing
/// changes.
pub proof fn law_what_cannot_be_written_back<
    T: Owner + Discriminator,
    S: AnchorAccountSerialize<T>,
>(account: SerializedAccount<T, S>, m: Memory)
    requires
        account.view.slot < m.len(),
        account.mutable,
        account.borrowed,
        ({
            let a = m[account.view.slot as int];
            a.lamports != 0 || a.data.len() != 0 || a.owner != Seq::new(32, |i: int| 0u8)
        }),
    ensures
        ({
            let slot = account.view.slot as int;
            let a = m[slot];
            let at = T::spec_discriminator().len();
            let exit = account.exited(m);
            &&& a.data.len() < at ==> {
                &&& exit.result == Err::<(), ProgramError>(ProgramError::AccountDataTooSmall)
                &&& exit.account == (SerializedAccount { borrowed: false, ..account })
                &&& exit.memory == m.update(slot, AccountModel { borrow_state: 255, ..a })
            }
            &&& a.data.len() >= at ==> (S::encode_error(
                account.data,
                (a.data.len() - at) as nat,
            ) matches Some(e) ==> {
                &&& exit.result == Err::<(), ProgramError>(e)
                &&& exit.account == account
                &&& exit.memory == m
            })
        }),
{
    law_which_account_is_closed(m[account.view.slot as int]);
    law_exclusive_borrow_empties_the_state(m, account.view);
}

/// What an account wrote back is what it holds for whoever loads it next.
pub proof fn law_written_back_value_is_loaded_next<
    T: Owner + Discriminator,
    S: AnchorAccountSerialize<T>,
>(account: SerializedAccount<T, S>, m: Memory)
    requires
        account.view.slot < m.len(),
        account.mutable,
        account.borrowed,
        held(m, account.holds()),
        readable::<T, S>(account.data),
        ({
            let a = m[account.view.slot as int];
            let d = T::spec_discriminator();
            &&& a.lamports != 0 || a.data.len() != 0 || a.owner != Seq::new(32, |i: int| 0u8)
            &&& a.owner == T::spec_owner()
            &&& a.data.len() >= d.len()
            &&& forall|i: int| 0 <= i < d.len() ==> #[trigger] a.data[i] == d[i]
            &&& S::decoded(a.data.skip(d.len() as int)) is Ok
            &&& S::encode_error(account.data, (a.data.len() - d.len()) as nat) is None
            &&& S::encoded(account.data).len() <= a.data.len() - d.len()
        }),
    ensures
        ({
            let exit = account.exited(m);
            let after = freed(exit.memory, exit.account.holds());
            &&& after[account.view.slot as int].borrow_state == 255
            &&& SerializedAccount::<T, S>::loaded(after, account.view, false) matches Ok(next)
                && next.data == account.data
        }),
{
    let a = m[account.view.slot as int];
    law_value_that_fits_is_written_back(account, m);
    law_which_account_is_closed(a);
    law_header_check(
        a,
        T::spec_owner(),
        T::spec_discriminator(),
        T::spec_discriminator().len(),
    );
    law_written_value_is_read_back(account, m);
    law_exclusive_borrow_empties_the_state(account.exited(m).memory, account.view);
}

/// Taking the borrow back asks for an exclusive one and for the checks of loading, and
/// decodes the value anew: what another program wrote meanwhile is what is held.
pub proof fn law_what_is_taken_back<T: Owner + Discriminator, S: AnchorAccountSerialize<T>>(
    account: SerializedAccount<T, S>,
    m: Memory,
)
    requires
        account.view.slot < m.len(),
    ensures
        ({
            let a = m[account.view.slot as int];
            let d = T::spec_discriminator();
            let r = account.reacquired(m);
            let header = a.owner == T::spec_owner() && a.data.len() >= d.len() && (forall|i: int|
                0 <= i < d.len() ==> #[trigger] a.data[i] == d[i]);
            let value = S::decoded(a.data.skip(d.len() as int));
            &&& r is Ok <==> a.borrow_state == 255 && header && value is Ok
            &&& r matches Ok(next) ==> {
                &&& next.view == account.view
                &&& next.mutable == account.mutable
                &&& next.borrowed
                &&& next.data == value->Ok_0.0
                &&& next.payload_len == value->Ok_0.1 as usize
            }
            &&& r matches Err(e) ==> if a.borrow_state != 255 {
                e == ProgramError::AccountBorrowFailed
            } else if a.owner != T::spec_owner() {
                e == ProgramError::IllegalOwner
            } else if a.data.len() < d.len() {
                e == ProgramError::AccountDataTooSmall
            } else if !header {
                e == ProgramError::InvalidAccountData
            } else {
                value == Err::<(T, nat), ProgramError>(e)
            }
        }),
{
    let a = m[account.view.slot as int];
    law_exclusive_borrow_empties_the_state(m, account.view);
    law_header_check(
        a,
        T::spec_owner(),
        T::spec_discriminator(),
        T::spec_discriminator().len(),
    );
}

/// A serialized account borrows its own account for as long as it keeps the borrow, and
/// its value follows the discriminator.
pub proof fn law_what_a_serialized_account_borrows<
    T: Owner + Discriminator,
    S: AnchorAccountSerialize<T>,
>(account: SerializedAccount<T, S>)
    ensures
        account.holds() == if account.borrowed {
            Multiset::singleton(
                Hold { slot: account.view.slot as int, exclusive: account.mutable },
            )
        } else {
            Multiset::empty()
        },
        account.target() == account.view,
        SerializedAccount::<T, S>::payload_offset() == T::spec_discriminator().len(),
{
}

} // verus!
