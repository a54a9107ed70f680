//! What a borrow asks for and what it changes.

use crate::account_view::{Ref, RefMut};
use crate::accounts::slab::data_hold;
use crate::memory::{
    borrow_states, can_take, exclusive_hold, freed, held, law_release_undoes_borrow,
    lemma_exclusive_hold, lemma_shared_hold, settled, shared_hold, taken, with_account,
    with_borrow_state, with_data, AccountModel, AccountView, Held, Hold, Memory,
};
use crate::system_program::borrowed;
use vstd::multiset::Multiset;
use vstd::prelude::*;

verus! {

/// A shared borrow is granted where the borrow state is at least two, and lowers it by one;
/// giving it back raises it by one. Nothing else of any account changes.
pub proof fn law_shared_borrow_counts_down(m: Memory, view: AccountView)
    requires
        view.slot < m.len(),
    ensures
        ({
            let at = view.slot as int;
            let s = m[at].borrow_state;
            &&& can_take(m, shared_hold(view)) <==> s >= 2
            &&& s >= 2 ==> taken(m, shared_hold(view)) == m.update(
                at,
                AccountModel { borrow_state: (s - 1) as u8, ..m[at] },
            )
            &&& held(m, shared_hold(view)) <==> 1 <= s < 255
            &&& 1 <= s < 255 ==> freed(m, shared_hold(view)) == m.update(
                at,
                AccountModel { borrow_state: (s + 1) as u8, ..m[at] },
            )
        }),
{
    lemma_shared_hold(m, view);
}

/// An exclusive borrow is granted where nobody borrows, which is state 255, and makes the
/// state zero; giving it back makes it 255 again. Nothing else of any account changes.
pub proof fn law_exclusive_borrow_empties_the_state(m: Memory, view: AccountView)
    requires
        view.slot < m.len(),
    ensures
        ({
            let at = view.slot as int;
            &&& can_take(m, exclusive_hold(view)) <==> m[at].borrow_state == 255
            &&& taken(m, exclusive_hold(view)) == m.update(
                at,
                AccountModel { borrow_state: 0, ..m[at] },
            )
            &&& held(m, exclusive_hold(view)) <==> m[at].borrow_state == 0
            &&& freed(m, exclusive_hold(view)) == m.update(
                at,
                AccountModel { borrow_state: 255, ..m[at] },
            )
        }),
{
    lemma_exclusive_hold(m, view);
}

/// Whatever is borrowed or given back, accounts keep everything but their borrow states,
/// and an account that no borrow is on keeps that too.
pub proof fn law_borrows_change_borrow_states_alone(m: Memory, h: Multiset<Hold>, i: int)
    requires
        0 <= i < m.len(),
    ensures
        taken(m, h).len() == m.len(),
        freed(m, h).len() == m.len(),
        taken(m, h)[i] == (AccountModel { borrow_state: taken(m, h)[i].borrow_state, ..m[i] }),
        freed(m, h)[i] == (AccountModel { borrow_state: freed(m, h)[i].borrow_state, ..m[i] }),
        h.count(Hold { slot: i, exclusive: true }) == 0 && h.count(
            Hold { slot: i, exclusive: false },
        ) == 0 ==> taken(m, h)[i] == m[i] && freed(m, h)[i] == m[i],
{
}

/// The borrow of a wrapper is on its own account, and exclusive exactly where it writes.
pub proof fn law_wrapper_borrows_its_account(view: AccountView, mutable: bool)
    ensures
        data_hold(view, mutable) == Multiset::singleton(
            Hold { slot: view.slot as int, exclusive: mutable },
        ),
        shared_hold(view) == Multiset::singleton(
            Hold { slot: view.slot as int, exclusive: false },
        ),
        exclusive_hold(view) == Multiset::singleton(
            Hold { slot: view.slot as int, exclusive: true },
        ),
{
}

/// The borrow states are those of the accounts, in order, and an account is borrowed
/// where its state is not 255.
pub proof fn law_borrow_states(m: Memory, h: Multiset<Hold>, view: AccountView)
    requires
        view.slot < m.len(),
    ensures
        borrow_states(m).len() == m.len(),
        borrow_states(m)[view.slot as int] == m[view.slot as int].borrow_state,
        settled(m, h).len() == m.len(),
        settled(m, h)[view.slot as int] == freed(m, h)[view.slot as int].borrow_state,
        borrowed(m, view) <==> m[view.slot as int].borrow_state != 255,
{
}

/// Replacing an account, its data or its borrow state replaces just that.
pub proof fn law_replacing_part_of_an_account(
    m: Memory,
    slot: int,
    account: AccountModel,
    i: int,
)
    requires
        0 <= slot < m.len(),
        0 <= i < m.len(),
    ensures
        with_account(m, slot, account).len() == m.len(),
        with_account(m, slot, account)[i] == if i == slot {
            account
        } else {
            m[i]
        },
        with_data(m, slot, account.data).len() == m.len(),
        with_data(m, slot, account.data)[i] == if i == slot {
            AccountModel { data: account.data, ..m[i] }
        } else {
            m[i]
        },
        with_borrow_state(m, slot, account.borrow_state).len() == m.len(),
        with_borrow_state(m, slot, account.borrow_state)[i] == if i == slot {
            AccountModel { borrow_state: account.borrow_state, ..m[i] }
        } else {
            m[i]
        },
{
}

/// What was done to accounts while borrows were held stays when they are given back, and
/// every account has the borrow state from before they were taken.
pub proof fn law_giving_back_keeps_what_was_done(m: Memory, h: Multiset<Hold>, n: Memory)
    requires
        can_take(m, h),
        n.len() == m.len(),
        forall|i: int|
            0 <= i < m.len() ==> (#[trigger] n[i]).borrow_state == taken(m, h)[i].borrow_state,
    ensures
        freed(n, h).len() == m.len(),
        forall|i: int|
            0 <= i < m.len() ==> #[trigger] freed(n, h)[i] == (AccountModel {
                borrow_state: m[i].borrow_state,
                ..n[i]
            }),
{
    law_release_undoes_borrow(m, h);
    assert forall|i: int| 0 <= i < m.len() implies #[trigger] freed(n, h)[i] == (AccountModel {
        borrow_state: m[i].borrow_state,
        ..n[i]
    }) by {
        assert(freed(taken(m, h), h)[i].borrow_state == m[i].borrow_state);
    }
}

/// A guard of a borrow holds just that borrow: shared for reading, exclusive for writing.
pub proof fn law_guards_hold_their_borrow(reading: Ref, writing: RefMut)
    ensures
        reading.holds() == Multiset::singleton(
            Hold { slot: reading.view.slot as int, exclusive: false },
        ),
        writing.holds() == Multiset::singleton(
            Hold { slot: writing.view.slot as int, exclusive: true },
        ),
{
}

} // verus!
