//! What an instruction leaves behind, byte by byte.
//!
//! Each law speaks of the memory that the instruction ends with where its accounts load:
//! the borrows are given back, the numbers are written, and nothing else has changed.

use crate::accounts::compose::{pair_exited, pair_loaded};
use crate::accounts::program::{Program, System};
use crate::accounts::serialized::{
    AnchorAccountSerialize, BorshAccount, BorshSerializer, SerializedAccount,
};
use crate::accounts::slab::{data_hold, Account};
use crate::accounts::Wrapper;
use crate::dup_mut::accounts::{
    TouchBorshMutAndReadonly, TouchBoxedMutAndReadonly, TouchDataAndRaw, TouchMutAndReadonly,
    TouchNestedMutReadonly, TouchNestedTwoMut, TouchOptionalMutAndMut, TouchOuterMutPlusNested,
    TouchReadonlyAndMut, TouchThreeMut, TouchTwoMut, TransferToRawAlias,
};
use crate::dup_mut::loading::{
    law_touch_borsh_mut_and_readonly_takes, law_touch_boxed_mut_and_readonly_takes,
    law_touch_data_and_raw_takes, law_touch_mut_and_readonly_takes,
    law_touch_nested_mut_readonly_takes, law_touch_nested_two_mut_takes,
    law_touch_optional_mut_and_mut_takes, law_touch_outer_mut_plus_nested_takes,
    law_touch_readonly_and_mut_takes, law_touch_three_mut_takes, law_touch_two_mut_takes,
    law_transfer_to_raw_alias_takes,
};
use crate::dup_mut::numbers::{
    law_borsh_number, law_number_is_written_in_place, law_number_of_an_account,
    law_three_numbers_are_written, law_two_numbers_are_written,
};
use crate::dup_mut::state::{BorshData, Data};
use crate::dup_mut::{sum, written_optional, written_three, written_two};
use crate::laws::borrows::{
    law_borrows_change_borrow_states_alone, law_giving_back_keeps_what_was_done,
};
use crate::laws::bytes::{law_eight_bytes_make_a_number, law_same_bytes_of_a_number};
use crate::laws::encoded::{law_nothing_is_written_back, law_value_that_fits_is_written_back};
use crate::laws::wrappers::{
    law_two_exit_one_after_the_other, law_which_serialized_account_loads,
    law_which_typed_account_loads,
};
use crate::memory::{
    can_take, freed, law_borrows_of_other_accounts_are_independent, law_release_undoes_borrow,
    lemma_take_both, taken, AccountModel, AccountView, Held, Hold, Memory,
};
use vstd::multiset::Multiset;
use vstd::prelude::*;

verus! {

/// What is left of a write once the borrows are given back: the bytes eight to fifteen of
/// the accounts that were written, and nothing else.
#[verifier::spinoff_prover]
#[verifier::rlimit(40)]
proof fn lemma_end(m: Memory, h: Multiset<Hold>, n: Memory)
    requires
        can_take(m, h),
        n.len() == m.len(),
        forall|i: int| 0 <= i < m.len() ==> {
            let account = #[trigger] n[i];
            &&& account == (AccountModel { data: account.data, ..taken(m, h)[i] })
            &&& account.data.len() == taken(m, h)[i].data.len()
            &&& forall|k: int|
                0 <= k < account.data.len() && !(8 <= k < 16) ==> #[trigger] account.data[k]
                    == taken(m, h)[i].data[k]
        },
    ensures
        freed(n, h).len() == m.len(),
        forall|i: int| 0 <= i < m.len() ==> {
            let account = #[trigger] freed(n, h)[i];
            &&& account == (AccountModel { data: n[i].data, ..m[i] })
            &&& account.data.len() == m[i].data.len()
            &&& n[i] == taken(m, h)[i] ==> account == m[i]
            &&& forall|k: int|
                0 <= k < account.data.len() && !(8 <= k < 16) ==> #[trigger] account.data[k]
                    == m[i].data[k]
        },
{
    law_giving_back_keeps_what_was_done(m, h, n);
    assert forall|i: int| 0 <= i < m.len() implies {
        let account = #[trigger] freed(n, h)[i];
        &&& account == (AccountModel { data: n[i].data, ..m[i] })
        &&& account.data.len() == m[i].data.len()
        &&& n[i] == taken(m, h)[i] ==> account == m[i]
        &&& forall|k: int|
            0 <= k < account.data.len() && !(8 <= k < 16) ==> #[trigger] account.data[k]
                == m[i].data[k]
    } by {
        law_borrows_change_borrow_states_alone(m, h, i);
        assert(n[i].data.len() == taken(m, h)[i].data.len());
    }
}

/// One number written while borrows are held, once they are given back.
#[verifier::spinoff_prover]
#[verifier::rlimit(40)]
proof fn lemma_one_end(m: Memory, h: Multiset<Hold>, account: Account<Data>, data: Data)
    requires
        can_take(m, h),
        account.view.slot < m.len(),
        m[account.view.slot as int].data.len() >= 16,
    ensures
        ({
            let at = account.view.slot as int;
            let n = freed(account.stored(taken(m, h), data), h);
            let x = n[at].data;
            &&& n.len() == m.len()
            &&& data.value as int == x[8] + x[9] * 0x100 + x[10] * 0x1_0000
                + x[11] * 0x100_0000 + x[12] * 0x1_0000_0000 + x[13] * 0x100_0000_0000
                + x[14] * 0x1_0000_0000_0000 + x[15] * 0x100_0000_0000_0000
            &&& forall|i: int| 0 <= i < m.len() && i != at ==> #[trigger] n[i] == m[i]
            &&& n[at] == (AccountModel { data: x, ..m[at] })
            &&& x.len() == m[at].data.len()
            &&& forall|k: int|
                0 <= k < x.len() && !(8 <= k < 16) ==> #[trigger] x[k] == m[at].data[k]
        }),
{
    let at = account.view.slot as int;
    let t = taken(m, h);
    law_borrows_change_borrow_states_alone(m, h, at);
    law_number_is_written_in_place(account, t, data);
    let n = account.stored(t, data);
    assert forall|i: int| 0 <= i < m.len() implies {
        let written = #[trigger] n[i];
        &&& written == (AccountModel { data: written.data, ..t[i] })
        &&& written.data.len() == t[i].data.len()
        &&& forall|k: int|
            0 <= k < written.data.len() && !(8 <= k < 16) ==> #[trigger] written.data[k]
                == t[i].data[k]
    } by {
        if i != at {
            assert(n[i] == t[i]);
        }
    }
    lemma_end(m, h, n);
}

/// The borrows of two accounts that load together can be taken together.
proof fn lemma_two_taken(m: Memory, a: AccountView, first: bool, b: AccountView, second: bool)
    requires
        a.slot < m.len(),
        b.slot < m.len(),
        Account::<Data>::loaded(m, a, first) is Ok,
        Account::<Data>::loaded(m, b, second) is Ok,
        a.slot != b.slot,
    ensures
        can_take(m, data_hold(a, first).add(data_hold(b, second))),
{
    Account::<Data>::lemma_loaded(m, a, first);
    Account::<Data>::lemma_loaded(m, b, second);
    let ha = data_hold(a, first);
    law_borrows_of_other_accounts_are_independent(m, ha, b);
    lemma_take_both(m, ha, data_hold(b, second));
}

/// The borrows of three accounts that load together can be taken together.
proof fn lemma_three_taken(m: Memory, a: AccountView, b: AccountView, c: AccountView)
    requires
        a.slot < m.len(),
        b.slot < m.len(),
        c.slot < m.len(),
        Account::<Data>::loaded(m, a, true) is Ok,
        Account::<Data>::loaded(m, b, true) is Ok,
        Account::<Data>::loaded(m, c, true) is Ok,
        a.slot != b.slot,
        a.slot != c.slot,
        b.slot != c.slot,
    ensures
        can_take(m, data_hold(a, true).add(data_hold(b, true)).add(data_hold(c, true))),
{
    Account::<Data>::lemma_loaded(m, c, true);
    lemma_two_taken(m, a, true, b, true);
    let h = data_hold(a, true).add(data_hold(b, true));
    law_borrows_of_other_accounts_are_independent(m, h, c);
    lemma_take_both(m, h, data_hold(c, true));
}

/// [`TouchMutAndReadonly`]: the account that is written holds `value` and the whole number that
/// the other one holds, added up, beyond the limit from zero again.
#[verifier::spinoff_prover]
#[verifier::rlimit(40)]
pub proof fn law_touch_mut_and_readonly_leaves(m: Memory, views: Seq<AccountView>, value: u64)
    requires
        views.len() == 2,
        views[0].slot < m.len(),
        views[1].slot < m.len(),
        TouchMutAndReadonly::loaded(m, views) is Ok,
    ensures
        ({
            let accounts = TouchMutAndReadonly::loaded(m, views)->Ok_0;
            let h = accounts.holds();
            let written = accounts.data_a;
            let n = freed(
                written.stored(taken(m, h), sum(accounts.data_b, taken(m, h), value)),
                h,
            );
            let d = m[views[1].slot as int].data;
            let x = n[views[0].slot as int].data;
            &&& n.len() == m.len()
            &&& (value + (d[8] + d[9] * 0x100 + d[10] * 0x1_0000 + d[11] * 0x100_0000
                + d[12] * 0x1_0000_0000 + d[13] * 0x100_0000_0000 + d[14] * 0x1_0000_0000_0000
                + d[15] * 0x100_0000_0000_0000)) % 0x1_0000_0000_0000_0000 == x[8]
                + x[9] * 0x100 + x[10] * 0x1_0000 + x[11] * 0x100_0000 + x[12] * 0x1_0000_0000
                + x[13] * 0x100_0000_0000 + x[14] * 0x1_0000_0000_0000
                + x[15] * 0x100_0000_0000_0000
            &&& forall|i: int| 0 <= i < m.len() ==> {
                let account = #[trigger] n[i];
                &&& account == (AccountModel { data: account.data, ..m[i] })
                &&& account.data.len() == m[i].data.len()
                &&& i != views[0].slot ==> account == m[i]
                &&& forall|k: int|
                    0 <= k < account.data.len() && !(8 <= k < 16) ==> #[trigger] account.data[k]
                        == m[i].data[k]
            }
        }),
{
    law_touch_mut_and_readonly_takes(m, views);
    law_which_typed_account_loads::<Data>(m, views[0], true);
    law_which_typed_account_loads::<Data>(m, views[1], false);
    let accounts = TouchMutAndReadonly::loaded(m, views)->Ok_0;
    let h = accounts.holds();
    lemma_two_taken(m, views[0], true, views[1], false);
    assert(h =~= data_hold(views[0], true).add(data_hold(views[1], false)));
    law_borrows_change_borrow_states_alone(m, h, views[1].slot as int);
    law_number_of_an_account(accounts.data_b, taken(m, h));
    lemma_one_end(m, h, accounts.data_a, sum(accounts.data_b, taken(m, h), value));
}

/// [`TouchReadonlyAndMut`]: the account that is written holds `value` and the whole number that
/// the other one holds, added up, beyond the limit from zero again.
#[verifier::spinoff_prover]
#[verifier::rlimit(40)]
pub proof fn law_touch_readonly_and_mut_leaves(m: Memory, views: Seq<AccountView>, value: u64)
    requires
        views.len() == 2,
        views[0].slot < m.len(),
        views[1].slot < m.len(),
        TouchReadonlyAndMut::loaded(m, views) is Ok,
    ensures
        ({
            let accounts = TouchReadonlyAndMut::loaded(m, views)->Ok_0;
            let h = accounts.holds();
            let written = accounts.data_b;
            let n = freed(
                written.stored(taken(m, h), sum(accounts.data_a, taken(m, h), value)),
                h,
            );
            let d = m[views[0].slot as int].data;
            let x = n[views[1].slot as int].data;
            &&& n.len() == m.len()
            &&& (value + (d[8] + d[9] * 0x100 + d[10] * 0x1_0000 + d[11] * 0x100_0000
                + d[12] * 0x1_0000_0000 + d[13] * 0x100_0000_0000 + d[14] * 0x1_0000_0000_0000
                + d[15] * 0x100_0000_0000_0000)) % 0x1_0000_0000_0000_0000 == x[8]
                + x[9] * 0x100 + x[10] * 0x1_0000 + x[11] * 0x100_0000 + x[12] * 0x1_0000_0000
                + x[13] * 0x100_0000_0000 + x[14] * 0x1_0000_0000_0000
                + x[15] * 0x100_0000_0000_0000
            &&& forall|i: int| 0 <= i < m.len() ==> {
                let account = #[trigger] n[i];
                &&& account == (AccountModel { data: account.data, ..m[i] })
                &&& account.data.len() == m[i].data.len()
                &&& i != views[1].slot ==> account == m[i]
                &&& forall|k: int|
                    0 <= k < account.data.len() && !(8 <= k < 16) ==> #[trigger] account.data[k]
                        == m[i].data[k]
            }
        }),
{
    law_touch_readonly_and_mut_takes(m, views);
    law_which_typed_account_loads::<Data>(m, views[0], false);
    law_which_typed_account_loads::<Data>(m, views[1], true);
    let accounts = TouchReadonlyAndMut::loaded(m, views)->Ok_0;
    let h = accounts.holds();
    lemma_two_taken(m, views[0], false, views[1], true);
    assert(h =~= data_hold(views[0], false).add(data_hold(views[1], true)));
    law_borrows_change_borrow_states_alone(m, h, views[0].slot as int);
    law_number_of_an_account(accounts.data_a, taken(m, h));
    lemma_one_end(m, h, accounts.data_b, sum(accounts.data_a, taken(m, h), value));
}

/// [`TouchBoxedMutAndReadonly`]: the account that is written holds `value` and the whole number
/// that the other one holds, added up, beyond the limit from zero again.
#[verifier::spinoff_prover]
#[verifier::rlimit(40)]
pub proof fn law_touch_boxed_mut_and_readonly_leaves(m: Memory, views: Seq<AccountView>, value: u64)
    requires
        views.len() == 2,
        views[0].slot < m.len(),
        views[1].slot < m.len(),
        TouchBoxedMutAndReadonly::loaded(m, views) is Ok,
    ensures
        ({
            let accounts = TouchBoxedMutAndReadonly::loaded(m, views)->Ok_0;
            let h = accounts.holds();
            let written = *accounts.data_a;
            let n = freed(
                written.stored(taken(m, h), sum(accounts.data_b, taken(m, h), value)),
                h,
            );
            let d = m[views[1].slot as int].data;
            let x = n[views[0].slot as int].data;
            &&& n.len() == m.len()
            &&& (value + (d[8] + d[9] * 0x100 + d[10] * 0x1_0000 + d[11] * 0x100_0000
                + d[12] * 0x1_0000_0000 + d[13] * 0x100_0000_0000 + d[14] * 0x1_0000_0000_0000
                + d[15] * 0x100_0000_0000_0000)) % 0x1_0000_0000_0000_0000 == x[8]
                + x[9] * 0x100 + x[10] * 0x1_0000 + x[11] * 0x100_0000 + x[12] * 0x1_0000_0000
                + x[13] * 0x100_0000_0000 + x[14] * 0x1_0000_0000_0000
                + x[15] * 0x100_0000_0000_0000
            &&& forall|i: int| 0 <= i < m.len() ==> {
                let account = #[trigger] n[i];
                &&& account == (AccountModel { data: account.data, ..m[i] })
                &&& account.data.len() == m[i].data.len()
                &&& i != views[0].slot ==> account == m[i]
                &&& forall|k: int|
                    0 <= k < account.data.len() && !(8 <= k < 16) ==> #[trigger] account.data[k]
                        == m[i].data[k]
            }
        }),
{
    law_touch_boxed_mut_and_readonly_takes(m, views);
    law_which_typed_account_loads::<Data>(m, views[0], true);
    law_which_typed_account_loads::<Data>(m, views[1], false);
    let accounts = TouchBoxedMutAndReadonly::loaded(m, views)->Ok_0;
    let h = accounts.holds();
    lemma_two_taken(m, views[0], true, views[1], false);
    assert(h =~= data_hold(views[0], true).add(data_hold(views[1], false)));
    law_borrows_change_borrow_states_alone(m, h, views[1].slot as int);
    law_number_of_an_account(accounts.data_b, taken(m, h));
    lemma_one_end(m, h, *accounts.data_a, sum(accounts.data_b, taken(m, h), value));
}

/// [`TouchNestedMutReadonly`]: the account that is written holds `value` and the whole number
/// that the other one holds, added up, beyond the limit from zero again.
#[verifier::spinoff_prover]
#[verifier::rlimit(40)]
pub proof fn law_touch_nested_mut_readonly_leaves(m: Memory, views: Seq<AccountView>, value: u64)
    requires
        views.len() == 2,
        views[0].slot < m.len(),
        views[1].slot < m.len(),
        TouchNestedMutReadonly::loaded(m, views) is Ok,
    ensures
        ({
            let accounts = TouchNestedMutReadonly::loaded(m, views)->Ok_0;
            let h = accounts.holds();
            let written = accounts.pair.inner.data_a;
            let n = freed(
                written.stored(taken(m, h), sum(accounts.pair.inner.data_b, taken(m, h), value)),
                h,
            );
            let d = m[views[1].slot as int].data;
            let x = n[views[0].slot as int].data;
            &&& n.len() == m.len()
            &&& (value + (d[8] + d[9] * 0x100 + d[10] * 0x1_0000 + d[11] * 0x100_0000
                + d[12] * 0x1_0000_0000 + d[13] * 0x100_0000_0000 + d[14] * 0x1_0000_0000_0000
                + d[15] * 0x100_0000_0000_0000)) % 0x1_0000_0000_0000_0000 == x[8]
                + x[9] * 0x100 + x[10] * 0x1_0000 + x[11] * 0x100_0000 + x[12] * 0x1_0000_0000
                + x[13] * 0x100_0000_0000 + x[14] * 0x1_0000_0000_0000
                + x[15] * 0x100_0000_0000_0000
            &&& forall|i: int| 0 <= i < m.len() ==> {
                let account = #[trigger] n[i];
                &&& account == (AccountModel { data: account.data, ..m[i] })
                &&& account.data.len() == m[i].data.len()
                &&& i != views[0].slot ==> account == m[i]
                &&& forall|k: int|
                    0 <= k < account.data.len() && !(8 <= k < 16) ==> #[trigger] account.data[k]
                        == m[i].data[k]
            }
        }),
{
    law_touch_nested_mut_readonly_takes(m, views);
    law_which_typed_account_loads::<Data>(m, views[0], true);
    law_which_typed_account_loads::<Data>(m, views[1], false);
    let accounts = TouchNestedMutReadonly::loaded(m, views)->Ok_0;
    let h = accounts.holds();
    lemma_two_taken(m, views[0], true, views[1], false);
    assert(h =~= data_hold(views[0], true).add(data_hold(views[1], false)));
    law_borrows_change_borrow_states_alone(m, h, views[1].slot as int);
    law_number_of_an_account(accounts.pair.inner.data_b, taken(m, h));
    let x = sum(accounts.pair.inner.data_b, taken(m, h), value);
    lemma_one_end(m, h, accounts.pair.inner.data_a, x);
}

/// [`TouchTwoMut`]: the accounts hold `value` and the number after it.
#[verifier::spinoff_prover]
#[verifier::rlimit(40)]
pub proof fn law_touch_two_mut_leaves(m: Memory, views: Seq<AccountView>, value: u64)
    requires
        views.len() == 2,
        views[0].slot < m.len(),
        views[1].slot < m.len(),
        TouchTwoMut::loaded(m, views) is Ok,
    ensures
        ({
            let accounts = TouchTwoMut::loaded(m, views)->Ok_0;
            let h = accounts.holds();
            let n = freed(
                written_two(accounts.data_a, accounts.data_b, taken(m, h), value),
                h,
            );
            let x = n[views[0].slot as int].data;
            let y = n[views[1].slot as int].data;
            &&& n.len() == m.len()
            &&& value as int == x[8] + x[9] * 0x100 + x[10] * 0x1_0000 + x[11] * 0x100_0000
                + x[12] * 0x1_0000_0000 + x[13] * 0x100_0000_0000 + x[14] * 0x1_0000_0000_0000
                + x[15] * 0x100_0000_0000_0000
            &&& (value + 1) % 0x1_0000_0000_0000_0000 == y[8] + y[9] * 0x100 + y[10] * 0x1_0000
                + y[11] * 0x100_0000 + y[12] * 0x1_0000_0000 + y[13] * 0x100_0000_0000
                + y[14] * 0x1_0000_0000_0000 + y[15] * 0x100_0000_0000_0000
            &&& forall|i: int| 0 <= i < m.len() ==> {
                let account = #[trigger] n[i];
                &&& account == (AccountModel { data: account.data, ..m[i] })
                &&& account.data.len() == m[i].data.len()
                &&& i != views[0].slot && i != views[1].slot ==> account == m[i]
                &&& forall|k: int|
                    0 <= k < account.data.len() && !(8 <= k < 16) ==> #[trigger] account.data[k]
                        == m[i].data[k]
            }
        }),
{
    law_touch_two_mut_takes(m, views);
    law_which_typed_account_loads::<Data>(m, views[0], true);
    law_which_typed_account_loads::<Data>(m, views[1], true);
    let accounts = TouchTwoMut::loaded(m, views)->Ok_0;
    let h = accounts.holds();
    lemma_two_taken(m, views[0], true, views[1], true);
    assert(h =~= data_hold(views[0], true).add(data_hold(views[1], true)));
    law_borrows_change_borrow_states_alone(m, h, views[0].slot as int);
    law_borrows_change_borrow_states_alone(m, h, views[1].slot as int);
    law_two_numbers_are_written(accounts.data_a, accounts.data_b, taken(m, h), value);
    lemma_end(m, h, written_two(accounts.data_a, accounts.data_b, taken(m, h), value));
}

/// [`TouchNestedTwoMut`]: the accounts hold `value` and the number after it.
#[verifier::spinoff_prover]
#[verifier::rlimit(40)]
pub proof fn law_touch_nested_two_mut_leaves(m: Memory, views: Seq<AccountView>, value: u64)
    requires
        views.len() == 2,
        views[0].slot < m.len(),
        views[1].slot < m.len(),
        TouchNestedTwoMut::loaded(m, views) is Ok,
    ensures
        ({
            let accounts = TouchNestedTwoMut::loaded(m, views)->Ok_0;
            let h = accounts.holds();
            let n = freed(
                written_two(
                    accounts.pair.inner.data_a,
                    accounts.pair.inner.data_b,
                    taken(m, h),
                    value,
                ),
                h,
            );
            let x = n[views[0].slot as int].data;
            let y = n[views[1].slot as int].data;
            &&& n.len() == m.len()
            &&& value as int == x[8] + x[9] * 0x100 + x[10] * 0x1_0000 + x[11] * 0x100_0000
                + x[12] * 0x1_0000_0000 + x[13] * 0x100_0000_0000 + x[14] * 0x1_0000_0000_0000
                + x[15] * 0x100_0000_0000_0000
            &&& (value + 1) % 0x1_0000_0000_0000_0000 == y[8] + y[9] * 0x100 + y[10] * 0x1_0000
                + y[11] * 0x100_0000 + y[12] * 0x1_0000_0000 + y[13] * 0x100_0000_0000
                + y[14] * 0x1_0000_0000_0000 + y[15] * 0x100_0000_0000_0000
            &&& forall|i: int| 0 <= i < m.len() ==> {
                let account = #[trigger] n[i];
                &&& account == (AccountModel { data: account.data, ..m[i] })
                &&& account.data.len() == m[i].data.len()
                &&& i != views[0].slot && i != views[1].slot ==> account == m[i]
                &&& forall|k: int|
                    0 <= k < account.data.len() && !(8 <= k < 16) ==> #[trigger] account.data[k]
                        == m[i].data[k]
            }
        }),
{
    law_touch_nested_two_mut_takes(m, views);
    law_which_typed_account_loads::<Data>(m, views[0], true);
    law_which_typed_account_loads::<Data>(m, views[1], true);
    let accounts = TouchNestedTwoMut::loaded(m, views)->Ok_0;
    let h = accounts.holds();
    lemma_two_taken(m, views[0], true, views[1], true);
    assert(h =~= data_hold(views[0], true).add(data_hold(views[1], true)));
    law_borrows_change_borrow_states_alone(m, h, views[0].slot as int);
    law_borrows_change_borrow_states_alone(m, h, views[1].slot as int);
    let a = accounts.pair.inner.data_a;
    let b = accounts.pair.inner.data_b;
    law_two_numbers_are_written(a, b, taken(m, h), value);
    lemma_end(m, h, written_two(a, b, taken(m, h), value));
}

/// [`TouchThreeMut`]: the accounts hold `value` and the two numbers after it.
#[verifier::spinoff_prover]
#[verifier::rlimit(40)]
pub proof fn law_touch_three_mut_leaves(m: Memory, views: Seq<AccountView>, value: u64)
    requires
        views.len() == 3,
        views[0].slot < m.len(),
        views[1].slot < m.len(),
        views[2].slot < m.len(),
        TouchThreeMut::loaded(m, views) is Ok,
    ensures
        ({
            let accounts = TouchThreeMut::loaded(m, views)->Ok_0;
            let h = accounts.holds();
            let n = freed(
                written_three(
                    accounts.data_a,
                    accounts.data_b,
                    accounts.data_c,
                    taken(m, h),
                    value,
                ),
                h,
            );
            let x = n[views[0].slot as int].data;
            let y = n[views[1].slot as int].data;
            let z = n[views[2].slot as int].data;
            &&& n.len() == m.len()
            &&& value as int == x[8] + x[9] * 0x100 + x[10] * 0x1_0000 + x[11] * 0x100_0000
                + x[12] * 0x1_0000_0000 + x[13] * 0x100_0000_0000 + x[14] * 0x1_0000_0000_0000
                + x[15] * 0x100_0000_0000_0000
            &&& (value + 1) % 0x1_0000_0000_0000_0000 == y[8] + y[9] * 0x100 + y[10] * 0x1_0000
                + y[11] * 0x100_0000 + y[12] * 0x1_0000_0000 + y[13] * 0x100_0000_0000
                + y[14] * 0x1_0000_0000_0000 + y[15] * 0x100_0000_0000_0000
            &&& (value + 2) % 0x1_0000_0000_0000_0000 == z[8] + z[9] * 0x100 + z[10] * 0x1_0000
                + z[11] * 0x100_0000 + z[12] * 0x1_0000_0000 + z[13] * 0x100_0000_0000
                + z[14] * 0x1_0000_0000_0000 + z[15] * 0x100_0000_0000_0000
            &&& forall|i: int| 0 <= i < m.len() ==> {
                let account = #[trigger] n[i];
                &&& account == (AccountModel { data: account.data, ..m[i] })
                &&& account.data.len() == m[i].data.len()
                &&& i != views[0].slot && i != views[1].slot && i != views[2].slot ==> account
                    == m[i]
                &&& forall|k: int|
                    0 <= k < account.data.len() && !(8 <= k < 16) ==> #[trigger] account.data[k]
                        == m[i].data[k]
            }
        }),
{
    law_touch_three_mut_takes(m, views);
    law_which_typed_account_loads::<Data>(m, views[0], true);
    law_which_typed_account_loads::<Data>(m, views[1], true);
    law_which_typed_account_loads::<Data>(m, views[2], true);
    let accounts = TouchThreeMut::loaded(m, views)->Ok_0;
    let h = accounts.holds();
    lemma_three_taken(m, views[0], views[1], views[2]);
    assert(h =~= data_hold(views[0], true).add(data_hold(views[1], true)).add(
        data_hold(views[2], true),
    ));
    law_borrows_change_borrow_states_alone(m, h, views[0].slot as int);
    law_borrows_change_borrow_states_alone(m, h, views[1].slot as int);
    law_borrows_change_borrow_states_alone(m, h, views[2].slot as int);
    law_three_numbers_are_written(
        accounts.data_a,
        accounts.data_b,
        accounts.data_c,
        taken(m, h),
        value,
    );
    let n = written_three(
        accounts.data_a,
        accounts.data_b,
        accounts.data_c,
        taken(m, h),
        value,
    );
    lemma_end(m, h, n);
}

/// [`TouchOuterMutPlusNested`]: the accounts hold `value` and the two numbers after it.
#[verifier::spinoff_prover]
#[verifier::rlimit(40)]
pub proof fn law_touch_outer_mut_plus_nested_leaves(m: Memory, views: Seq<AccountView>, value: u64)
    requires
        views.len() == 3,
        views[0].slot < m.len(),
        views[1].slot < m.len(),
        views[2].slot < m.len(),
        TouchOuterMutPlusNested::loaded(m, views) is Ok,
    ensures
        ({
            let accounts = TouchOuterMutPlusNested::loaded(m, views)->Ok_0;
            let h = accounts.holds();
            let n = freed(
                written_three(
                    accounts.outer,
                    accounts.pair.inner.data_a,
                    accounts.pair.inner.data_b,
                    taken(m, h),
                    value,
                ),
                h,
            );
            let x = n[views[0].slot as int].data;
            let y = n[views[1].slot as int].data;
            let z = n[views[2].slot as int].data;
            &&& n.len() == m.len()
            &&& value as int == x[8] + x[9] * 0x100 + x[10] * 0x1_0000 + x[11] * 0x100_0000
                + x[12] * 0x1_0000_0000 + x[13] * 0x100_0000_0000 + x[14] * 0x1_0000_0000_0000
                + x[15] * 0x100_0000_0000_0000
            &&& (value + 1) % 0x1_0000_0000_0000_0000 == y[8] + y[9] * 0x100 + y[10] * 0x1_0000
                + y[11] * 0x100_0000 + y[12] * 0x1_0000_0000 + y[13] * 0x100_0000_0000
                + y[14] * 0x1_0000_0000_0000 + y[15] * 0x100_0000_0000_0000
            &&& (value + 2) % 0x1_0000_0000_0000_0000 == z[8] + z[9] * 0x100 + z[10] * 0x1_0000
                + z[11] * 0x100_0000 + z[12] * 0x1_0000_0000 + z[13] * 0x100_0000_0000
                + z[14] * 0x1_0000_0000_0000 + z[15] * 0x100_0000_0000_0000
            &&& forall|i: int| 0 <= i < m.len() ==> {
                let account = #[trigger] n[i];
                &&& account == (AccountModel { data: account.data, ..m[i] })
                &&& account.data.len() == m[i].data.len()
                &&& i != views[0].slot && i != views[1].slot && i != views[2].slot ==> account
                    == m[i]
                &&& forall|k: int|
                    0 <= k < account.data.len() && !(8 <= k < 16) ==> #[trigger] account.data[k]
                        == m[i].data[k]
            }
        }),
{
    law_touch_outer_mut_plus_nested_takes(m, views);
    law_which_typed_account_loads::<Data>(m, views[0], true);
    law_which_typed_account_loads::<Data>(m, views[1], true);
    law_which_typed_account_loads::<Data>(m, views[2], true);
    let accounts = TouchOuterMutPlusNested::loaded(m, views)->Ok_0;
    let h = accounts.holds();
    lemma_three_taken(m, views[0], views[1], views[2]);
    assert(h =~= data_hold(views[0], true).add(data_hold(views[1], true)).add(
        data_hold(views[2], true),
    ));
    law_borrows_change_borrow_states_alone(m, h, views[0].slot as int);
    law_borrows_change_borrow_states_alone(m, h, views[1].slot as int);
    law_borrows_change_borrow_states_alone(m, h, views[2].slot as int);
    law_three_numbers_are_written(
        accounts.outer,
        accounts.pair.inner.data_a,
        accounts.pair.inner.data_b,
        taken(m, h),
        value,
    );
    let n = written_three(
        accounts.outer,
        accounts.pair.inner.data_a,
        accounts.pair.inner.data_b,
        taken(m, h),
        value,
    );
    lemma_end(m, h, n);
}

/// [`TouchOptionalMutAndMut`]: the second account holds the number after `value`, and the
/// first, unless it is absent, holds `value`.
#[verifier::spinoff_prover]
#[verifier::rlimit(40)]
pub proof fn law_touch_optional_mut_and_mut_leaves(
    program_id: Seq<u8>,
    m: Memory,
    views: Seq<AccountView>,
    value: u64,
)
    requires
        views.len() == 2,
        views[0].slot < m.len(),
        views[1].slot < m.len(),
        TouchOptionalMutAndMut::loaded(program_id, m, views) is Ok,
    ensures
        ({
            let accounts = TouchOptionalMutAndMut::loaded(program_id, m, views)->Ok_0;
            let h = accounts.holds();
            let n = freed(
                written_optional(accounts.data_a, accounts.data_b, taken(m, h), value),
                h,
            );
            let absent = m[views[0].slot as int].address == program_id;
            let x = n[views[0].slot as int].data;
            let y = n[views[1].slot as int].data;
            &&& n.len() == m.len()
            &&& !absent ==> value as int == x[8] + x[9] * 0x100 + x[10] * 0x1_0000
                + x[11] * 0x100_0000 + x[12] * 0x1_0000_0000 + x[13] * 0x100_0000_0000
                + x[14] * 0x1_0000_0000_0000 + x[15] * 0x100_0000_0000_0000
            &&& (value + 1) % 0x1_0000_0000_0000_0000 == y[8] + y[9] * 0x100 + y[10] * 0x1_0000
                + y[11] * 0x100_0000 + y[12] * 0x1_0000_0000 + y[13] * 0x100_0000_0000
                + y[14] * 0x1_0000_0000_0000 + y[15] * 0x100_0000_0000_0000
            &&& forall|i: int| 0 <= i < m.len() ==> {
                let account = #[trigger] n[i];
                &&& account == (AccountModel { data: account.data, ..m[i] })
                &&& account.data.len() == m[i].data.len()
                &&& (absent || i != views[0].slot) && i != views[1].slot ==> account == m[i]
                &&& forall|k: int|
                    0 <= k < account.data.len() && !(8 <= k < 16) ==> #[trigger] account.data[k]
                        == m[i].data[k]
            }
        }),
{
    law_touch_optional_mut_and_mut_takes(program_id, m, views);
    law_which_typed_account_loads::<Data>(m, views[0], true);
    law_which_typed_account_loads::<Data>(m, views[1], true);
    let accounts = TouchOptionalMutAndMut::loaded(program_id, m, views)->Ok_0;
    let h = accounts.holds();
    let t = taken(m, h);
    law_borrows_change_borrow_states_alone(m, h, views[0].slot as int);
    law_borrows_change_borrow_states_alone(m, h, views[1].slot as int);
    match accounts.data_a {
        Some(a) => {
            lemma_two_taken(m, views[0], true, views[1], true);
            assert(h =~= data_hold(views[0], true).add(data_hold(views[1], true)));
            law_two_numbers_are_written(a, accounts.data_b, t, value);
            lemma_end(m, h, written_two(a, accounts.data_b, t, value));
        },
        None => {
            Account::<Data>::lemma_loaded(m, views[1], true);
            assert(h =~= data_hold(views[1], true));
            lemma_one_end(m, h, accounts.data_b, Data { value: value.wrapping_add(1) });
        },
    }
}

/// [`TouchDataAndRaw`]: the account that is written holds `value`.
#[verifier::spinoff_prover]
#[verifier::rlimit(40)]
pub proof fn law_touch_data_and_raw_leaves(m: Memory, views: Seq<AccountView>, value: u64)
    requires
        views.len() == 2,
        views[0].slot < m.len(),
        views[1].slot < m.len(),
        TouchDataAndRaw::loaded(m, views) is Ok,
    ensures
        ({
            let accounts = TouchDataAndRaw::loaded(m, views)->Ok_0;
            let h = accounts.holds();
            let n = freed(accounts.data.stored(taken(m, h), Data { value }), h);
            let x = n[views[0].slot as int].data;
            &&& n.len() == m.len()
            &&& value as int == x[8] + x[9] * 0x100 + x[10] * 0x1_0000 + x[11] * 0x100_0000
                + x[12] * 0x1_0000_0000 + x[13] * 0x100_0000_0000 + x[14] * 0x1_0000_0000_0000
                + x[15] * 0x100_0000_0000_0000
            &&& forall|i: int| 0 <= i < m.len() ==> {
                let account = #[trigger] n[i];
                &&& account == (AccountModel { data: account.data, ..m[i] })
                &&& account.data.len() == m[i].data.len()
                &&& i != views[0].slot ==> account == m[i]
                &&& forall|k: int|
                    0 <= k < account.data.len() && !(8 <= k < 16) ==> #[trigger] account.data[k]
                        == m[i].data[k]
            }
        }),
{
    law_touch_data_and_raw_takes(m, views);
    law_which_typed_account_loads::<Data>(m, views[0], true);
    let accounts = TouchDataAndRaw::loaded(m, views)->Ok_0;
    let h = accounts.holds();
    Account::<Data>::lemma_loaded(m, views[0], true);
    assert(h =~= data_hold(views[0], true));
    lemma_one_end(m, h, accounts.data, Data { value });
}

/// [`TransferToRawAlias`]: the account that is written holds `value`.
#[verifier::spinoff_prover]
#[verifier::rlimit(40)]
pub proof fn law_transfer_to_raw_alias_leaves(m: Memory, views: Seq<AccountView>, value: u64)
    requires
        views.len() == 4,
        views[0].slot < m.len(),
        views[1].slot < m.len(),
        views[2].slot < m.len(),
        views[3].slot < m.len(),
        TransferToRawAlias::loaded(m, views) is Ok,
    ensures
        ({
            let accounts = TransferToRawAlias::loaded(m, views)->Ok_0;
            let h = accounts.holds();
            let n = freed(accounts.data.stored(taken(m, h), Data { value }), h);
            let x = n[views[1].slot as int].data;
            &&& n.len() == m.len()
            &&& value as int == x[8] + x[9] * 0x100 + x[10] * 0x1_0000 + x[11] * 0x100_0000
                + x[12] * 0x1_0000_0000 + x[13] * 0x100_0000_0000 + x[14] * 0x1_0000_0000_0000
                + x[15] * 0x100_0000_0000_0000
            &&& forall|i: int| 0 <= i < m.len() ==> {
                let account = #[trigger] n[i];
                &&& account == (AccountModel { data: account.data, ..m[i] })
                &&& account.data.len() == m[i].data.len()
                &&& i != views[1].slot ==> account == m[i]
                &&& forall|k: int|
                    0 <= k < account.data.len() && !(8 <= k < 16) ==> #[trigger] account.data[k]
                        == m[i].data[k]
            }
        }),
{
    law_transfer_to_raw_alias_takes(m, views);
    law_which_typed_account_loads::<Data>(m, views[1], true);
    let accounts = TransferToRawAlias::loaded(m, views)->Ok_0;
    let h = accounts.holds();
    Account::<Data>::lemma_loaded(m, views[1], true);
    assert(h =~= data_hold(views[1], true));
    lemma_one_end(m, h, accounts.data, Data { value });
}

/// Writing a number in the Borsh format back: it takes the bytes eight to fifteen, and
/// nothing else changes.
#[verifier::spinoff_prover]
#[verifier::rlimit(40)]
proof fn lemma_borsh_exit(account: BorshAccount<BorshData>, m: Memory)
    requires
        account.view.slot < m.len(),
        account.mutable,
        account.borrowed,
        account.payload_len == 8,
        m[account.view.slot as int].data.len() >= 16,
    ensures
        ({
            let at = account.view.slot as int;
            let exit = account.exited(m);
            let x = exit.memory[at].data;
            &&& exit.result is Ok
            &&& exit.account.holds() == account.holds()
            &&& exit.memory.len() == m.len()
            &&& forall|i: int| 0 <= i < m.len() && i != at ==> #[trigger] exit.memory[i] == m[i]
            &&& exit.memory[at] == (AccountModel { data: x, ..m[at] })
            &&& x.len() == m[at].data.len()
            &&& account.data.value as int == x[8] + x[9] * 0x100 + x[10] * 0x1_0000
                + x[11] * 0x100_0000 + x[12] * 0x1_0000_0000 + x[13] * 0x100_0000_0000
                + x[14] * 0x1_0000_0000_0000 + x[15] * 0x100_0000_0000_0000
            &&& forall|k: int|
                0 <= k < x.len() && !(8 <= k < 16) ==> #[trigger] x[k] == m[at].data[k]
        }),
{
    let at = account.view.slot as int;
    law_borsh_number(account.data, Seq::empty(), (m[at].data.len() - 8) as nat);
    law_value_that_fits_is_written_back(account, m);
    let x = account.exited(m).memory[at].data;
    let b = <BorshSerializer as AnchorAccountSerialize<BorshData>>::encoded(account.data);
    assert(x.subrange(8, 16) == b);
    law_eight_bytes_make_a_number(b);
    law_eight_bytes_make_a_number(x.subrange(8, 16));
}

/// A number in the Borsh format written back while borrows are held, once they are given
/// back.
#[verifier::spinoff_prover]
#[verifier::rlimit(40)]
proof fn lemma_borsh_end(m: Memory, h: Multiset<Hold>, account: BorshAccount<BorshData>)
    requires
        can_take(m, h),
        account.view.slot < m.len(),
        account.mutable,
        account.borrowed,
        account.payload_len == 8,
        m[account.view.slot as int].data.len() >= 16,
    ensures
        ({
            let at = account.view.slot as int;
            let exit = account.exited(taken(m, h));
            let n = freed(exit.memory, h);
            let x = n[at].data;
            &&& exit.result is Ok
            &&& exit.account.holds() == account.holds()
            &&& exit.memory.len() == m.len()
            &&& n.len() == m.len()
            &&& account.data.value as int == x[8] + x[9] * 0x100 + x[10] * 0x1_0000
                + x[11] * 0x100_0000 + x[12] * 0x1_0000_0000 + x[13] * 0x100_0000_0000
                + x[14] * 0x1_0000_0000_0000 + x[15] * 0x100_0000_0000_0000
            &&& forall|i: int| 0 <= i < m.len() ==> {
                let written = #[trigger] n[i];
                &&& written == (AccountModel { data: written.data, ..m[i] })
                &&& written.data.len() == m[i].data.len()
                &&& i != at ==> written == m[i]
                &&& forall|k: int|
                    0 <= k < written.data.len() && !(8 <= k < 16) ==> #[trigger] written.data[k]
                        == m[i].data[k]
            }
        }),
{
    let at = account.view.slot as int;
    let t = taken(m, h);
    law_borrows_change_borrow_states_alone(m, h, at);
    lemma_borsh_exit(account, t);
    let n = account.exited(t).memory;
    assert forall|i: int| 0 <= i < m.len() implies {
        let written = #[trigger] n[i];
        &&& written == (AccountModel { data: written.data, ..t[i] })
        &&& written.data.len() == t[i].data.len()
        &&& forall|k: int|
            0 <= k < written.data.len() && !(8 <= k < 16) ==> #[trigger] written.data[k]
                == t[i].data[k]
    } by {
        if i != at {
            assert(n[i] == t[i]);
        }
    }
    lemma_end(m, h, n);
}

/// What is known of two accounts in the Borsh format that load, one to write, one to read.
#[verifier::spinoff_prover]
#[verifier::rlimit(40)]
proof fn lemma_borsh_pair(m: Memory, views: Seq<AccountView>)
    requires
        views.len() == 2,
        views[0].slot < m.len(),
        views[1].slot < m.len(),
        TouchBorshMutAndReadonly::loaded(m, views) is Ok,
    ensures
        ({
            let accounts = TouchBorshMutAndReadonly::loaded(m, views)->Ok_0;
            let d = m[views[1].slot as int].data;
            &&& can_take(m, accounts.holds())
            &&& accounts.holds() == accounts.data_a.holds().add(accounts.data_b.holds())
            &&& accounts.data_a.view == views[0]
            &&& accounts.data_a.mutable
            &&& accounts.data_a.borrowed
            &&& accounts.data_a.payload_len == 8
            &&& m[views[0].slot as int].data.len() >= 16
            &&& accounts.data_b.view == views[1]
            &&& !accounts.data_b.mutable
            &&& accounts.data_b.data.value as int == d[8] + d[9] * 0x100 + d[10] * 0x1_0000
                + d[11] * 0x100_0000 + d[12] * 0x1_0000_0000 + d[13] * 0x100_0000_0000
                + d[14] * 0x1_0000_0000_0000 + d[15] * 0x100_0000_0000_0000
        }),
{
    law_touch_borsh_mut_and_readonly_takes(m, views);
    law_which_serialized_account_loads::<BorshData, BorshSerializer>(m, views[0], true);
    law_which_serialized_account_loads::<BorshData, BorshSerializer>(m, views[1], false);
    let accounts = TouchBorshMutAndReadonly::loaded(m, views)->Ok_0;
    let d = m[views[1].slot as int].data;
    let e = m[views[0].slot as int].data;
    law_borsh_number(accounts.data_b.data, d.skip(8), 8);
    law_borsh_number(accounts.data_a.data, e.skip(8), 8);
    BorshAccount::<BorshData>::lemma_loaded(m, views[0], true);
    BorshAccount::<BorshData>::lemma_loaded(m, views[1], false);
    let ha = data_hold(views[0], true);
    let hb = data_hold(views[1], false);
    law_borrows_of_other_accounts_are_independent(m, ha, views[1]);
    lemma_take_both(m, ha, hb);
    assert(accounts.holds() =~= ha.add(hb));
}

/// [`TouchBorshMutAndReadonly`]: the first account holds `value` and the whole number that
/// the second one holds, added up, beyond the limit from zero again, and nothing else has
/// changed.
#[verifier::spinoff_prover]
#[verifier::rlimit(40)]
pub proof fn law_touch_borsh_mut_and_readonly_leaves(
    m: Memory,
    views: Seq<AccountView>,
    value: u64,
)
    requires
        views[0].slot < m.len(),
        views[1].slot < m.len(),
        views.len() == 2,
        TouchBorshMutAndReadonly::loaded(m, views) is Ok,
    ensures
        ({
            let accounts = TouchBorshMutAndReadonly::loaded(m, views)->Ok_0;
            let a = SerializedAccount {
                data: BorshData { value: value.wrapping_add(accounts.data_b.data.value) },
                ..accounts.data_a
            };
            let exit = pair_exited(a, accounts.data_b, taken(m, accounts.holds()));
            let n = freed(exit.memory, exit.account.holds());
            let d = m[views[1].slot as int].data;
            let x = n[views[0].slot as int].data;
            &&& exit.result is Ok
            &&& n.len() == m.len()
            &&& (value + (d[8] + d[9] * 0x100 + d[10] * 0x1_0000 + d[11] * 0x100_0000
                + d[12] * 0x1_0000_0000 + d[13] * 0x100_0000_0000 + d[14] * 0x1_0000_0000_0000
                + d[15] * 0x100_0000_0000_0000)) % 0x1_0000_0000_0000_0000 == x[8]
                + x[9] * 0x100 + x[10] * 0x1_0000 + x[11] * 0x100_0000 + x[12] * 0x1_0000_0000
                + x[13] * 0x100_0000_0000 + x[14] * 0x1_0000_0000_0000
                + x[15] * 0x100_0000_0000_0000
            &&& forall|i: int| 0 <= i < m.len() ==> {
                let account = #[trigger] n[i];
                &&& account == (AccountModel { data: account.data, ..m[i] })
                &&& account.data.len() == m[i].data.len()
                &&& i != views[0].slot ==> account == m[i]
                &&& forall|k: int|
                    0 <= k < account.data.len() && !(8 <= k < 16) ==> #[trigger] account.data[k]
                        == m[i].data[k]
            }
        }),
{
    lemma_borsh_pair(m, views);
    let accounts = TouchBorshMutAndReadonly::loaded(m, views)->Ok_0;
    let h = accounts.holds();
    let t = taken(m, h);
    let a = SerializedAccount {
        data: BorshData { value: value.wrapping_add(accounts.data_b.data.value) },
        ..accounts.data_a
    };
    lemma_borsh_end(m, h, a);
    let n = a.exited(t).memory;
    law_nothing_is_written_back(accounts.data_b, n);
    law_two_exit_one_after_the_other(a, accounts.data_b, t);
    assert(a.holds() == accounts.data_a.holds());
    let exit = pair_exited(a, accounts.data_b, t);
    assert(exit.memory == n);
    assert(exit.account.holds() == h);
}

/// [`InitializeBorsh`]: the number that the new account holds is written back as it is, so
/// the instruction leaves the account with its discriminator and nothing else changed.
#[verifier::spinoff_prover]
#[verifier::rlimit(40)]
pub proof fn law_initialize_borsh_leaves(p: Memory, views: Seq<AccountView>)
    requires
        views.len() == 3,
        views[1].slot < p.len(),
        views[2].slot < p.len(),
        pair_loaded::<BorshAccount<BorshData>, Program<System>>(
            p,
            (views[1], true),
            (views[2], false),
        ) is Ok,
    ensures
        ({
            let loaded = pair_loaded::<BorshAccount<BorshData>, Program<System>>(
                p,
                (views[1], true),
                (views[2], false),
            )->Ok_0;
            let exit = pair_exited(loaded.0, loaded.1, taken(p, loaded.holds()));
            &&& exit.result is Ok
            &&& freed(exit.memory, exit.account.holds()) == p
        }),
{
    let at = views[1].slot as int;
    law_which_serialized_account_loads::<BorshData, BorshSerializer>(p, views[1], true);
    let loaded = pair_loaded::<BorshAccount<BorshData>, Program<System>>(
        p,
        (views[1], true),
        (views[2], false),
    )->Ok_0;
    let d = p[at].data;
    law_borsh_number(loaded.0.data, d.skip(8), 8);
    let h = data_hold(views[1], true);
    assert(loaded.holds() =~= h);
    BorshAccount::<BorshData>::lemma_loaded(p, views[1], true);
    let t = taken(p, h);
    law_borrows_change_borrow_states_alone(p, h, at);
    law_borsh_number(loaded.0.data, Seq::empty(), (d.len() - 8) as nat);
    law_value_that_fits_is_written_back(loaded.0, t);
    let n = loaded.0.exited(t).memory;
    let enc = <BorshSerializer as AnchorAccountSerialize<BorshData>>::encoded(loaded.0.data);
    law_same_bytes_of_a_number(loaded.0.data.value, d.subrange(8, 16));
    assert(n[at].data.subrange(8, 16) == enc);
    assert(n[at].data =~= d) by {
        assert forall|i: int| 0 <= i < d.len() implies n[at].data[i] == d[i] by {
            if 8 <= i < 16 {
                assert(n[at].data.subrange(8, 16)[i - 8] == d.subrange(8, 16)[i - 8]);
            }
        }
    }
    assert(n =~= t);
    law_release_undoes_borrow(p, h);
    assert(pair_exited(loaded.0, loaded.1, t).account.holds() =~= h);
}

} // verus!
