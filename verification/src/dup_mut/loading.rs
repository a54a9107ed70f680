//! Which accounts each struct takes, field by field.
//!
//! Each field wraps the account at its own position. The fields load as they do alone,
//! unless two of them expose the data of one account and at least one of them is to write
//! it, or no room is left for a second reader.

use crate::accounts::program::{Program, System};
use crate::accounts::serialized::{BorshAccount, BorshSerializer};
use crate::accounts::signer::Signer;
use crate::accounts::slab::{data_hold, Account};
use crate::accounts::system_account::SystemAccount;
use crate::accounts::unchecked_account::UncheckedAccount;
use crate::accounts::Wrapper;
use crate::dispatch::loaded_as;
use crate::dup_mut::accounts::{
    InnerMutReadonly, InnerTwoMut, ReadTwo, SignerRoles, TouchBorshMutAndReadonly,
    TouchBoxedMutAndReadonly, TouchDataAndRaw, TouchMutAndReadonly, TouchNestedMutReadonly,
    TouchNestedTwoMut, TouchOptionalMutAndMut, TouchOuterMutPlusNested, TouchReadonlyAndMut,
    TouchThreeMut, TouchTwoMut, TransferToRawAlias, TransferToRecipient,
};
use crate::dup_mut::state::{BorshData, Data};
use crate::laws::beside::{
    law_serialized_account_beside_another, law_typed_account_beside_another,
};
use crate::laws::wrappers::law_who_is_a_signer;
use crate::memory::{lemma_no_holds, lemma_take_both, taken, AccountView, Held, Hold, Memory};
use solana_program_error::ProgramError;
use vstd::multiset::Multiset;
use vstd::prelude::*;

verus! {

/// Each field of [`TouchTwoMut`] wraps the account at its own position. All load exactly where each
/// loads alone and no two conflict; otherwise the first that is refused gives the error.
pub proof fn law_touch_two_mut_takes(m: Memory, views: Seq<AccountView>)
    requires
        views.len() == 2,
        views[0].slot < m.len(),
        views[1].slot < m.len(),
    ensures
        ({
            let r = TouchTwoMut::loaded(m, views);
            let f0 = Account::<Data>::loaded(m, views[0], true);
            let f1 = Account::<Data>::loaded(m, views[1], true);
            let c01 = views[0].slot == views[1].slot;
            &&& r is Ok <==> f0 is Ok && f1 is Ok && !c01
            &&& r matches Ok(accounts) ==> {
                &&& accounts.data_a.view == views[0]
                &&& accounts.data_a.mutable == true
                &&& accounts.data_a == f0->Ok_0
                &&& accounts.data_b.view == views[1]
                &&& accounts.data_b.mutable == true
                &&& accounts.data_b == f1->Ok_0
                &&& accounts.holds() =~= Multiset::<Hold>::empty()
                    .add(Multiset::singleton(Hold { slot: views[0].slot as int, exclusive: true }))
                    .add(Multiset::singleton(Hold { slot: views[1].slot as int, exclusive: true }))
            }
            &&& (f0 matches Err(e) ==> r == Err::<TouchTwoMut, ProgramError>(e))
            &&& f0 is Ok ==> (f1 matches Err(e) ==> r == Err::<TouchTwoMut, ProgramError>(e))
            &&& f0 is Ok && f1 is Ok && (c01) ==> r == Err::<TouchTwoMut, ProgramError>(
                ProgramError::AccountBorrowFailed,
            )
        }),
{
    lemma_no_holds(m);
    if Account::<Data>::loaded(m, views[0], true) is Ok {
        law_typed_account_beside_another::<Data>(m, (views[0], true), (views[1], true));
    }
}

/// Each field of [`TouchThreeMut`] wraps the account at its own position. All load exactly
/// where each loads alone and no two conflict; otherwise the first that is refused gives the
/// error.
pub proof fn law_touch_three_mut_takes(m: Memory, views: Seq<AccountView>)
    requires
        views.len() == 3,
        views[0].slot < m.len(),
        views[1].slot < m.len(),
        views[2].slot < m.len(),
    ensures
        ({
            let r = TouchThreeMut::loaded(m, views);
            let f0 = Account::<Data>::loaded(m, views[0], true);
            let f1 = Account::<Data>::loaded(m, views[1], true);
            let f2 = Account::<Data>::loaded(m, views[2], true);
            let c01 = views[0].slot == views[1].slot;
            let c02 = views[0].slot == views[2].slot;
            let c12 = views[1].slot == views[2].slot;
            &&& r is Ok <==> f0 is Ok && f1 is Ok && f2 is Ok && !c01 && !c02 && !c12
            &&& r matches Ok(accounts) ==> {
                &&& accounts.data_a.view == views[0]
                &&& accounts.data_a.mutable == true
                &&& accounts.data_a == f0->Ok_0
                &&& accounts.data_b.view == views[1]
                &&& accounts.data_b.mutable == true
                &&& accounts.data_b == f1->Ok_0
                &&& accounts.data_c.view == views[2]
                &&& accounts.data_c.mutable == true
                &&& accounts.data_c == f2->Ok_0
                &&& accounts.holds() =~= Multiset::<Hold>::empty()
                    .add(Multiset::singleton(Hold { slot: views[0].slot as int, exclusive: true }))
                    .add(Multiset::singleton(Hold { slot: views[1].slot as int, exclusive: true }))
                    .add(Multiset::singleton(Hold { slot: views[2].slot as int, exclusive: true }))
            }
            &&& (f0 matches Err(e) ==> r == Err::<TouchThreeMut, ProgramError>(e))
            &&& f0 is Ok ==> (f1 matches Err(e) ==> r == Err::<TouchThreeMut, ProgramError>(e))
            &&& f0 is Ok && f1 is Ok && (c01) ==> r == Err::<TouchThreeMut, ProgramError>(
                ProgramError::AccountBorrowFailed,
            )
            &&& f0 is Ok && f1 is Ok && !c01 ==> (f2 matches Err(e) ==> r
                == Err::<TouchThreeMut, ProgramError>(e))
            &&& f0 is Ok && f1 is Ok && !c01 && f2 is Ok && (c02 || c12) ==> r
                == Err::<TouchThreeMut, ProgramError>(
                ProgramError::AccountBorrowFailed,
            )
        }),
{
    lemma_no_holds(m);
    if Account::<Data>::loaded(m, views[0], true) is Ok {
        let h = data_hold(views[0], true);
        let n = taken(m, h);
        law_typed_account_beside_another::<Data>(m, (views[0], true), (views[1], true));
        law_typed_account_beside_another::<Data>(m, (views[0], true), (views[2], true));
        if Account::<Data>::loaded(n, views[1], true) is Ok {
            law_typed_account_beside_another::<Data>(n, (views[1], true), (views[2], true));
            Account::<Data>::lemma_loaded(m, views[0], true);
            Account::<Data>::lemma_loaded(n, views[1], true);
            lemma_take_both(m, h, data_hold(views[1], true));
        }
    }
}

/// Each field of [`TouchMutAndReadonly`] wraps the account at its own position. All load
/// exactly where each loads alone and no two conflict; otherwise the first that is refused
/// gives the error.
pub proof fn law_touch_mut_and_readonly_takes(m: Memory, views: Seq<AccountView>)
    requires
        views.len() == 2,
        views[0].slot < m.len(),
        views[1].slot < m.len(),
    ensures
        ({
            let r = TouchMutAndReadonly::loaded(m, views);
            let f0 = Account::<Data>::loaded(m, views[0], true);
            let f1 = Account::<Data>::loaded(m, views[1], false);
            let c01 = views[0].slot == views[1].slot;
            &&& r is Ok <==> f0 is Ok && f1 is Ok && !c01
            &&& r matches Ok(accounts) ==> {
                &&& accounts.data_a.view == views[0]
                &&& accounts.data_a.mutable == true
                &&& accounts.data_a == f0->Ok_0
                &&& accounts.data_b.view == views[1]
                &&& accounts.data_b.mutable == false
                &&& accounts.data_b == f1->Ok_0
                &&& accounts.holds() =~= Multiset::<Hold>::empty()
                    .add(Multiset::singleton(Hold { slot: views[0].slot as int, exclusive: true }))
                    .add(Multiset::singleton(Hold { slot: views[1].slot as int, exclusive: false }))
            }
            &&& (f0 matches Err(e) ==> r == Err::<TouchMutAndReadonly, ProgramError>(e))
            &&& f0 is Ok ==> (f1 matches Err(e) ==> r
                == Err::<TouchMutAndReadonly, ProgramError>(e))
            &&& f0 is Ok && f1 is Ok && (c01) ==> r == Err::<TouchMutAndReadonly, ProgramError>(
                ProgramError::AccountBorrowFailed,
            )
        }),
{
    lemma_no_holds(m);
    if Account::<Data>::loaded(m, views[0], true) is Ok {
        law_typed_account_beside_another::<Data>(m, (views[0], true), (views[1], false));
    }
}

/// Each field of [`TouchReadonlyAndMut`] wraps the account at its own position. All load
/// exactly where each loads alone and no two conflict; otherwise the first that is refused
/// gives the error.
pub proof fn law_touch_readonly_and_mut_takes(m: Memory, views: Seq<AccountView>)
    requires
        views.len() == 2,
        views[0].slot < m.len(),
        views[1].slot < m.len(),
    ensures
        ({
            let r = TouchReadonlyAndMut::loaded(m, views);
            let f0 = Account::<Data>::loaded(m, views[0], false);
            let f1 = Account::<Data>::loaded(m, views[1], true);
            let c01 = views[0].slot == views[1].slot;
            &&& r is Ok <==> f0 is Ok && f1 is Ok && !c01
            &&& r matches Ok(accounts) ==> {
                &&& accounts.data_a.view == views[0]
                &&& accounts.data_a.mutable == false
                &&& accounts.data_a == f0->Ok_0
                &&& accounts.data_b.view == views[1]
                &&& accounts.data_b.mutable == true
                &&& accounts.data_b == f1->Ok_0
                &&& accounts.holds() =~= Multiset::<Hold>::empty()
                    .add(Multiset::singleton(Hold { slot: views[0].slot as int, exclusive: false }))
                    .add(Multiset::singleton(Hold { slot: views[1].slot as int, exclusive: true }))
            }
            &&& (f0 matches Err(e) ==> r == Err::<TouchReadonlyAndMut, ProgramError>(e))
            &&& f0 is Ok ==> (f1 matches Err(e) ==> r
                == Err::<TouchReadonlyAndMut, ProgramError>(e))
            &&& f0 is Ok && f1 is Ok && (c01) ==> r == Err::<TouchReadonlyAndMut, ProgramError>(
                ProgramError::AccountBorrowFailed,
            )
        }),
{
    lemma_no_holds(m);
    if Account::<Data>::loaded(m, views[0], false) is Ok {
        law_typed_account_beside_another::<Data>(m, (views[0], false), (views[1], true));
    }
}

/// Each field of [`ReadTwo`] wraps the account at its own position. All load exactly where each
/// loads alone and no two conflict; otherwise the first that is refused gives the error.
pub proof fn law_read_two_takes(m: Memory, views: Seq<AccountView>)
    requires
        views.len() == 2,
        views[0].slot < m.len(),
        views[1].slot < m.len(),
    ensures
        ({
            let r = ReadTwo::loaded(m, views);
            let f0 = Account::<Data>::loaded(m, views[0], false);
            let f1 = Account::<Data>::loaded(m, views[1], false);
            let c01 = views[0].slot == views[1].slot && m[views[0].slot as int].borrow_state < 3;
            &&& r is Ok <==> f0 is Ok && f1 is Ok && !c01
            &&& r matches Ok(accounts) ==> {
                &&& accounts.data_a.view == views[0]
                &&& accounts.data_a.mutable == false
                &&& accounts.data_a == f0->Ok_0
                &&& accounts.data_b.view == views[1]
                &&& accounts.data_b.mutable == false
                &&& accounts.data_b == f1->Ok_0
                &&& accounts.holds() =~= Multiset::<Hold>::empty()
                    .add(Multiset::singleton(Hold { slot: views[0].slot as int, exclusive: false }))
                    .add(Multiset::singleton(Hold { slot: views[1].slot as int, exclusive: false }))
            }
            &&& (f0 matches Err(e) ==> r == Err::<ReadTwo, ProgramError>(e))
            &&& f0 is Ok ==> (f1 matches Err(e) ==> r == Err::<ReadTwo, ProgramError>(e))
            &&& f0 is Ok && f1 is Ok && (c01) ==> r == Err::<ReadTwo, ProgramError>(
                ProgramError::AccountBorrowFailed,
            )
        }),
{
    lemma_no_holds(m);
    if Account::<Data>::loaded(m, views[0], false) is Ok {
        law_typed_account_beside_another::<Data>(m, (views[0], false), (views[1], false));
    }
}

/// Each field of [`TouchBorshMutAndReadonly`] wraps the account at its own position. All load
/// exactly where each loads alone and no two conflict; otherwise the first that is refused
/// gives the error.
pub proof fn law_touch_borsh_mut_and_readonly_takes(m: Memory, views: Seq<AccountView>)
    requires
        views.len() == 2,
        views[0].slot < m.len(),
        views[1].slot < m.len(),
    ensures
        ({
            let r = TouchBorshMutAndReadonly::loaded(m, views);
            let f0 = BorshAccount::<BorshData>::loaded(m, views[0], true);
            let f1 = BorshAccount::<BorshData>::loaded(m, views[1], false);
            let c01 = views[0].slot == views[1].slot;
            &&& r is Ok <==> f0 is Ok && f1 is Ok && !c01
            &&& r matches Ok(accounts) ==> {
                &&& accounts.data_a.view == views[0]
                &&& accounts.data_a.mutable == true
                &&& accounts.data_a == f0->Ok_0
                &&& accounts.data_b.view == views[1]
                &&& accounts.data_b.mutable == false
                &&& accounts.data_b == f1->Ok_0
                &&& accounts.holds() =~= Multiset::<Hold>::empty()
                    .add(Multiset::singleton(Hold { slot: views[0].slot as int, exclusive: true }))
                    .add(Multiset::singleton(Hold { slot: views[1].slot as int, exclusive: false }))
            }
            &&& (f0 matches Err(e) ==> r == Err::<TouchBorshMutAndReadonly, ProgramError>(e))
            &&& f0 is Ok ==> (f1 matches Err(e) ==> r
                == Err::<TouchBorshMutAndReadonly, ProgramError>(e))
            &&& f0 is Ok && f1 is Ok && (c01) ==> r
                == Err::<TouchBorshMutAndReadonly, ProgramError>(
                ProgramError::AccountBorrowFailed,
            )
        }),
{
    lemma_no_holds(m);
    if BorshAccount::<BorshData>::loaded(m, views[0], true) is Ok {
        law_serialized_account_beside_another::<BorshData, BorshSerializer>(
            m,
            (views[0], true),
            (views[1], false),
        );
    }
}

/// Each field of [`TouchBoxedMutAndReadonly`] wraps the account at its own position. All load
/// exactly where each loads alone and no two conflict; otherwise the first that is refused
/// gives the error.
pub proof fn law_touch_boxed_mut_and_readonly_takes(m: Memory, views: Seq<AccountView>)
    requires
        views.len() == 2,
        views[0].slot < m.len(),
        views[1].slot < m.len(),
    ensures
        ({
            let r = TouchBoxedMutAndReadonly::loaded(m, views);
            let f0 = Box::<Account<Data>>::loaded(m, views[0], true);
            let f1 = Account::<Data>::loaded(m, views[1], false);
            let c01 = views[0].slot == views[1].slot;
            &&& r is Ok <==> f0 is Ok && f1 is Ok && !c01
            &&& r matches Ok(accounts) ==> {
                &&& accounts.data_a.view == views[0]
                &&& accounts.data_a.mutable == true
                &&& accounts.data_a == f0->Ok_0
                &&& accounts.data_b.view == views[1]
                &&& accounts.data_b.mutable == false
                &&& accounts.data_b == f1->Ok_0
                &&& accounts.holds() =~= Multiset::<Hold>::empty()
                    .add(Multiset::singleton(Hold { slot: views[0].slot as int, exclusive: true }))
                    .add(Multiset::singleton(Hold { slot: views[1].slot as int, exclusive: false }))
            }
            &&& (f0 matches Err(e) ==> r == Err::<TouchBoxedMutAndReadonly, ProgramError>(e))
            &&& f0 is Ok ==> (f1 matches Err(e) ==> r
                == Err::<TouchBoxedMutAndReadonly, ProgramError>(e))
            &&& f0 is Ok && f1 is Ok && (c01) ==> r
                == Err::<TouchBoxedMutAndReadonly, ProgramError>(
                ProgramError::AccountBorrowFailed,
            )
        }),
{
    lemma_no_holds(m);
    if Account::<Data>::loaded(m, views[0], true) is Ok {
        law_typed_account_beside_another::<Data>(m, (views[0], true), (views[1], false));
    }
}

/// Each field of [`InnerTwoMut`] wraps the account at its own position. All load exactly where each
/// loads alone and no two conflict; otherwise the first that is refused gives the error.
pub proof fn law_inner_two_mut_takes(m: Memory, views: Seq<AccountView>)
    requires
        views.len() == 2,
        views[0].slot < m.len(),
        views[1].slot < m.len(),
    ensures
        ({
            let r = InnerTwoMut::loaded(m, views);
            let f0 = Account::<Data>::loaded(m, views[0], true);
            let f1 = Account::<Data>::loaded(m, views[1], true);
            let c01 = views[0].slot == views[1].slot;
            &&& r is Ok <==> f0 is Ok && f1 is Ok && !c01
            &&& r matches Ok(accounts) ==> {
                &&& accounts.data_a.view == views[0]
                &&& accounts.data_a.mutable == true
                &&& accounts.data_a == f0->Ok_0
                &&& accounts.data_b.view == views[1]
                &&& accounts.data_b.mutable == true
                &&& accounts.data_b == f1->Ok_0
                &&& accounts.holds() =~= Multiset::<Hold>::empty()
                    .add(Multiset::singleton(Hold { slot: views[0].slot as int, exclusive: true }))
                    .add(Multiset::singleton(Hold { slot: views[1].slot as int, exclusive: true }))
            }
            &&& (f0 matches Err(e) ==> r == Err::<InnerTwoMut, ProgramError>(e))
            &&& f0 is Ok ==> (f1 matches Err(e) ==> r == Err::<InnerTwoMut, ProgramError>(e))
            &&& f0 is Ok && f1 is Ok && (c01) ==> r == Err::<InnerTwoMut, ProgramError>(
                ProgramError::AccountBorrowFailed,
            )
        }),
{
    lemma_no_holds(m);
    if Account::<Data>::loaded(m, views[0], true) is Ok {
        law_typed_account_beside_another::<Data>(m, (views[0], true), (views[1], true));
    }
}

/// Each field of [`InnerMutReadonly`] wraps the account at its own position. All load exactly
/// where each loads alone and no two conflict; otherwise the first that is refused gives the
/// error.
pub proof fn law_inner_mut_readonly_takes(m: Memory, views: Seq<AccountView>)
    requires
        views.len() == 2,
        views[0].slot < m.len(),
        views[1].slot < m.len(),
    ensures
        ({
            let r = InnerMutReadonly::loaded(m, views);
            let f0 = Account::<Data>::loaded(m, views[0], true);
            let f1 = Account::<Data>::loaded(m, views[1], false);
            let c01 = views[0].slot == views[1].slot;
            &&& r is Ok <==> f0 is Ok && f1 is Ok && !c01
            &&& r matches Ok(accounts) ==> {
                &&& accounts.data_a.view == views[0]
                &&& accounts.data_a.mutable == true
                &&& accounts.data_a == f0->Ok_0
                &&& accounts.data_b.view == views[1]
                &&& accounts.data_b.mutable == false
                &&& accounts.data_b == f1->Ok_0
                &&& accounts.holds() =~= Multiset::<Hold>::empty()
                    .add(Multiset::singleton(Hold { slot: views[0].slot as int, exclusive: true }))
                    .add(Multiset::singleton(Hold { slot: views[1].slot as int, exclusive: false }))
            }
            &&& (f0 matches Err(e) ==> r == Err::<InnerMutReadonly, ProgramError>(e))
            &&& f0 is Ok ==> (f1 matches Err(e) ==> r == Err::<InnerMutReadonly, ProgramError>(e))
            &&& f0 is Ok && f1 is Ok && (c01) ==> r == Err::<InnerMutReadonly, ProgramError>(
                ProgramError::AccountBorrowFailed,
            )
        }),
{
    lemma_no_holds(m);
    if Account::<Data>::loaded(m, views[0], true) is Ok {
        law_typed_account_beside_another::<Data>(m, (views[0], true), (views[1], false));
    }
}

/// Each field of [`TouchNestedTwoMut`] wraps the account at its own position. All load exactly
/// where each loads alone and no two conflict; otherwise the first that is refused gives the
/// error.
pub proof fn law_touch_nested_two_mut_takes(m: Memory, views: Seq<AccountView>)
    requires
        views.len() == 2,
        views[0].slot < m.len(),
        views[1].slot < m.len(),
    ensures
        ({
            let r = TouchNestedTwoMut::loaded(m, views);
            let f0 = Account::<Data>::loaded(m, views[0], true);
            let f1 = Account::<Data>::loaded(m, views[1], true);
            let c01 = views[0].slot == views[1].slot;
            &&& r is Ok <==> f0 is Ok && f1 is Ok && !c01
            &&& r matches Ok(accounts) ==> {
                &&& accounts.pair.inner.data_a.view == views[0]
                &&& accounts.pair.inner.data_a.mutable == true
                &&& accounts.pair.inner.data_a == f0->Ok_0
                &&& accounts.pair.inner.data_b.view == views[1]
                &&& accounts.pair.inner.data_b.mutable == true
                &&& accounts.pair.inner.data_b == f1->Ok_0
                &&& accounts.holds() =~= Multiset::<Hold>::empty()
                    .add(Multiset::singleton(Hold { slot: views[0].slot as int, exclusive: true }))
                    .add(Multiset::singleton(Hold { slot: views[1].slot as int, exclusive: true }))
            }
            &&& (f0 matches Err(e) ==> r == Err::<TouchNestedTwoMut, ProgramError>(e))
            &&& f0 is Ok ==> (f1 matches Err(e) ==> r == Err::<TouchNestedTwoMut, ProgramError>(e))
            &&& f0 is Ok && f1 is Ok && (c01) ==> r == Err::<TouchNestedTwoMut, ProgramError>(
                ProgramError::AccountBorrowFailed,
            )
        }),
{
    lemma_no_holds(m);
    if Account::<Data>::loaded(m, views[0], true) is Ok {
        law_typed_account_beside_another::<Data>(m, (views[0], true), (views[1], true));
    }
}

/// Each field of [`TouchNestedMutReadonly`] wraps the account at its own position. All load
/// exactly where each loads alone and no two conflict; otherwise the first that is refused
/// gives the error.
pub proof fn law_touch_nested_mut_readonly_takes(m: Memory, views: Seq<AccountView>)
    requires
        views.len() == 2,
        views[0].slot < m.len(),
        views[1].slot < m.len(),
    ensures
        ({
            let r = TouchNestedMutReadonly::loaded(m, views);
            let f0 = Account::<Data>::loaded(m, views[0], true);
            let f1 = Account::<Data>::loaded(m, views[1], false);
            let c01 = views[0].slot == views[1].slot;
            &&& r is Ok <==> f0 is Ok && f1 is Ok && !c01
            &&& r matches Ok(accounts) ==> {
                &&& accounts.pair.inner.data_a.view == views[0]
                &&& accounts.pair.inner.data_a.mutable == true
                &&& accounts.pair.inner.data_a == f0->Ok_0
                &&& accounts.pair.inner.data_b.view == views[1]
                &&& accounts.pair.inner.data_b.mutable == false
                &&& accounts.pair.inner.data_b == f1->Ok_0
                &&& accounts.holds() =~= Multiset::<Hold>::empty()
                    .add(Multiset::singleton(Hold { slot: views[0].slot as int, exclusive: true }))
                    .add(Multiset::singleton(Hold { slot: views[1].slot as int, exclusive: false }))
            }
            &&& (f0 matches Err(e) ==> r == Err::<TouchNestedMutReadonly, ProgramError>(e))
            &&& f0 is Ok ==> (f1 matches Err(e) ==> r
                == Err::<TouchNestedMutReadonly, ProgramError>(e))
            &&& f0 is Ok && f1 is Ok && (c01) ==> r == Err::<TouchNestedMutReadonly, ProgramError>(
                ProgramError::AccountBorrowFailed,
            )
        }),
{
    lemma_no_holds(m);
    if Account::<Data>::loaded(m, views[0], true) is Ok {
        law_typed_account_beside_another::<Data>(m, (views[0], true), (views[1], false));
    }
}

/// Each field of [`TouchOuterMutPlusNested`] wraps the account at its own position. All load
/// exactly where each loads alone and no two conflict; otherwise the first that is refused
/// gives the error.
pub proof fn law_touch_outer_mut_plus_nested_takes(m: Memory, views: Seq<AccountView>)
    requires
        views.len() == 3,
        views[0].slot < m.len(),
        views[1].slot < m.len(),
        views[2].slot < m.len(),
    ensures
        ({
            let r = TouchOuterMutPlusNested::loaded(m, views);
            let f0 = Account::<Data>::loaded(m, views[0], true);
            let f1 = Account::<Data>::loaded(m, views[1], true);
            let f2 = Account::<Data>::loaded(m, views[2], true);
            let c01 = views[0].slot == views[1].slot;
            let c02 = views[0].slot == views[2].slot;
            let c12 = views[1].slot == views[2].slot;
            &&& r is Ok <==> f0 is Ok && f1 is Ok && f2 is Ok && !c01 && !c02 && !c12
            &&& r matches Ok(accounts) ==> {
                &&& accounts.outer.view == views[0]
                &&& accounts.outer.mutable == true
                &&& accounts.outer == f0->Ok_0
                &&& accounts.pair.inner.data_a.view == views[1]
                &&& accounts.pair.inner.data_a.mutable == true
                &&& accounts.pair.inner.data_a == f1->Ok_0
                &&& accounts.pair.inner.data_b.view == views[2]
                &&& accounts.pair.inner.data_b.mutable == true
                &&& accounts.pair.inner.data_b == f2->Ok_0
                &&& accounts.holds() =~= Multiset::<Hold>::empty()
                    .add(Multiset::singleton(Hold { slot: views[0].slot as int, exclusive: true }))
                    .add(Multiset::singleton(Hold { slot: views[1].slot as int, exclusive: true }))
                    .add(Multiset::singleton(Hold { slot: views[2].slot as int, exclusive: true }))
            }
            &&& (f0 matches Err(e) ==> r == Err::<TouchOuterMutPlusNested, ProgramError>(e))
            &&& f0 is Ok ==> (f1 matches Err(e) ==> r
                == Err::<TouchOuterMutPlusNested, ProgramError>(e))
            &&& f0 is Ok && f1 is Ok && (c01) ==> r == Err::<TouchOuterMutPlusNested, ProgramError>(
                ProgramError::AccountBorrowFailed,
            )
            &&& f0 is Ok && f1 is Ok && !c01 ==> (f2 matches Err(e) ==> r
                == Err::<TouchOuterMutPlusNested, ProgramError>(e))
            &&& f0 is Ok && f1 is Ok && !c01 && f2 is Ok && (c02 || c12) ==> r
                == Err::<TouchOuterMutPlusNested, ProgramError>(
                ProgramError::AccountBorrowFailed,
            )
        }),
{
    lemma_no_holds(m);
    let inner = views.subrange(1, 3);
    assert(inner[0] == views[1] && inner[1] == views[2]);
    if Account::<Data>::loaded(m, views[0], true) is Ok {
        let h = data_hold(views[0], true);
        let n = taken(m, h);
        law_typed_account_beside_another::<Data>(m, (views[0], true), (views[1], true));
        law_typed_account_beside_another::<Data>(m, (views[0], true), (views[2], true));
        if Account::<Data>::loaded(n, views[1], true) is Ok {
            law_typed_account_beside_another::<Data>(n, (views[1], true), (views[2], true));
            Account::<Data>::lemma_loaded(m, views[0], true);
            Account::<Data>::lemma_loaded(n, views[1], true);
            lemma_take_both(m, h, data_hold(views[1], true));
        }
    }
}

/// Each field of [`SignerRoles`] wraps the account at its own position. All load exactly where each
/// loads alone and no two conflict; otherwise the first that is refused gives the error.
pub proof fn law_signer_roles_takes(m: Memory, views: Seq<AccountView>)
    requires
        views.len() == 2,
        views[0].slot < m.len(),
        views[1].slot < m.len(),
    ensures
        ({
            let r = SignerRoles::loaded(m, views);
            let f0 = Signer::loaded(m, views[0], true);
            let f1 = Signer::loaded(m, views[1], false);
            &&& r is Ok <==> f0 is Ok && f1 is Ok
            &&& r matches Ok(accounts) ==> {
                &&& accounts.payer.view == views[0]
                &&& accounts.payer == f0->Ok_0
                &&& accounts.authority.view == views[1]
                &&& accounts.authority == f1->Ok_0
                &&& accounts.holds() =~= Multiset::<Hold>::empty()
            }
            &&& (f0 matches Err(e) ==> r == Err::<SignerRoles, ProgramError>(e))
            &&& f0 is Ok ==> (f1 matches Err(e) ==> r == Err::<SignerRoles, ProgramError>(e))
        }),
{
    lemma_no_holds(m);
    assert(Multiset::<Hold>::empty().add(Multiset::empty()) =~= Multiset::empty());
}

/// Each field of [`TransferToRecipient`] wraps the account at its own position. All load
/// exactly where each loads alone and no two conflict; otherwise the first that is refused
/// gives the error.
pub proof fn law_transfer_to_recipient_takes(m: Memory, views: Seq<AccountView>)
    requires
        views.len() == 3,
        views[0].slot < m.len(),
        views[1].slot < m.len(),
        views[2].slot < m.len(),
    ensures
        ({
            let r = TransferToRecipient::loaded(m, views);
            let f0 = Signer::loaded(m, views[0], true);
            let f1 = SystemAccount::loaded(m, views[1], true);
            let f2 = Program::<System>::loaded(m, views[2], false);
            &&& r is Ok <==> f0 is Ok && f1 is Ok && f2 is Ok
            &&& r matches Ok(accounts) ==> {
                &&& accounts.payer.view == views[0]
                &&& accounts.payer == f0->Ok_0
                &&& accounts.recipient.view == views[1]
                &&& accounts.recipient == f1->Ok_0
                &&& accounts.system_program.view == views[2]
                &&& accounts.system_program == f2->Ok_0
                &&& accounts.holds() =~= Multiset::<Hold>::empty()
            }
            &&& (f0 matches Err(e) ==> r == Err::<TransferToRecipient, ProgramError>(e))
            &&& f0 is Ok ==> (f1 matches Err(e) ==> r
                == Err::<TransferToRecipient, ProgramError>(e))
            &&& f0 is Ok && f1 is Ok ==> (f2 matches Err(e) ==> r
                == Err::<TransferToRecipient, ProgramError>(e))
        }),
{
    lemma_no_holds(m);
    assert(Multiset::<Hold>::empty().add(Multiset::empty()) =~= Multiset::empty());
}

/// Each field of [`TouchDataAndRaw`] wraps the account at its own position. All load exactly
/// where each loads alone and no two conflict; otherwise the first that is refused gives the
/// error.
pub proof fn law_touch_data_and_raw_takes(m: Memory, views: Seq<AccountView>)
    requires
        views.len() == 2,
        views[0].slot < m.len(),
        views[1].slot < m.len(),
    ensures
        ({
            let r = TouchDataAndRaw::loaded(m, views);
            let f0 = Account::<Data>::loaded(m, views[0], true);
            let f1 = UncheckedAccount::loaded(m, views[1], false);
            &&& r is Ok <==> f0 is Ok && f1 is Ok
            &&& r matches Ok(accounts) ==> {
                &&& accounts.data.view == views[0]
                &&& accounts.data.mutable == true
                &&& accounts.data == f0->Ok_0
                &&& accounts.raw.view == views[1]
                &&& accounts.raw == f1->Ok_0
                &&& accounts.holds() =~= Multiset::<Hold>::empty()
                    .add(Multiset::singleton(Hold { slot: views[0].slot as int, exclusive: true }))
            }
            &&& (f0 matches Err(e) ==> r == Err::<TouchDataAndRaw, ProgramError>(e))
            &&& f0 is Ok ==> (f1 matches Err(e) ==> r == Err::<TouchDataAndRaw, ProgramError>(e))
        }),
{
    lemma_no_holds(m);
    let h = data_hold(views[0], true);
    let n = taken(m, h);
    assert(Multiset::<Hold>::empty().add(h) =~= h);
    assert(h.add(Multiset::<Hold>::empty()) =~= h);
}

/// Each field of [`TransferToRawAlias`] wraps the account at its own position. All load exactly
/// where each loads alone and no two conflict; otherwise the first that is refused gives the
/// error.
pub proof fn law_transfer_to_raw_alias_takes(m: Memory, views: Seq<AccountView>)
    requires
        views.len() == 4,
        views[0].slot < m.len(),
        views[1].slot < m.len(),
        views[2].slot < m.len(),
        views[3].slot < m.len(),
    ensures
        ({
            let r = TransferToRawAlias::loaded(m, views);
            let f0 = Signer::loaded(m, views[0], true);
            let f1 = Account::<Data>::loaded(m, views[1], true);
            let f2 = UncheckedAccount::loaded(m, views[2], true);
            let f3 = Program::<System>::loaded(m, views[3], false);
            &&& r is Ok <==> f0 is Ok && f1 is Ok && f2 is Ok && f3 is Ok
            &&& r matches Ok(accounts) ==> {
                &&& accounts.payer.view == views[0]
                &&& accounts.payer == f0->Ok_0
                &&& accounts.data.view == views[1]
                &&& accounts.data.mutable == true
                &&& accounts.data == f1->Ok_0
                &&& accounts.raw.view == views[2]
                &&& accounts.raw == f2->Ok_0
                &&& accounts.system_program.view == views[3]
                &&& accounts.system_program == f3->Ok_0
                &&& accounts.holds() =~= Multiset::<Hold>::empty()
                    .add(Multiset::singleton(Hold { slot: views[1].slot as int, exclusive: true }))
            }
            &&& (f0 matches Err(e) ==> r == Err::<TransferToRawAlias, ProgramError>(e))
            &&& f0 is Ok ==> (f1 matches Err(e) ==> r == Err::<TransferToRawAlias, ProgramError>(e))
            &&& f0 is Ok && f1 is Ok ==> (f2 matches Err(e) ==> r
                == Err::<TransferToRawAlias, ProgramError>(e))
            &&& f0 is Ok && f1 is Ok && f2 is Ok ==> (f3 matches Err(e) ==> r
                == Err::<TransferToRawAlias, ProgramError>(e))
        }),
{
    lemma_no_holds(m);
    let h = data_hold(views[1], true);
    let n = taken(m, h);
    assert(Multiset::<Hold>::empty().add(h) =~= h);
    assert(h.add(Multiset::<Hold>::empty()) =~= h);
}

/// Where the first account of [`TouchOptionalMutAndMut`] is the program itself it is absent,
/// and the second loads as it does alone; otherwise both load as two accounts to write do.
/// Each field wraps the account at its own position.
pub proof fn law_touch_optional_mut_and_mut_takes(
    program_id: Seq<u8>,
    m: Memory,
    views: Seq<AccountView>,
)
    requires
        views.len() == 2,
        views[0].slot < m.len(),
        views[1].slot < m.len(),
    ensures
        ({
            let r = TouchOptionalMutAndMut::loaded(program_id, m, views);
            let absent = m[views[0].slot as int].address == program_id;
            let f0 = Account::<Data>::loaded(m, views[0], true);
            let f1 = Account::<Data>::loaded(m, views[1], true);
            let c01 = views[0].slot == views[1].slot;
            &&& absent ==> {
                &&& r is Ok <==> f1 is Ok
                &&& r matches Ok(accounts) ==> accounts.data_a is None && accounts.data_b
                    == f1->Ok_0
                &&& f1 matches Err(e) ==> r == Err::<TouchOptionalMutAndMut, ProgramError>(e)
            }
            &&& !absent ==> {
                &&& r is Ok <==> f0 is Ok && f1 is Ok && !c01
                &&& r matches Ok(accounts) ==> {
                    &&& accounts.data_a == Some(f0->Ok_0)
                    &&& f0->Ok_0.view == views[0]
                    &&& f0->Ok_0.mutable
                }
                &&& f0 matches Err(e) ==> r == Err::<TouchOptionalMutAndMut, ProgramError>(e)
                &&& f0 is Ok ==> (f1 matches Err(e) ==> r == Err::<
                    TouchOptionalMutAndMut,
                    ProgramError,
                >(e))
                &&& f0 is Ok && f1 is Ok && c01 ==> r == Err::<
                    TouchOptionalMutAndMut,
                    ProgramError,
                >(ProgramError::AccountBorrowFailed)
            }
            &&& r matches Ok(accounts) ==> {
                &&& accounts.data_b == f1->Ok_0
                &&& accounts.data_b.view == views[1]
                &&& accounts.data_b.mutable
            }
        }),
{
    lemma_no_holds(m);
    if Account::<Data>::loaded(m, views[0], true) is Ok {
        law_typed_account_beside_another::<Data>(m, (views[0], true), (views[1], true));
    }
}

/// The roles of [`SignerRoles`] are given to an account that signed and is writable, and to
/// one that signed; any other two accounts are refused for the missing signature.
pub proof fn law_who_has_the_roles(m: Memory, views: Seq<AccountView>)
    requires
        views.len() == 2,
        views[0].slot < m.len(),
        views[1].slot < m.len(),
    ensures
        ({
            let r = SignerRoles::loaded(m, views);
            let payer = m[views[0].slot as int];
            let authority = m[views[1].slot as int];
            &&& r is Ok <==> payer.is_signer && payer.is_writable && authority.is_signer
            &&& r matches Ok(accounts) ==> accounts.payer.view == views[0]
                && accounts.authority.view == views[1]
            &&& r matches Err(e) ==> e == ProgramError::MissingRequiredSignature
        }),
{
    law_signer_roles_takes(m, views);
    law_who_is_a_signer(m, views[0], true);
    law_who_is_a_signer(m, views[1], false);
}

/// How loading is reported: the accounts with exactly their borrows taken, or the error
/// with the memory as it was.
pub proof fn law_how_loading_is_reported<T: Held>(
    m: Memory,
    expected: Result<T, ProgramError>,
    r: Result<(T, (), ()), ProgramError>,
    n: Memory,
)
    ensures
        loaded_as(m, expected, r, n) <==> match expected {
            Ok(accounts) => r == Ok::<(T, (), ()), ProgramError>((accounts, (), ())) && n == taken(
                m,
                accounts.holds(),
            ),
            Err(e) => r == Err::<(T, (), ()), ProgramError>(e) && n == m,
        },
{
}

} // verus!
