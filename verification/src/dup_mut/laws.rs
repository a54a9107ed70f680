//! Which accounts can be loaded together.

use crate::accounts::compose::pair_loaded;
use crate::accounts::program::{Id, Program, System};
use crate::accounts::serialized::BorshAccount;
use crate::accounts::signer::Signer;
use crate::accounts::slab::{data_hold, Account};
use crate::accounts::system_account::SystemAccount;
use crate::accounts::unchecked_account::UncheckedAccount;
use crate::accounts::Wrapper;
use crate::dup_mut::accounts::{
    ReadTwo, SignerRoles, TouchBorshMutAndReadonly, TouchBoxedMutAndReadonly, TouchDataAndRaw,
    TouchMutAndReadonly, TouchNestedMutReadonly, TouchNestedTwoMut, TouchOptionalMutAndMut,
    TouchOuterMutPlusNested, TouchReadonlyAndMut, TouchThreeMut, TouchTwoMut, TransferToRawAlias,
    TransferToRecipient,
};
use crate::dup_mut::state::{BorshData, Data};
use crate::memory::{
    can_take, covers, exclusive_hold, exclusive_on, held, lemma_exclusive_hold, lemma_no_holds,
    lemma_shared_hold, lemma_take_both, shared_hold, shared_on, taken, AccountView, Held, Hold,
    Memory,
};
use crate::system_program::borrowed;
use solana_program_error::ProgramError;
use vstd::multiset::Multiset;
use vstd::prelude::*;

verus! {

/// Whether two borrows of account data can be held at once: they are of different
/// accounts, or both are shared and there is room for a second reader.
pub open spec fn compatible(
    m: Memory,
    first: (AccountView, bool),
    second: (AccountView, bool),
) -> bool {
    first.0.slot != second.0.slot || (!first.1 && !second.1 && m[first.0.slot as int].borrow_state
        > 2)
}

/// A borrow of account data, after another one was taken.
proof fn lemma_second_hold(m: Memory, first: (AccountView, bool), second: (AccountView, bool))
    requires
        first.0.slot < m.len(),
        second.0.slot < m.len(),
        can_take(m, data_hold(first.0, first.1)),
    ensures
        can_take(taken(m, data_hold(first.0, first.1)), data_hold(second.0, second.1)) <==> {
            &&& can_take(m, data_hold(second.0, second.1))
            &&& compatible(m, first, second)
        },
{
    lemma_shared_hold(m, first.0);
    lemma_exclusive_hold(m, first.0);
    lemma_shared_hold(m, second.0);
    lemma_exclusive_hold(m, second.0);
    let n = taken(m, data_hold(first.0, first.1));
    lemma_shared_hold(n, second.0);
    lemma_exclusive_hold(n, second.0);
}

/// Two accounts that are kept in place load together exactly where each loads alone and
/// their borrows are compatible. Where only the latter fails, the error tells so.
pub proof fn law_accounts_load_together(
    m: Memory,
    first: (AccountView, bool),
    second: (AccountView, bool),
)
    requires
        first.0.slot < m.len(),
        second.0.slot < m.len(),
    ensures
        ({
            let a = Account::<Data>::loaded(m, first.0, first.1);
            let b = Account::<Data>::loaded(m, second.0, second.1);
            let both = pair_loaded::<Account<Data>, Account<Data>>(m, first, second);
            &&& both is Ok <==> a is Ok && b is Ok && compatible(m, first, second)
            &&& a is Ok && b is Ok && !compatible(m, first, second) ==> both == Err::<
                (Account<Data>, Account<Data>),
                ProgramError,
            >(ProgramError::AccountBorrowFailed)
        }),
{
    if can_take(m, data_hold(first.0, first.1)) {
        lemma_second_hold(m, first, second);
    }
}

/// Two accounts in the Borsh format load together exactly where each loads alone and
/// their borrows are compatible. Where only the latter fails, the error tells so.
pub proof fn law_borsh_accounts_load_together(
    m: Memory,
    first: (AccountView, bool),
    second: (AccountView, bool),
)
    requires
        first.0.slot < m.len(),
        second.0.slot < m.len(),
    ensures
        ({
            let a = BorshAccount::<BorshData>::loaded(m, first.0, first.1);
            let b = BorshAccount::<BorshData>::loaded(m, second.0, second.1);
            let both = pair_loaded::<BorshAccount<BorshData>, BorshAccount<BorshData>>(
                m,
                first,
                second,
            );
            &&& both is Ok <==> a is Ok && b is Ok && compatible(m, first, second)
            &&& a is Ok && b is Ok && !compatible(m, first, second) ==> both == Err::<
                (BorshAccount<BorshData>, BorshAccount<BorshData>),
                ProgramError,
            >(ProgramError::AccountBorrowFailed)
        }),
{
    if can_take(m, data_hold(first.0, first.1)) {
        lemma_second_hold(m, first, second);
    }
}

/// A boxed account and another one load together exactly as they do without the box.
pub proof fn law_box_changes_nothing(
    m: Memory,
    first: (AccountView, bool),
    second: (AccountView, bool),
)
    ensures
        pair_loaded::<Box<Account<Data>>, Account<Data>>(m, first, second) == match pair_loaded::<
            Account<Data>,
            Account<Data>,
        >(m, first, second) {
            Ok((a, b)) => Ok::<(Box<Account<Data>>, Account<Data>), ProgramError>((Box::new(a), b)),
            Err(e) => Err(e),
        },
{
}

/// An account to write and any alias of it are refused, in either order, plain, in the
/// Borsh format, boxed, optional or nested. Where the account can be loaded alone, the
/// error is that its data is borrowed.
pub proof fn law_alias_of_written_account_is_refused(
    program_id: Seq<u8>,
    m: Memory,
    view: AccountView,
)
    requires
        view.slot < m.len(),
    ensures
        ({
            let views = seq![view, view];
            &&& TouchTwoMut::loaded(m, views) is Err
            &&& TouchMutAndReadonly::loaded(m, views) is Err
            &&& TouchReadonlyAndMut::loaded(m, views) is Err
            &&& TouchBorshMutAndReadonly::loaded(m, views) is Err
            &&& TouchBoxedMutAndReadonly::loaded(m, views) is Err
            &&& TouchNestedTwoMut::loaded(m, views) is Err
            &&& TouchNestedMutReadonly::loaded(m, views) is Err
            &&& m[view.slot as int].address != program_id ==> TouchOptionalMutAndMut::loaded(
                program_id,
                m,
                views,
            ) is Err
        }),
        Account::<Data>::loaded(m, view, true) is Ok ==> {
            let views = seq![view, view];
            let e = ProgramError::AccountBorrowFailed;
            &&& TouchTwoMut::loaded(m, views) == Err::<TouchTwoMut, _>(e)
            &&& TouchMutAndReadonly::loaded(m, views) == Err::<TouchMutAndReadonly, _>(e)
            &&& TouchReadonlyAndMut::loaded(m, views) == Err::<TouchReadonlyAndMut, _>(e)
            &&& TouchBoxedMutAndReadonly::loaded(m, views) == Err::<TouchBoxedMutAndReadonly, _>(e)
            &&& TouchNestedTwoMut::loaded(m, views) == Err::<TouchNestedTwoMut, _>(e)
            &&& TouchNestedMutReadonly::loaded(m, views) == Err::<TouchNestedMutReadonly, _>(e)
            &&& m[view.slot as int].address != program_id ==> TouchOptionalMutAndMut::loaded(
                program_id,
                m,
                views,
            ) == Err::<TouchOptionalMutAndMut, _>(e)
        },
        BorshAccount::<BorshData>::loaded(m, view, true) is Ok ==> TouchBorshMutAndReadonly::loaded(
            m,
            seq![view, view],
        ) == Err::<TouchBorshMutAndReadonly, _>(ProgramError::AccountBorrowFailed),
{
    law_accounts_load_together(m, (view, true), (view, true));
    law_accounts_load_together(m, (view, true), (view, false));
    law_accounts_load_together(m, (view, false), (view, true));
    law_borsh_accounts_load_together(m, (view, true), (view, false));
    law_box_changes_nothing(m, (view, true), (view, false));
    lemma_shared_hold(m, view);
    lemma_exclusive_hold(m, view);
}

/// A borrow of account data, after two others were taken.
proof fn lemma_third_hold(
    m: Memory,
    first: (AccountView, bool),
    second: (AccountView, bool),
    third: (AccountView, bool),
)
    requires
        first.0.slot < m.len(),
        second.0.slot < m.len(),
        third.0.slot < m.len(),
        first.1 && second.1 && third.1,
        can_take(m, data_hold(first.0, true)),
        can_take(taken(m, data_hold(first.0, true)), data_hold(second.0, true)),
    ensures
        ({
            let h = data_hold(first.0, true).add(data_hold(second.0, true));
            can_take(taken(m, h), data_hold(third.0, true)) <==> can_take(
                m,
                data_hold(third.0, true),
            ) && third.0.slot != first.0.slot && third.0.slot != second.0.slot
        }),
{
    let ha = data_hold(first.0, true);
    let hb = data_hold(second.0, true);
    lemma_take_both(m, ha, hb);
    let n = taken(m, ha);
    lemma_exclusive_hold(m, first.0);
    lemma_exclusive_hold(m, third.0);
    lemma_exclusive_hold(n, second.0);
    let k = taken(n, hb);
    lemma_exclusive_hold(k, third.0);
}

/// Three accounts to write load together exactly where each loads alone and no two of
/// them are one account, side by side as well as with two of them nested. Where only
/// the latter fails, the error is that the data is borrowed.
pub proof fn law_three_written_accounts_load_together(m: Memory, views: Seq<AccountView>)
    requires
        views.len() == 3,
        views[0].slot < m.len(),
        views[1].slot < m.len(),
        views[2].slot < m.len(),
    ensures
        ({
            let alone = forall|k: int|
                0 <= k < 3 ==> (#[trigger] Account::<Data>::loaded(m, views[k], true)) is Ok;
            let distinct = views[0].slot != views[1].slot && views[0].slot != views[2].slot
                && views[1].slot != views[2].slot;
            let e = ProgramError::AccountBorrowFailed;
            &&& TouchThreeMut::loaded(m, views) is Ok <==> alone && distinct
            &&& TouchOuterMutPlusNested::loaded(m, views) is Ok <==> alone && distinct
            &&& alone && !distinct ==> TouchThreeMut::loaded(m, views) == Err::<TouchThreeMut, _>(e)
            &&& alone && !distinct ==> TouchOuterMutPlusNested::loaded(m, views) == Err::<
                TouchOuterMutPlusNested,
                _,
            >(e)
        }),
{
    let a = (views[0], true);
    let b = (views[1], true);
    let c = (views[2], true);
    let alone = forall|k: int|
        0 <= k < 3 ==> (#[trigger] Account::<Data>::loaded(m, views[k], true)) is Ok;
    let inner = views.subrange(1, 3);
    assert(inner[0] == views[1] && inner[1] == views[2]);
    law_accounts_load_together(m, a, b);
    let la = Account::<Data>::loaded(m, a.0, true);
    let lb = Account::<Data>::loaded(m, b.0, true);
    let lc = Account::<Data>::loaded(m, c.0, true);
    assert(alone <==> la is Ok && lb is Ok && lc is Ok) by {
        if la is Ok && lb is Ok && lc is Ok {
            assert forall|k: int| 0 <= k < 3 implies (#[trigger] Account::<Data>::loaded(
                m,
                views[k],
                true,
            )) is Ok by {
                assert(k == 0 || k == 1 || k == 2);
            }
        } else if alone {
            assert(Account::<Data>::loaded(m, views[0], true) is Ok);
            assert(Account::<Data>::loaded(m, views[1], true) is Ok);
            assert(Account::<Data>::loaded(m, views[2], true) is Ok);
        }
    }
    if can_take(m, data_hold(a.0, true)) {
        lemma_second_hold(m, a, b);
        let n = taken(m, data_hold(a.0, true));
        if can_take(n, data_hold(b.0, true)) {
            lemma_third_hold(m, a, b, c);
            lemma_take_both(m, data_hold(a.0, true), data_hold(b.0, true));
        }
    }
}

/// One account may be read twice, as long as there is room for two readers.
pub proof fn law_two_readers_may_share_an_account(m: Memory, view: AccountView)
    requires
        view.slot < m.len(),
    ensures
        ReadTwo::loaded(m, seq![view, view]) is Ok <==> {
            &&& Account::<Data>::loaded(m, view, false) is Ok
            &&& m[view.slot as int].borrow_state > 2
        },
{
    law_accounts_load_together(m, (view, false), (view, false));
}

/// An absent account holds no borrow: the other one loads as it does alone.
pub proof fn law_absent_account_conflicts_with_nothing(
    program_id: Seq<u8>,
    m: Memory,
    views: Seq<AccountView>,
)
    requires
        views.len() == 2,
        views[0].slot < m.len(),
        m[views[0].slot as int].address == program_id,
    ensures
        TouchOptionalMutAndMut::loaded(program_id, m, views) == match Account::<Data>::loaded(
            m,
            views[1],
            true,
        ) {
            Ok(data_b) => Ok::<TouchOptionalMutAndMut, ProgramError>(
                TouchOptionalMutAndMut { data_a: None, data_b },
            ),
            Err(e) => Err(e),
        },
{
    lemma_no_holds(m);
}

/// Wrappers that expose no data hold no borrow: loading them leaves the memory as it
/// was, so whatever could be loaded before can be loaded after, aliases included.
pub proof fn law_wrappers_without_data_hold_nothing<T: Id>(
    m: Memory,
    view: AccountView,
    mutable: bool,
)
    ensures
        Signer::loaded(m, view, mutable) matches Ok(a) ==> taken(m, a.holds()) == m,
        SystemAccount::loaded(m, view, mutable) matches Ok(a) ==> taken(m, a.holds()) == m,
        UncheckedAccount::loaded(m, view, mutable) matches Ok(a) ==> taken(m, a.holds()) == m,
        Program::<T>::loaded(m, view, mutable) matches Ok(a) ==> taken(m, a.holds()) == m,
{
    lemma_no_holds(m);
}

/// One wallet may have both roles, and may be both sides of a transfer.
pub proof fn law_one_wallet_may_have_both_roles(
    m: Memory,
    wallet: AccountView,
    system_program: AccountView,
)
    requires
        wallet.slot < m.len(),
        m[wallet.slot as int].is_signer,
        m[wallet.slot as int].is_writable,
    ensures
        SignerRoles::loaded(m, seq![wallet, wallet]) is Ok,
        TransferToRecipient::loaded(m, seq![wallet, wallet, system_program]) is Ok
            <==> SystemAccount::loaded(m, wallet, true) is Ok && Program::<System>::loaded(
            m,
            system_program,
            false,
        ) is Ok,
{
    lemma_no_holds(m);
    assert(Multiset::<Hold>::empty().add(Multiset::empty()) =~= Multiset::empty());
}

/// An alias that exposes no data loads beside an account to write, exactly where that
/// account loads alone.
pub proof fn law_raw_alias_loads(m: Memory, view: AccountView)
    requires
        view.slot < m.len(),
    ensures
        TouchDataAndRaw::loaded(m, seq![view, view]) is Ok <==> Account::<Data>::loaded(
            m,
            view,
            true,
        ) is Ok,
{
}

/// While an account is held for writing, its data cannot be borrowed through any alias,
/// nor can an alias be handed to another program.
pub proof fn law_held_account_cannot_be_borrowed_through_alias(
    m: Memory,
    data: AccountView,
    others: Multiset<Hold>,
    alias: AccountView,
)
    requires
        data.slot < m.len(),
        held(m, exclusive_hold(data).add(others)),
        alias.slot == data.slot,
    ensures
        !can_take(m, shared_hold(alias)),
        !can_take(m, exclusive_hold(alias)),
        borrowed(m, alias),
{
    let h = exclusive_hold(data).add(others);
    let at = data.slot as int;
    assert(covers(m[at].borrow_state, exclusive_on(h, at), shared_on(h, at)));
    lemma_shared_hold(m, alias);
    lemma_exclusive_hold(m, alias);
}

/// The accounts of the raw instructions hold their data account for writing, so an alias
/// of it can neither be borrowed nor handed to another program.
pub proof fn law_raw_alias_cannot_be_used(
    m: Memory,
    touch: TouchDataAndRaw,
    transfer: TransferToRawAlias,
)
    ensures
        touch.live(m) && held(m, touch.holds()) && touch.raw.view == touch.data.view ==> !can_take(
            m,
            shared_hold(touch.raw.view),
        ),
        transfer.live(m) && held(m, transfer.holds()) && transfer.raw.view == transfer.data.view
            ==> borrowed(m, transfer.raw.view),
{
    if touch.live(m) && held(m, touch.holds()) && touch.raw.view == touch.data.view {
        law_held_account_cannot_be_borrowed_through_alias(
            m,
            touch.data.view,
            touch.raw.holds(),
            touch.raw.view,
        );
    }
    if transfer.live(m) && held(m, transfer.holds()) && transfer.raw.view == transfer.data.view {
        assert(transfer.holds() =~= exclusive_hold(transfer.data.view).add(Multiset::empty()));
        law_held_account_cannot_be_borrowed_through_alias(
            m,
            transfer.data.view,
            Multiset::empty(),
            transfer.raw.view,
        );
    }
}

} // verus!
