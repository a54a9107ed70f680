//! The fields of a struct of accounts, and which of them load together.
//!
//! The fields of a struct, those of nested structs included, are loaded in order, each
//! beside the borrows of those before it. The laws here hold of every such struct,
//! whatever its fields are.

use crate::accounts::compose::{next_loaded, optional_loaded, pair_loaded};
use crate::accounts::nested::Nested;
use crate::accounts::slab::data_hold;
use crate::accounts::Wrapper;
use crate::memory::{
    can_take, exclusive_hold, exclusive_on, grantable, lemma_exclusive_hold,
    lemma_no_holds, lemma_shared_hold, lemma_take_both, shared_hold, shared_on, taken, AccountView,
    Held, Hold, Memory,
};
use solana_program_error::ProgramError;
use vstd::multiset::Multiset;
use vstd::prelude::*;

verus! {

/// What loading a field into a memory gives: the borrows that it then holds, or why it
/// is refused.
pub type Field = spec_fn(Memory) -> Result<Multiset<Hold>, ProgramError>;

/// The borrows that are held by what was loaded.
pub open spec fn holds_of<H: Held>(r: Result<H, ProgramError>) -> Result<
    Multiset<Hold>,
    ProgramError,
> {
    match r {
        Ok(h) => Ok(h.holds()),
        Err(e) => Err(e),
    }
}

/// A field of type `A`.
pub open spec fn field<A: Wrapper>(view: AccountView, mutable: bool) -> Field {
    |m: Memory| holds_of(A::loaded(m, view, mutable))
}

/// A field of type `Option<A>`.
pub open spec fn optional_field<A: Wrapper>(
    program_id: Seq<u8>,
    view: AccountView,
    mutable: bool,
) -> Field {
    |m: Memory| holds_of(optional_loaded::<A>(program_id, m, view, mutable))
}

/// What loading fields in order gives: all their borrows, or the first refusal.
pub open spec fn fields_loaded(m: Memory, fields: Seq<Field>) -> Result<
    Multiset<Hold>,
    ProgramError,
>
    decreases fields.len(),
{
    if fields.len() == 0 {
        Ok(Multiset::empty())
    } else {
        match fields_loaded(m, fields.drop_last()) {
            Err(e) => Err(e),
            Ok(h) => match fields.last()(taken(m, h)) {
                Err(e) => Err(e),
                Ok(k) => Ok(h.add(k)),
            },
        }
    }
}

/// Whether a field is refused exactly for a borrow: where it loads alone, it loads just
/// the same beside borrows that do not conflict with its own, and is refused beside
/// those that do.
pub open spec fn loads_beside(f: Field, m: Memory) -> bool {
    f(m) matches Ok(h) ==> forall|k: Multiset<Hold>|
        can_take(m, k) ==> #[trigger] f(taken(m, k)) == if can_take(taken(m, k), h) {
            Ok::<Multiset<Hold>, ProgramError>(h)
        } else {
            Err(ProgramError::AccountBorrowFailed)
        }
}

/// Whether a field takes the borrows it holds, in any memory of `len` accounts.
pub open spec fn takes_its_holds(f: Field, len: nat) -> bool {
    forall|m: Memory| m.len() == len ==> (#[trigger] f(m) matches Ok(h) ==> can_take(m, h))
}

/// Whether a field that loads holds no borrow, or one of the account that `view` names.
pub open spec fn holds_at_most(f: Field, m: Memory, view: AccountView) -> bool {
    f(m) matches Ok(h) ==> {
        ||| h == Multiset::<Hold>::empty()
        ||| h == shared_hold(view)
        ||| h == exclusive_hold(view)
    }
}

/// What is asked of the fields of a struct, one for each view.
pub open spec fn proper(fields: Seq<Field>, m: Memory, views: Seq<AccountView>) -> bool {
    &&& fields.len() == views.len()
    &&& forall|i: int|
        0 <= i < fields.len() ==> loads_beside(#[trigger] fields[i], m) && takes_its_holds(
            fields[i],
            m.len(),
        ) && holds_at_most(fields[i], m, views[i])
}

/// A struct whose accounts are loaded field by field.
pub trait Declared: Held {
    /// How many accounts the struct takes.
    spec fn width() -> nat;

    /// The fields, those of nested structs included.
    spec fn fields(program_id: Seq<u8>, views: Seq<AccountView>) -> Seq<Field>;

    /// What is checked once all fields are loaded.
    open spec fn constrained(program_id: Seq<u8>, m: Memory, views: Seq<AccountView>) -> Result<
        (),
        ProgramError,
    > {
        Ok(())
    }

    /// What loading the accounts and checking them gives.
    spec fn declared(program_id: Seq<u8>, m: Memory, views: Seq<AccountView>) -> Result<
        Self,
        ProgramError,
    >;

    /// The accounts are loaded field by field, and then checked.
    proof fn lemma_fields(program_id: Seq<u8>, m: Memory, views: Seq<AccountView>)
        requires
            views.len() == Self::width(),
            forall|k: int| 0 <= k < views.len() ==> (#[trigger] views[k]).slot < m.len(),
        ensures
            proper(Self::fields(program_id, views), m, views),
            holds_of(Self::declared(program_id, m, views)) == match fields_loaded(
                m,
                Self::fields(program_id, views),
            ) {
                Err(e) => Err(e),
                Ok(h) => match Self::constrained(program_id, m, views) {
                    Err(e) => Err(e),
                    Ok(_) => Ok(h),
                },
            },
    ;
}

impl<T: Declared> Declared for Nested<T> {
    open spec fn width() -> nat {
        T::width()
    }

    open spec fn fields(program_id: Seq<u8>, views: Seq<AccountView>) -> Seq<Field> {
        T::fields(program_id, views)
    }

    open spec fn constrained(program_id: Seq<u8>, m: Memory, views: Seq<AccountView>) -> Result<
        (),
        ProgramError,
    > {
        T::constrained(program_id, m, views)
    }

    open spec fn declared(program_id: Seq<u8>, m: Memory, views: Seq<AccountView>) -> Result<
        Self,
        ProgramError,
    > {
        match T::declared(program_id, m, views) {
            Ok(inner) => Ok(Nested { inner }),
            Err(e) => Err(e),
        }
    }

    proof fn lemma_fields(program_id: Seq<u8>, m: Memory, views: Seq<AccountView>) {
        T::lemma_fields(program_id, m, views);
    }
}

/// Loading one more field.
pub proof fn lemma_fields_push(m: Memory, fields: Seq<Field>, f: Field)
    ensures
        fields_loaded(m, fields.push(f)) == match fields_loaded(m, fields) {
            Err(e) => Err(e),
            Ok(h) => match f(taken(m, h)) {
                Err(e) => Err(e),
                Ok(k) => Ok(h.add(k)),
            },
        },
{
    assert(fields.push(f).drop_last() =~= fields);
}

/// Loading a single field.
pub proof fn lemma_fields_one(m: Memory, f: Field)
    ensures
        fields_loaded(m, seq![f]) == f(m),
{
    lemma_fields_push(m, Seq::empty(), f);
    assert(Seq::<Field>::empty().push(f) =~= seq![f]);
    lemma_no_holds(m);
    if let Ok(h) = f(m) {
        assert(Multiset::empty().add(h) =~= h);
    }
}

/// Loading one more account is loading one more field.
pub proof fn lemma_fields_next<P: Held, A: Wrapper>(
    m: Memory,
    fields: Seq<Field>,
    prior: Result<P, ProgramError>,
    view: AccountView,
    mutable: bool,
)
    requires
        holds_of(prior) == fields_loaded(m, fields),
    ensures
        holds_of(next_loaded::<P, A>(m, prior, view, mutable)) == fields_loaded(
            m,
            fields.push(field::<A>(view, mutable)),
        ),
{
    lemma_fields_push(m, fields, field::<A>(view, mutable));
}

/// Loading two accounts is loading two fields.
pub proof fn lemma_fields_pair<A: Wrapper, B: Wrapper>(
    m: Memory,
    first: (AccountView, bool),
    second: (AccountView, bool),
)
    ensures
        holds_of(pair_loaded::<A, B>(m, first, second)) == fields_loaded(
            m,
            seq![field::<A>(first.0, first.1), field::<B>(second.0, second.1)],
        ),
{
    let a = field::<A>(first.0, first.1);
    let b = field::<B>(second.0, second.1);
    lemma_fields_one(m, a);
    lemma_fields_next::<A, B>(m, seq![a], A::loaded(m, first.0, first.1), second.0, second.1);
    assert(seq![a].push(b) =~= seq![a, b]);
}

/// Loading fields in two parts.
pub proof fn lemma_fields_append(m: Memory, first: Seq<Field>, second: Seq<Field>)
    requires
        forall|i: int| 0 <= i < first.len() ==> takes_its_holds(#[trigger] first[i], m.len()),
        forall|i: int| 0 <= i < second.len() ==> takes_its_holds(#[trigger] second[i], m.len()),
    ensures
        fields_loaded(m, first) matches Ok(h) ==> can_take(m, h),
        fields_loaded(m, first + second) == match fields_loaded(m, first) {
            Err(e) => Err(e),
            Ok(h) => match fields_loaded(taken(m, h), second) {
                Err(e) => Err(e),
                Ok(k) => Ok(h.add(k)),
            },
        },
    decreases first.len() + second.len(),
{
    lemma_fields_taken(m, first);
    if second.len() == 0 {
        assert(first + second =~= first);
        if let Ok(h) = fields_loaded(m, first) {
            assert(h.add(Multiset::empty()) =~= h);
        }
    } else {
        let some = second.drop_last();
        let f = second.last();
        assert(f == second[second.len() - 1]);
        assert((first + second).drop_last() =~= first + some);
        lemma_fields_append(m, first, some);
        if let Ok(h) = fields_loaded(m, first) {
            let n = taken(m, h);
            lemma_fields_taken(n, some);
            if let Ok(k) = fields_loaded(n, some) {
                lemma_take_both(m, h, k);
                if let Ok(l) = f(taken(n, k)) {
                    assert(h.add(k).add(l) =~= h.add(k.add(l)));
                }
            }
        }
    }
}

/// Fields that were loaded have taken what they hold.
proof fn lemma_fields_taken(m: Memory, fields: Seq<Field>)
    requires
        forall|i: int| 0 <= i < fields.len() ==> takes_its_holds(#[trigger] fields[i], m.len()),
    ensures
        fields_loaded(m, fields) matches Ok(h) ==> can_take(m, h),
    decreases fields.len(),
{
    lemma_no_holds(m);
    if fields.len() > 0 {
        lemma_fields_taken(m, fields.drop_last());
        assert(takes_its_holds(fields[fields.len() - 1], m.len()));
        if let Ok(h) = fields_loaded(m, fields.drop_last()) {
            if let Ok(k) = fields.last()(taken(m, h)) {
                lemma_take_both(m, h, k);
            }
        }
    }
}

/// A field of any type that ignores the borrows of others is a proper one.
pub proof fn lemma_field<A: Wrapper>(m: Memory, view: AccountView, mutable: bool)
    requires
        view.slot < m.len(),
        A::ignores_borrows(),
    ensures
        loads_beside(field::<A>(view, mutable), m),
        takes_its_holds(field::<A>(view, mutable), m.len()),
        holds_at_most(field::<A>(view, mutable), m, view),
{
    let f = field::<A>(view, mutable);
    assert forall|k: Multiset<Hold>| can_take(m, k) implies (f(m) matches Ok(h) ==> #[trigger] f(
        taken(m, k),
    ) == if can_take(taken(m, k), h) {
        Ok::<Multiset<Hold>, ProgramError>(h)
    } else {
        Err(ProgramError::AccountBorrowFailed)
    }) by {
        A::lemma_loaded_beside(m, k, view, mutable);
    }
    assert forall|n: Memory| n.len() == m.len() implies (#[trigger] f(n) matches Ok(h) ==> can_take(
        n,
        h,
    )) by {
        A::lemma_loaded(n, view, mutable);
    }
    lemma_no_holds(m);
    A::lemma_loaded_beside(m, Multiset::empty(), view, mutable);
}

/// An optional field of any such type is a proper one.
pub proof fn lemma_optional_field<A: Wrapper>(
    program_id: Seq<u8>,
    m: Memory,
    view: AccountView,
    mutable: bool,
)
    requires
        view.slot < m.len(),
        A::ignores_borrows(),
    ensures
        loads_beside(optional_field::<A>(program_id, view, mutable), m),
        takes_its_holds(optional_field::<A>(program_id, view, mutable), m.len()),
        holds_at_most(optional_field::<A>(program_id, view, mutable), m, view),
{
    let f = optional_field::<A>(program_id, view, mutable);
    let g = field::<A>(view, mutable);
    lemma_field::<A>(m, view, mutable);
    assert forall|n: Memory| n.len() == m.len() implies (#[trigger] f(n) matches Ok(h) ==> can_take(
        n,
        h,
    )) by {
        lemma_no_holds(n);
        assert(g(n) matches Ok(h) ==> can_take(n, h));
    }
    assert forall|k: Multiset<Hold>| can_take(m, k) implies (f(m) matches Ok(h) ==> #[trigger] f(
        taken(m, k),
    ) == if can_take(taken(m, k), h) {
        Ok::<Multiset<Hold>, ProgramError>(h)
    } else {
        Err(ProgramError::AccountBorrowFailed)
    }) by {
        lemma_no_holds(taken(m, k));
        let n = taken(m, k);
        assert(n[view.slot as int].address == m[view.slot as int].address);
        if m[view.slot as int].address != program_id {
            assert(f(m) == g(m));
            assert(f(n) == g(n));
        }
    }
}

/// Whether every field loads alone: its own checks pass.
pub open spec fn each_loads(m: Memory, fields: Seq<Field>) -> bool {
    forall|i: int| 0 <= i < fields.len() ==> (#[trigger] fields[i](m)) is Ok
}

/// The borrows of all fields.
pub open spec fn all_holds(m: Memory, fields: Seq<Field>) -> Multiset<Hold>
    decreases fields.len(),
{
    if fields.len() == 0 {
        Multiset::empty()
    } else {
        all_holds(m, fields.drop_last()).add(fields.last()(m)->Ok_0)
    }
}

/// Fields that load alone load together exactly where their borrows can be taken
/// together; where they cannot, the error is that an account's data is borrowed.
pub proof fn law_fields_load_together(m: Memory, fields: Seq<Field>)
    requires
        each_loads(m, fields),
        forall|i: int| 0 <= i < fields.len() ==> loads_beside(#[trigger] fields[i], m),
    ensures
        fields_loaded(m, fields) == if can_take(m, all_holds(m, fields)) {
            Ok::<Multiset<Hold>, ProgramError>(all_holds(m, fields))
        } else {
            Err(ProgramError::AccountBorrowFailed)
        },
    decreases fields.len(),
{
    lemma_no_holds(m);
    if fields.len() > 0 {
        let some = fields.drop_last();
        let f = fields.last();
        assert(f == fields[fields.len() - 1]);
        assert forall|i: int| 0 <= i < some.len() implies (#[trigger] some[i](m)) is Ok by {
            assert(fields[i](m) is Ok);
        }
        law_fields_load_together(m, some);
        assert(fields[fields.len() - 1](m) is Ok);
        let h = all_holds(m, some);
        lemma_take_both(m, h, f(m)->Ok_0);
        if can_take(m, h) {
            assert(loads_beside(f, m));
        }
    }
}

/// Each field's borrows are among all of them, those of two fields together.
proof fn lemma_all_holds(m: Memory, fields: Seq<Field>, i: int, j: int, x: Hold)
    requires
        0 <= i < j < fields.len(),
    ensures
        all_holds(m, fields).count(x) >= (fields[i](m)->Ok_0).count(x) + (fields[j](
            m,
        )->Ok_0).count(x),
    decreases fields.len(),
{
    let some = fields.drop_last();
    if j < some.len() {
        lemma_all_holds(m, some, i, j, x);
    } else {
        lemma_one_of_all(m, some, i, x);
    }
}

proof fn lemma_one_of_all(m: Memory, fields: Seq<Field>, i: int, x: Hold)
    requires
        0 <= i < fields.len(),
    ensures
        all_holds(m, fields).count(x) >= (fields[i](m)->Ok_0).count(x),
    decreases fields.len(),
{
    let some = fields.drop_last();
    if i < some.len() {
        lemma_one_of_all(m, some, i, x);
    }
}

/// What only one field holds is held as often as that field holds it.
proof fn lemma_only_one(m: Memory, fields: Seq<Field>, i: int, x: Hold)
    requires
        forall|j: int| 0 <= j < fields.len() && j != i ==> (#[trigger] fields[j](m)->Ok_0).count(x)
            == 0,
    ensures
        all_holds(m, fields).count(x) == if 0 <= i < fields.len() {
            (fields[i](m)->Ok_0).count(x)
        } else {
            0
        },
    decreases fields.len(),
{
    if fields.len() > 0 {
        let some = fields.drop_last();
        assert forall|j: int| 0 <= j < some.len() && j != i implies (#[trigger] some[j](
            m,
        )->Ok_0).count(x) == 0 by {
            assert((fields[j](m)->Ok_0).count(x) == 0);
        }
        lemma_only_one(m, some, i, x);
        let last = fields.len() - 1;
        if i != last {
            assert((fields[last](m)->Ok_0).count(x) == 0);
        }
    }
}

/// What is held at all is held by some field.
proof fn lemma_some_holder(m: Memory, fields: Seq<Field>, x: Hold) -> (i: int)
    requires
        all_holds(m, fields).count(x) > 0,
    ensures
        0 <= i < fields.len(),
        (fields[i](m)->Ok_0).count(x) > 0,
    decreases fields.len(),
{
    let some = fields.drop_last();
    if (fields.last()(m)->Ok_0).count(x) > 0 {
        fields.len() - 1
    } else {
        lemma_some_holder(m, some, x)
    }
}

/// Whether the views are those of a struct: so many, and all of accounts of `m`.
pub open spec fn fitting<T: Declared>(m: Memory, views: Seq<AccountView>) -> bool {
    &&& views.len() == T::width()
    &&& forall|k: int| 0 <= k < views.len() ==> (#[trigger] views[k]).slot < m.len()
}

/// Whether two fields are of one account and both expose its data, the first of them to
/// write it.
pub open spec fn conflict(
    fields: Seq<Field>,
    m: Memory,
    views: Seq<AccountView>,
    i: int,
    j: int,
) -> bool {
    &&& 0 <= i < views.len()
    &&& 0 <= j < views.len()
    &&& i != j
    &&& views[i] == views[j]
    &&& fields[i](m) == Ok::<Multiset<Hold>, ProgramError>(exclusive_hold(views[i]))
    &&& {
        ||| fields[j](m) == Ok::<Multiset<Hold>, ProgramError>(exclusive_hold(views[j]))
        ||| fields[j](m) == Ok::<Multiset<Hold>, ProgramError>(shared_hold(views[j]))
    }
}

/// Two fields of one account that both expose its data, at least one of them to write it,
/// are refused for the borrow, in either order and wherever in the struct they stand,
/// plain, boxed, optional or nested, where every field loads alone.
pub proof fn law_conflicting_alias_is_refused<T: Declared>(
    program_id: Seq<u8>,
    m: Memory,
    views: Seq<AccountView>,
    i: int,
    j: int,
)
    requires
        fitting::<T>(m, views),
        each_loads(m, T::fields(program_id, views)),
        conflict(T::fields(program_id, views), m, views, i, j),
    ensures
        T::declared(program_id, m, views) == Err::<T, ProgramError>(
            ProgramError::AccountBorrowFailed,
        ),
{
    let fields = T::fields(program_id, views);
    T::lemma_fields(program_id, m, views);
    law_fields_load_together(m, fields);
    let at = views[i].slot as int;
    let h = all_holds(m, fields);
    let x = Hold { slot: at, exclusive: true };
    let y = Hold { slot: at, exclusive: false };
    if i < j {
        lemma_all_holds(m, fields, i, j, x);
        lemma_all_holds(m, fields, i, j, y);
    } else {
        lemma_all_holds(m, fields, j, i, x);
        lemma_all_holds(m, fields, j, i, y);
    }
    assert(exclusive_on(h, at) >= 2 || (exclusive_on(h, at) >= 1 && shared_on(h, at) >= 1));
    assert(!grantable(m[at].borrow_state, exclusive_on(h, at), shared_on(h, at)));
    assert(!can_take(m, h));
}

/// Whether two fields may be of one account: one of them exposes no data or is absent,
/// or both only read it.
pub open spec fn may_alias(a: Field, b: Field, m: Memory, view: AccountView) -> bool {
    ||| a(m) == Ok::<Multiset<Hold>, ProgramError>(Multiset::empty())
    ||| b(m) == Ok::<Multiset<Hold>, ProgramError>(Multiset::empty())
    ||| a(m) == Ok::<Multiset<Hold>, ProgramError>(shared_hold(view)) && b(m) == Ok::<
        Multiset<Hold>,
        ProgramError,
    >(shared_hold(view))
}

/// Whether all fields that are of one account may be so, and its borrow state has room
/// for all who read it.
pub open spec fn compatible(fields: Seq<Field>, m: Memory, views: Seq<AccountView>) -> bool {
    &&& forall|i: int, j: int|
        0 <= i < views.len() && 0 <= j < views.len() && i != j && #[trigger] views[i]
            == #[trigger] views[j] ==> may_alias(fields[i], fields[j], m, views[i])
    &&& forall|s: int|
        0 <= s < m.len() && #[trigger] shared_on(all_holds(m, fields), s) > 0 ==> shared_on(
            all_holds(m, fields),
            s,
        ) < m[s].borrow_state
}

/// Fields may be of one account, in whatever order they stand, as long as of any two one
/// exposes no data or is absent, or both only read it: where every field loads alone, the
/// struct's own checks pass, and an account's borrow state has room for all who read it,
/// all load together.
pub proof fn law_compatible_aliases_are_accepted<T: Declared>(
    program_id: Seq<u8>,
    m: Memory,
    views: Seq<AccountView>,
)
    requires
        fitting::<T>(m, views),
        each_loads(m, T::fields(program_id, views)),
        T::constrained(program_id, m, views) is Ok,
        compatible(T::fields(program_id, views), m, views),
    ensures
        T::declared(program_id, m, views) matches Ok(accounts) && accounts.holds() == all_holds(
            m,
            T::fields(program_id, views),
        ),
{
    let fields = T::fields(program_id, views);
    T::lemma_fields(program_id, m, views);
    law_fields_load_together(m, fields);
    let h = all_holds(m, fields);
    assert forall|x: Hold| #[trigger] h.count(x) > 0 implies 0 <= x.slot < m.len() by {
        let i = lemma_some_holder(m, fields, x);
        assert(fields[i](m) is Ok);
        assert(holds_at_most(fields[i], m, views[i]));
        assert(x.slot == views[i].slot);
    }
    assert forall|s: int| 0 <= s < m.len() implies grantable(
        (#[trigger] m[s]).borrow_state,
        exclusive_on(h, s),
        shared_on(h, s),
    ) by {
        let x = Hold { slot: s, exclusive: true };
        let y = Hold { slot: s, exclusive: false };
        if exclusive_on(h, s) > 0 {
            let i = lemma_some_holder(m, fields, x);
            assert(fields[i](m) is Ok);
            assert(holds_at_most(fields[i], m, views[i]));
            assert(fields[i](m)->Ok_0 == exclusive_hold(views[i]) && views[i].slot == s);
            assert forall|j: int| 0 <= j < fields.len() && j != i implies (#[trigger] fields[j](
                m,
            )->Ok_0).count(x) == 0 && (fields[j](m)->Ok_0).count(y) == 0 by {
                assert(fields[j](m) is Ok);
                assert(holds_at_most(fields[j], m, views[j]));
                if views[j].slot == s {
                    assert(views[i] == views[j]);
                    assert(may_alias(fields[i], fields[j], m, views[i]));
                    assert((exclusive_hold(views[i])).count(x) == 1);
                    assert((shared_hold(views[i])).count(x) == 0);
                }
            }
            lemma_only_one(m, fields, i, x);
            lemma_only_one(m, fields, i, y);
            assert(takes_its_holds(fields[i], m.len()));
            assert(can_take(m, exclusive_hold(views[i])));
            lemma_exclusive_hold(m, views[i]);
        }
    }
    assert(can_take(m, h));
}

/// Two wrappers of any type that expose the data of one account, at least one of them to
/// write it, are refused together for the borrow, where each loads alone.
pub proof fn law_conflicting_pair_is_refused<A: Wrapper, B: Wrapper>(
    m: Memory,
    view: AccountView,
    first: bool,
    second: bool,
)
    requires
        view.slot < m.len(),
        A::keeps_data(),
        B::keeps_data(),
        first || second,
        A::loaded(m, view, first) is Ok,
        B::loaded(m, view, second) is Ok,
    ensures
        pair_loaded::<A, B>(m, (view, first), (view, second)) == Err::<(A, B), ProgramError>(
            ProgramError::AccountBorrowFailed,
        ),
        pair_loaded::<B, A>(m, (view, second), (view, first)) == Err::<(B, A), ProgramError>(
            ProgramError::AccountBorrowFailed,
        ),
{
    lemma_no_holds(m);
    A::lemma_loaded_beside(m, Multiset::empty(), view, first);
    B::lemma_loaded_beside(m, Multiset::empty(), view, second);
    A::lemma_loaded(m, view, first);
    B::lemma_loaded(m, view, second);
    let ha = data_hold(view, first);
    let hb = data_hold(view, second);
    lemma_shared_hold(m, view);
    lemma_exclusive_hold(m, view);
    lemma_shared_hold(taken(m, ha), view);
    lemma_exclusive_hold(taken(m, ha), view);
    lemma_shared_hold(taken(m, hb), view);
    lemma_exclusive_hold(taken(m, hb), view);
    A::lemma_loaded_beside(m, hb, view, first);
    B::lemma_loaded_beside(m, ha, view, second);
}

/// Two wrappers of any type whose checks look at no borrow state load together of one
/// account, where each loads alone and one of them exposes no data, or both only read it
/// and there is room for a second reader.
pub proof fn law_compatible_pair_is_accepted<A: Wrapper, B: Wrapper>(
    m: Memory,
    view: AccountView,
    first: bool,
    second: bool,
)
    requires
        view.slot < m.len(),
        B::ignores_borrows(),
        !A::keeps_data() || !B::keeps_data() || (!first && !second
            && m[view.slot as int].borrow_state > 2),
        A::loaded(m, view, first) is Ok,
        B::loaded(m, view, second) is Ok,
    ensures
        pair_loaded::<A, B>(m, (view, first), (view, second)) == Ok::<(A, B), ProgramError>(
            (A::loaded(m, view, first)->Ok_0, B::loaded(m, view, second)->Ok_0),
        ),
{
    lemma_no_holds(m);
    A::lemma_loaded_beside(m, Multiset::empty(), view, first);
    A::lemma_loaded(m, view, first);
    B::lemma_loaded(m, view, second);
    let a = A::loaded(m, view, first)->Ok_0;
    lemma_no_holds(taken(m, a.holds()));
    lemma_shared_hold(m, view);
    lemma_shared_hold(taken(m, a.holds()), view);
    B::lemma_loaded_beside(m, Multiset::empty(), view, second);
    B::lemma_loaded_beside(m, a.holds(), view, second);
}

} // verus!
