//! The accounts of one instruction and the borrow state of their data.
//!
//! Every account occupies one slot of an [`AccountMemory`]. An [`AccountView`]
//! names a slot, so two views of one account share everything that the slot
//! holds, the borrow state included. A borrow of an account's data is a
//! [`Hold`] on its slot: shared holds exclude exclusive ones, and an exclusive
//! hold excludes every other.

use crate::address::Address;
use crate::le::{overwrite, write_at};
use vstd::multiset::Multiset;
use vstd::prelude::*;

verus! {

/// The borrow state of data that nobody borrows.
pub const NOT_BORROWED: u8 = 255;

/// One account as the runtime hands it to a program.
pub struct RuntimeAccount {
    pub borrow_state: u8,
    pub is_signer: bool,
    pub is_writable: bool,
    pub executable: bool,
    pub address: Address,
    pub owner: Address,
    pub lamports: u64,
    pub data: Vec<u8>,
}

/// What a [`RuntimeAccount`] holds, as mathematical values.
#[verifier::ext_equal]
pub struct AccountModel {
    pub borrow_state: u8,
    pub is_signer: bool,
    pub is_writable: bool,
    pub executable: bool,
    pub address: Seq<u8>,
    pub owner: Seq<u8>,
    pub lamports: u64,
    pub data: Seq<u8>,
}

/// All accounts of an instruction, by slot.
pub type Memory = Seq<AccountModel>;

impl View for RuntimeAccount {
    type V = AccountModel;

    open spec fn view(&self) -> AccountModel {
        AccountModel {
            borrow_state: self.borrow_state,
            is_signer: self.is_signer,
            is_writable: self.is_writable,
            executable: self.executable,
            address: self.address@,
            owner: self.owner@,
            lamports: self.lamports,
            data: self.data@,
        }
    }
}

/// A borrow of the data in a slot.
pub struct Hold {
    pub slot: int,
    pub exclusive: bool,
}

/// How many shared holds of `h` are on slot `i`.
pub open spec fn shared_on(h: Multiset<Hold>, i: int) -> nat {
    h.count(Hold { slot: i, exclusive: false })
}

/// How many exclusive holds of `h` are on slot `i`.
pub open spec fn exclusive_on(h: Multiset<Hold>, i: int) -> nat {
    h.count(Hold { slot: i, exclusive: true })
}

/// Every hold of `h` is on one of the first `len` slots.
pub open spec fn in_range(h: Multiset<Hold>, len: nat) -> bool {
    forall|x: Hold| #[trigger] h.count(x) > 0 ==> 0 <= x.slot < len
}

/// Whether data in borrow state `s` can be borrowed `shared` times and
/// `exclusive` times at once. A state counts down from [`NOT_BORROWED`] with each
/// shared borrow and never reaches zero that way; zero stands for an exclusive
/// borrow.
pub open spec fn grantable(s: u8, exclusive: nat, shared: nat) -> bool {
    if exclusive == 0 {
        shared == 0 || shared < s
    } else {
        exclusive == 1 && shared == 0 && s == NOT_BORROWED
    }
}

/// Whether all of `h` can be borrowed in `m`.
pub open spec fn can_take(m: Memory, h: Multiset<Hold>) -> bool {
    &&& in_range(h, m.len())
    &&& forall|i: int|
        0 <= i < m.len() ==> grantable(
            (#[trigger] m[i]).borrow_state,
            exclusive_on(h, i),
            shared_on(h, i),
        )
}

/// `m` with all of `h` borrowed.
pub open spec fn taken(m: Memory, h: Multiset<Hold>) -> Memory {
    Seq::new(
        m.len(),
        |i: int|
            AccountModel {
                borrow_state: if exclusive_on(h, i) > 0 {
                    0
                } else {
                    (m[i].borrow_state - shared_on(h, i)) as u8
                },
                ..m[i]
            },
    )
}

/// Whether borrow state `s` accounts for `shared` shared borrows and `exclusive`
/// exclusive ones.
pub open spec fn covers(s: u8, exclusive: nat, shared: nat) -> bool {
    if exclusive == 0 {
        shared == 0 || 0 < s <= NOT_BORROWED - shared
    } else {
        exclusive == 1 && shared == 0 && s == 0
    }
}

/// Whether the borrow states of `m` account for all of `h`.
pub open spec fn held(m: Memory, h: Multiset<Hold>) -> bool {
    &&& in_range(h, m.len())
    &&& forall|i: int|
        0 <= i < m.len() ==> covers(
            (#[trigger] m[i]).borrow_state,
            exclusive_on(h, i),
            shared_on(h, i),
        )
}

/// `m` with all of `h` given back.
pub open spec fn freed(m: Memory, h: Multiset<Hold>) -> Memory {
    Seq::new(
        m.len(),
        |i: int|
            AccountModel {
                borrow_state: if exclusive_on(h, i) > 0 {
                    NOT_BORROWED
                } else {
                    (m[i].borrow_state + shared_on(h, i)) as u8
                },
                ..m[i]
            },
    )
}

/// The borrow states of all slots.
pub open spec fn borrow_states(m: Memory) -> Seq<u8> {
    m.map_values(|a: AccountModel| a.borrow_state)
}

/// One shared hold.
pub open spec fn shared_hold(view: AccountView) -> Multiset<Hold> {
    Multiset::singleton(Hold { slot: view.slot as int, exclusive: false })
}

/// One exclusive hold.
pub open spec fn exclusive_hold(view: AccountView) -> Multiset<Hold> {
    Multiset::singleton(Hold { slot: view.slot as int, exclusive: true })
}

/// Giving back what was just taken restores the memory, and until then the
/// memory accounts for the holds.
pub proof fn law_release_undoes_borrow(m: Memory, h: Multiset<Hold>)
    requires
        can_take(m, h),
    ensures
        held(taken(m, h), h),
        freed(taken(m, h), h) == m,
{
    let n = taken(m, h);
    assert forall|i: int| 0 <= i < n.len() implies covers(
        (#[trigger] n[i]).borrow_state,
        exclusive_on(h, i),
        shared_on(h, i),
    ) && freed(n, h)[i] == m[i] by {
        assert(grantable(m[i].borrow_state, exclusive_on(h, i), shared_on(h, i)));
    }
    assert(freed(n, h) =~= m);
}

/// Taking again what was just given back restores the memory.
pub proof fn law_borrow_undoes_release(m: Memory, h: Multiset<Hold>)
    requires
        held(m, h),
    ensures
        can_take(freed(m, h), h),
        taken(freed(m, h), h) == m,
{
    let n = freed(m, h);
    assert forall|i: int| 0 <= i < n.len() implies grantable(
        (#[trigger] n[i]).borrow_state,
        exclusive_on(h, i),
        shared_on(h, i),
    ) && taken(n, h)[i] == m[i] by {
        assert(covers(m[i].borrow_state, exclusive_on(h, i), shared_on(h, i)));
    }
    assert(taken(n, h) =~= m);
}

/// Which holds can be taken together does not depend on the order in which they are
/// taken, nor does the memory after it.
pub proof fn law_order_of_borrows_is_irrelevant(m: Memory, a: Multiset<Hold>, b: Multiset<Hold>)
    ensures
        (can_take(m, a) && can_take(taken(m, a), b)) == (can_take(m, b) && can_take(
            taken(m, b),
            a,
        )),
        can_take(m, a) && can_take(taken(m, a), b) ==> taken(taken(m, a), b) == taken(
            taken(m, b),
            a,
        ),
{
    lemma_take_both(m, a, b);
    lemma_take_both(m, b, a);
    assert(a.add(b) =~= b.add(a));
}

/// An exclusive borrow and any other borrow of the same account exclude each other.
pub proof fn law_exclusive_borrow_excludes_others(m: Memory, view: AccountView)
    requires
        view.slot < m.len(),
    ensures
        !can_take(taken(m, exclusive_hold(view)), shared_hold(view)),
        !can_take(taken(m, exclusive_hold(view)), exclusive_hold(view)),
        can_take(m, shared_hold(view)) ==> !can_take(
            taken(m, shared_hold(view)),
            exclusive_hold(view),
        ),
{
    lemma_exclusive_hold(m, view);
    lemma_shared_hold(m, view);
    let x = taken(m, exclusive_hold(view));
    lemma_shared_hold(x, view);
    lemma_exclusive_hold(x, view);
    let y = taken(m, shared_hold(view));
    lemma_exclusive_hold(y, view);
}

/// Borrows of different accounts never conflict.
pub proof fn law_borrows_of_other_accounts_are_independent(
    m: Memory,
    h: Multiset<Hold>,
    view: AccountView,
)
    requires
        view.slot < m.len(),
        shared_on(h, view.slot as int) == 0,
        exclusive_on(h, view.slot as int) == 0,
    ensures
        can_take(taken(m, h), shared_hold(view)) <==> can_take(m, shared_hold(view)),
        can_take(taken(m, h), exclusive_hold(view)) <==> can_take(m, exclusive_hold(view)),
{
    lemma_shared_hold(m, view);
    lemma_exclusive_hold(m, view);
    lemma_shared_hold(taken(m, h), view);
    lemma_exclusive_hold(taken(m, h), view);
}

/// Accounts that are held exclusively at once are different accounts.
pub proof fn law_exclusively_held_accounts_differ(
    m: Memory,
    a: AccountView,
    b: AccountView,
    others: Multiset<Hold>,
)
    requires
        a.slot < m.len(),
        held(m, exclusive_hold(a).add(exclusive_hold(b)).add(others)),
    ensures
        a.slot != b.slot,
{
    let h = exclusive_hold(a).add(exclusive_hold(b)).add(others);
    assert(covers(
        m[a.slot as int].borrow_state,
        exclusive_on(h, a.slot as int),
        shared_on(h, a.slot as int),
    ));
}

/// The borrow states once `h` is given back.
pub open spec fn settled(m: Memory, h: Multiset<Hold>) -> Seq<u8> {
    borrow_states(freed(m, h))
}

/// `n` has the accounts of `m`, and perhaps more, with data of the same lengths.
pub open spec fn same_shape(m: Memory, n: Memory) -> bool {
    &&& m.len() <= n.len()
    &&& forall|i: int| 0 <= i < m.len() ==> (#[trigger] n[i]).data.len() == m[i].data.len()
}

/// How the borrows of one holder may change: they stay as they are, or all of them
/// are given back.
pub open spec fn keeps_or_frees(
    m: Memory,
    h: Multiset<Hold>,
    n: Memory,
    k: Multiset<Hold>,
) -> bool {
    ||| k == h && borrow_states(n) == borrow_states(m)
    ||| k == Multiset::<Hold>::empty() && borrow_states(n) == settled(m, h)
}

/// Where one holder keeps or frees its borrows, the memory still accounts for those
/// of all the others, and comes to the same in the end.
pub proof fn lemma_keeps_or_frees(
    m: Memory,
    h: Multiset<Hold>,
    n: Memory,
    k: Multiset<Hold>,
    others: Multiset<Hold>,
)
    requires
        held(m, others.add(h)),
        keeps_or_frees(m, h, n, k),
    ensures
        held(n, others.add(k)),
        settled(n, others.add(k)) == settled(m, others.add(h)),
{
    lemma_free_both(m, others, h);
    let f = freed(m, h);
    if k == h && borrow_states(n) == borrow_states(m) {
        lemma_same_states(m, n, others.add(h));
    } else {
        assert(others.add(k) =~= others);
        lemma_same_states(f, n, others);
    }
}

/// Whether holds are accounted for, and what giving them back comes to, depends on
/// the borrow states alone.
pub proof fn lemma_same_states(m: Memory, n: Memory, h: Multiset<Hold>)
    requires
        borrow_states(m) == borrow_states(n),
    ensures
        m.len() == n.len(),
        held(m, h) == held(n, h),
        can_take(m, h) == can_take(n, h),
        settled(m, h) == settled(n, h),
        borrow_states(taken(m, h)) == borrow_states(taken(n, h)),
{
    assert(borrow_states(m).len() == m.len());
    assert(borrow_states(n).len() == n.len());
    assert forall|i: int| 0 <= i < m.len() implies m[i].borrow_state == n[i].borrow_state by {
        assert(borrow_states(m)[i] == m[i].borrow_state);
        assert(borrow_states(n)[i] == n[i].borrow_state);
    }
    assert(settled(m, h) =~= settled(n, h));
    assert(borrow_states(taken(m, h)) =~= borrow_states(taken(n, h)));
}

/// Taking two sets of holds at once is the same as taking one and then the other,
/// and one is possible exactly where the other is.
pub proof fn lemma_take_both(m: Memory, a: Multiset<Hold>, b: Multiset<Hold>)
    ensures
        can_take(m, a.add(b)) <==> can_take(m, a) && can_take(taken(m, a), b),
        can_take(m, a.add(b)) ==> taken(m, a.add(b)) == taken(taken(m, a), b),
{
    let ab = a.add(b);
    let n = taken(m, a);
    if can_take(m, ab) {
        assert forall|x: Hold| #[trigger] a.count(x) > 0 implies 0 <= x.slot < m.len() by {
            assert(ab.count(x) > 0);
        }
        assert forall|x: Hold| #[trigger] b.count(x) > 0 implies 0 <= x.slot < m.len() by {
            assert(ab.count(x) > 0);
        }
        assert forall|i: int| 0 <= i < m.len() implies grantable(
            (#[trigger] m[i]).borrow_state,
            exclusive_on(a, i),
            shared_on(a, i),
        ) by {}
        assert forall|i: int| 0 <= i < n.len() implies grantable(
            (#[trigger] n[i]).borrow_state,
            exclusive_on(b, i),
            shared_on(b, i),
        ) by {
            assert(grantable(m[i].borrow_state, exclusive_on(ab, i), shared_on(ab, i)));
        }
        assert forall|i: int| 0 <= i < m.len() implies taken(m, ab)[i] == taken(n, b)[i] by {
            assert(grantable(m[i].borrow_state, exclusive_on(ab, i), shared_on(ab, i)));
        }
        assert(taken(m, ab) =~= taken(n, b));
    }
    if can_take(m, a) && can_take(n, b) {
        assert forall|x: Hold| #[trigger] ab.count(x) > 0 implies 0 <= x.slot < m.len() by {
            assert(a.count(x) > 0 || b.count(x) > 0);
        }
        assert forall|i: int| 0 <= i < m.len() implies grantable(
            (#[trigger] m[i]).borrow_state,
            exclusive_on(ab, i),
            shared_on(ab, i),
        ) by {
            assert(grantable(m[i].borrow_state, exclusive_on(a, i), shared_on(a, i)));
            assert(grantable(n[i].borrow_state, exclusive_on(b, i), shared_on(b, i)));
        }
    }
}

/// Where the memory accounts for two sets of holds, either can be given back
/// first, and giving back both is the same as giving back one and then the other.
pub proof fn lemma_free_both(m: Memory, a: Multiset<Hold>, b: Multiset<Hold>)
    requires
        held(m, a.add(b)),
    ensures
        held(m, a),
        held(m, b),
        held(freed(m, a), b),
        held(freed(m, b), a),
        freed(freed(m, a), b) == freed(m, a.add(b)),
        freed(freed(m, b), a) == freed(m, a.add(b)),
{
    let ab = a.add(b);
    assert forall|x: Hold| #[trigger] a.count(x) > 0 implies 0 <= x.slot < m.len() by {
        assert(ab.count(x) > 0);
    }
    assert forall|x: Hold| #[trigger] b.count(x) > 0 implies 0 <= x.slot < m.len() by {
        assert(ab.count(x) > 0);
    }
    assert forall|i: int| 0 <= i < m.len() implies covers(
        (#[trigger] m[i]).borrow_state,
        exclusive_on(a, i),
        shared_on(a, i),
    ) && covers(m[i].borrow_state, exclusive_on(b, i), shared_on(b, i)) by {
        assert(covers(m[i].borrow_state, exclusive_on(ab, i), shared_on(ab, i)));
    }
    let na = freed(m, a);
    let nb = freed(m, b);
    assert forall|i: int| 0 <= i < na.len() implies covers(
        (#[trigger] na[i]).borrow_state,
        exclusive_on(b, i),
        shared_on(b, i),
    ) by {
        assert(covers(m[i].borrow_state, exclusive_on(ab, i), shared_on(ab, i)));
    }
    assert forall|i: int| 0 <= i < nb.len() implies covers(
        (#[trigger] nb[i]).borrow_state,
        exclusive_on(a, i),
        shared_on(a, i),
    ) by {
        assert(covers(m[i].borrow_state, exclusive_on(ab, i), shared_on(ab, i)));
    }
    assert forall|i: int| 0 <= i < m.len() implies freed(na, b)[i] == freed(m, ab)[i] && freed(
        nb,
        a,
    )[i] == freed(m, ab)[i] by {
        assert(covers(m[i].borrow_state, exclusive_on(ab, i), shared_on(ab, i)));
    }
    assert(freed(freed(m, a), b) =~= freed(m, ab));
    assert(freed(freed(m, b), a) =~= freed(m, ab));
}

/// `m` with the account in `slot` replaced.
pub open spec fn with_account(m: Memory, slot: int, account: AccountModel) -> Memory {
    m.update(slot, account)
}

/// `m` with the data of the account in `slot` replaced.
pub open spec fn with_data(m: Memory, slot: int, data: Seq<u8>) -> Memory {
    m.update(slot, AccountModel { data, ..m[slot] })
}

/// `m` with the borrow state of the account in `slot` replaced.
pub open spec fn with_borrow_state(m: Memory, slot: int, borrow_state: u8) -> Memory {
    m.update(slot, AccountModel { borrow_state, ..m[slot] })
}

/// A single hold within range is on a slot within range.
pub proof fn lemma_single_in_range(x: Hold, len: nat)
    requires
        in_range(Multiset::singleton(x), len),
    ensures
        0 <= x.slot < len,
{
    let h = Multiset::singleton(x);
    assert(h.count(x) == 1);
}

/// What one shared borrow asks for and does.
pub proof fn lemma_shared_hold(m: Memory, view: AccountView)
    requires
        view.slot < m.len(),
    ensures
        can_take(m, shared_hold(view)) <==> m[view.slot as int].borrow_state > 1,
        m[view.slot as int].borrow_state > 0 ==> taken(m, shared_hold(view)) == with_borrow_state(
            m,
            view.slot as int,
            (m[view.slot as int].borrow_state - 1) as u8,
        ),
        held(m, shared_hold(view)) <==> 0 < m[view.slot as int].borrow_state < NOT_BORROWED,
        m[view.slot as int].borrow_state < NOT_BORROWED ==> freed(m, shared_hold(view))
            == with_borrow_state(
            m,
            view.slot as int,
            (m[view.slot as int].borrow_state + 1) as u8,
        ),
{
    let h = shared_hold(view);
    let at = view.slot as int;
    assert(shared_on(h, at) == 1 && exclusive_on(h, at) == 0);
    if can_take(m, h) {
        assert(grantable(m[at].borrow_state, exclusive_on(h, at), shared_on(h, at)));
    }
    if held(m, h) {
        assert(covers(m[at].borrow_state, exclusive_on(h, at), shared_on(h, at)));
    }
    if m[at].borrow_state > 0 {
        assert(taken(m, h) =~= with_borrow_state(m, at, (m[at].borrow_state - 1) as u8));
    }
    if m[at].borrow_state < NOT_BORROWED {
        assert(freed(m, h) =~= with_borrow_state(m, at, (m[at].borrow_state + 1) as u8));
    }
}

/// What one exclusive borrow asks for and does.
pub proof fn lemma_exclusive_hold(m: Memory, view: AccountView)
    requires
        view.slot < m.len(),
    ensures
        can_take(m, exclusive_hold(view)) <==> m[view.slot as int].borrow_state == NOT_BORROWED,
        taken(m, exclusive_hold(view)) == with_borrow_state(m, view.slot as int, 0),
        held(m, exclusive_hold(view)) <==> m[view.slot as int].borrow_state == 0,
        freed(m, exclusive_hold(view)) == with_borrow_state(m, view.slot as int, NOT_BORROWED),
{
    let h = exclusive_hold(view);
    let at = view.slot as int;
    assert(shared_on(h, at) == 0 && exclusive_on(h, at) == 1);
    if can_take(m, h) {
        assert(grantable(m[at].borrow_state, exclusive_on(h, at), shared_on(h, at)));
    }
    if held(m, h) {
        assert(covers(m[at].borrow_state, exclusive_on(h, at), shared_on(h, at)));
    }
    assert(taken(m, h) =~= with_borrow_state(m, at, 0));
    assert(freed(m, h) =~= with_borrow_state(m, at, NOT_BORROWED));
}

/// Holding nothing asks for nothing and changes nothing.
pub proof fn lemma_no_holds(m: Memory)
    ensures
        can_take(m, Multiset::empty()),
        taken(m, Multiset::empty()) == m,
        held(m, Multiset::empty()),
        freed(m, Multiset::empty()) == m,
{
    assert(taken(m, Multiset::empty()) =~= m);
    assert(freed(m, Multiset::empty()) =~= m);
}

/// Something that may hold borrows of account data.
pub trait Held: Sized {
    /// The borrows that are held.
    spec fn holds(&self) -> Multiset<Hold>;

    /// What the typed access to the accounts relies on.
    spec fn live(&self, m: Memory) -> bool;

    /// [`Self::live`] depends on nothing but the lengths of the accounts' data.
    proof fn lemma_live_stays(&self, m: Memory, n: Memory)
        requires
            self.live(m),
            same_shape(m, n),
        ensures
            self.live(n),
    ;
}

/// A holder that gives its borrows back when it is done with.
pub trait Release: Held {
    /// Gives all borrows back.
    fn release(self, memory: &mut AccountMemory)
        requires
            held(old(memory)@, self.holds()),
        ensures
            final(memory)@ == freed(old(memory)@, self.holds()),
    ;
}

/// A view of an account: the slot it occupies. Copies of a view, and views of one
/// account that were obtained in different ways, share the slot.
#[derive(Clone, Copy, Debug, PartialEq, Eq, Structural)]
pub struct AccountView {
    pub slot: usize,
}

/// The accounts of one instruction.
pub struct AccountMemory {
    pub accounts: Vec<RuntimeAccount>,
}

impl View for AccountMemory {
    type V = Memory;

    open spec fn view(&self) -> Memory {
        self.accounts@.map_values(|a: RuntimeAccount| a@)
    }
}

impl AccountMemory {
    /// A memory without accounts.
    pub fn new() -> (memory: AccountMemory)
        ensures
            memory@ == Seq::<AccountModel>::empty(),
    {
        AccountMemory { accounts: Vec::new() }
    }

    /// Adds an account in a slot of its own.
    pub fn push(&mut self, account: RuntimeAccount) -> (view: AccountView)
        ensures
            final(self)@ == old(self)@.push(account@),
            view.slot == old(self)@.len(),
    {
        let slot: usize = self.accounts.len();
        self.accounts.push(account);
        assert(self@ =~= old(self)@.push(account@));
        AccountView { slot }
    }

    /// The number of slots.
    pub fn len(&self) -> (n: usize)
        ensures
            n == self@.len(),
    {
        self.accounts.len()
    }

    /// The account that a view names.
    pub fn account(&self, view: AccountView) -> (account: &RuntimeAccount)
        requires
            view.slot < self@.len(),
        ensures
            account@ == self@[view.slot as int],
    {
        &self.accounts[view.slot]
    }

    pub(crate) fn set_borrow_state(&mut self, view: AccountView, borrow_state: u8)
        requires
            view.slot < old(self)@.len(),
        ensures
            final(self)@ == with_borrow_state(old(self)@, view.slot as int, borrow_state),
    {
        let account = &mut self.accounts[view.slot];
        account.borrow_state = borrow_state;
        assert(self@ =~= with_borrow_state(old(self)@, view.slot as int, borrow_state));
    }

    /// The account's data, to be changed.
    pub fn data_mut(&mut self, view: AccountView) -> (data: &mut Vec<u8>)
        requires
            view.slot < old(self)@.len(),
        ensures
            data@ == old(self)@[view.slot as int].data,
            final(self)@ =~= with_data(old(self)@, view.slot as int, final(data)@),
    {
        &mut self.accounts[view.slot].data
    }

    /// Writes `bytes` over the account's data from `at` on.
    pub fn write(&mut self, view: AccountView, at: usize, bytes: &[u8])
        requires
            view.slot < old(self)@.len(),
            at + bytes.len() <= old(self)@[view.slot as int].data.len(),
        ensures
            final(self)@ == with_data(
                old(self)@,
                view.slot as int,
                overwrite(old(self)@[view.slot as int].data, at as int, bytes@),
            ),
    {
        write_at(self.data_mut(view), at, bytes);
    }

    /// Replaces what another program may change of an account: its balance, its owner
    /// and its data.
    pub fn update(&mut self, view: AccountView, lamports: u64, owner: Address, data: Vec<u8>)
        requires
            view.slot < old(self)@.len(),
        ensures
            final(self)@ == with_account(
                old(self)@,
                view.slot as int,
                (AccountModel {
                    lamports,
                    owner: owner@,
                    data: data@,
                    ..old(self)@[view.slot as int]
                }),
            ),
    {
        let ghost before = self@;
        let account = &mut self.accounts[view.slot];
        account.lamports = lamports;
        account.owner = owner;
        account.data = data;
        assert(self@ =~= with_account(
            before,
            view.slot as int,
            AccountModel { lamports, owner: owner@, data: data@, ..before[view.slot as int] },
        ));
    }
}

} // verus!
