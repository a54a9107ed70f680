//! Wrappers in boxes, in options and side by side.

use crate::accounts::{AnchorAccount, Exit, Wrapper};
use crate::address::Address;
use crate::memory::{
    can_take, freed, held, law_borrow_undoes_release, law_release_undoes_borrow, lemma_free_both,
    lemma_keeps_or_frees, lemma_no_holds, lemma_take_both, same_shape, settled, taken,
    AccountMemory, AccountView, Held, Hold, Memory, Release,
};
use solana_program_error::ProgramError;
use vstd::multiset::Multiset;
use vstd::prelude::*;

verus! {

impl<A: Held, B: Held> Held for (A, B) {
    open spec fn holds(&self) -> Multiset<Hold> {
        self.0.holds().add(self.1.holds())
    }

    open spec fn live(&self, m: Memory) -> bool {
        self.0.live(m) && self.1.live(m)
    }

    proof fn lemma_live_stays(&self, m: Memory, n: Memory) {
        self.0.lemma_live_stays(m, n);
        self.1.lemma_live_stays(m, n);
    }
}

impl<A: Release, B: Release> Release for (A, B) {
    fn release(self, memory: &mut AccountMemory) {
        let (a, b) = self;
        proof {
            lemma_free_both(memory@, a.holds(), b.holds());
        }
        a.release(memory);
        b.release(memory);
    }
}

impl<A: Held> Held for Option<A> {
    open spec fn holds(&self) -> Multiset<Hold> {
        match self {
            Some(a) => a.holds(),
            None => Multiset::empty(),
        }
    }

    open spec fn live(&self, m: Memory) -> bool {
        match self {
            Some(a) => a.live(m),
            None => true,
        }
    }

    proof fn lemma_live_stays(&self, m: Memory, n: Memory) {
        if let Some(a) = self {
            a.lemma_live_stays(m, n);
        }
    }
}

impl<A: Release> Release for Option<A> {
    fn release(self, memory: &mut AccountMemory) {
        match self {
            Some(a) => a.release(memory),
            None => {
                proof {
                    lemma_no_holds(memory@);
                }
            },
        }
    }
}

impl<A: Held> Held for Box<A> {
    open spec fn holds(&self) -> Multiset<Hold> {
        (**self).holds()
    }

    open spec fn live(&self, m: Memory) -> bool {
        (**self).live(m)
    }

    proof fn lemma_live_stays(&self, m: Memory, n: Memory) {
        (**self).lemma_live_stays(m, n);
    }
}

impl<A: Release> Release for Box<A> {
    fn release(self, memory: &mut AccountMemory) {
        let inner = *self;
        inner.release(memory);
    }
}

impl<A: Wrapper> Wrapper for Box<A> {
    open spec fn target(&self) -> AccountView {
        (**self).target()
    }

    open spec fn loaded(m: Memory, view: AccountView, mutable: bool) -> Result<Self, ProgramError> {
        match A::loaded(m, view, mutable) {
            Ok(a) => Ok(Box::new(a)),
            Err(e) => Err(e),
        }
    }

    open spec fn exited(&self, m: Memory) -> Exit<Self> {
        let exit = (**self).exited(m);
        Exit { result: exit.result, account: Box::new(exit.account), memory: exit.memory }
    }

    open spec fn keeps_data() -> bool {
        A::keeps_data()
    }

    open spec fn ignores_borrows() -> bool {
        A::ignores_borrows()
    }

    proof fn lemma_loaded(m: Memory, view: AccountView, mutable: bool) {
        A::lemma_loaded(m, view, mutable);
    }

    proof fn lemma_loaded_beside(m: Memory, k: Multiset<Hold>, view: AccountView, mutable: bool) {
        A::lemma_loaded_beside(m, k, view, mutable);
    }

    proof fn lemma_exited(&self, m: Memory) {
        (**self).lemma_exited(m);
    }
}

impl<A: AnchorAccount> AnchorAccount for Box<A> {
    fn load(memory: &mut AccountMemory, view: AccountView) -> (r: Result<Self, ProgramError>) {
        match A::load(memory, view) {
            Ok(a) => Ok(Box::new(a)),
            Err(e) => Err(e),
        }
    }

    fn load_mut(memory: &mut AccountMemory, view: AccountView) -> (r: Result<Self, ProgramError>) {
        match A::load_mut(memory, view) {
            Ok(a) => Ok(Box::new(a)),
            Err(e) => Err(e),
        }
    }

    fn account(&self) -> (view: AccountView) {
        (**self).account()
    }

    fn exit(&mut self, memory: &mut AccountMemory) -> (r: Result<(), ProgramError>) {
        (&mut **self).exit(memory)
    }
}

/// What loading does to the memory: exactly the borrows that were loaded are taken, and
/// none where loading failed.
pub open spec fn load_outcome<H: Held>(m: Memory, r: Result<H, ProgramError>, n: Memory) -> bool {
    match r {
        Ok(h) => {
            &&& can_take(m, h.holds())
            &&& n == taken(m, h.holds())
            &&& held(n, h.holds())
            &&& freed(n, h.holds()) == m
            &&& h.live(n)
        },
        Err(_) => n == m,
    }
}

/// Loads an account, for writing where `mutable`.
pub fn load_account<A: AnchorAccount>(
    memory: &mut AccountMemory,
    view: AccountView,
    mutable: bool,
) -> (r: Result<A, ProgramError>)
    requires
        view.slot < old(memory)@.len(),
    ensures
        r == A::loaded(old(memory)@, view, mutable),
        load_outcome(old(memory)@, r, final(memory)@),
{
    proof {
        A::lemma_loaded(memory@, view, mutable);
        if let Ok(a) = A::loaded(memory@, view, mutable) {
            law_release_undoes_borrow(memory@, a.holds());
        }
    }
    if mutable {
        A::load_mut(memory, view)
    } else {
        A::load(memory, view)
    }
}

/// What loading an optional account gives: the program's own address stands for an
/// account that is absent.
pub open spec fn optional_loaded<A: Wrapper>(
    program_id: Seq<u8>,
    m: Memory,
    view: AccountView,
    mutable: bool,
) -> Result<Option<A>, ProgramError> {
    if m[view.slot as int].address == program_id {
        Ok(None)
    } else {
        match A::loaded(m, view, mutable) {
            Ok(a) => Ok(Some(a)),
            Err(e) => Err(e),
        }
    }
}

/// Loads an optional account.
pub fn load_optional<A: AnchorAccount>(
    program_id: &Address,
    memory: &mut AccountMemory,
    view: AccountView,
    mutable: bool,
) -> (r: Result<Option<A>, ProgramError>)
    requires
        view.slot < old(memory)@.len(),
    ensures
        r == optional_loaded::<A>(program_id@, old(memory)@, view, mutable),
        load_outcome(old(memory)@, r, final(memory)@),
{
    if view.address(memory).same_as(program_id) {
        proof {
            lemma_no_holds(memory@);
        }
        return Ok(None);
    }
    match load_account::<A>(memory, view, mutable) {
        Ok(a) => Ok(Some(a)),
        Err(e) => Err(e),
    }
}

/// What loading one more account gives, where `prior` was loaded first into `m`.
pub open spec fn next_loaded<P: Held, A: Wrapper>(
    m: Memory,
    prior: Result<P, ProgramError>,
    view: AccountView,
    mutable: bool,
) -> Result<(P, A), ProgramError> {
    match prior {
        Err(e) => Err(e),
        Ok(p) => match A::loaded(taken(m, p.holds()), view, mutable) {
            Err(e) => Err(e),
            Ok(a) => Ok((p, a)),
        },
    }
}

/// Loads one more account. Where that fails, what was loaded before gives its borrows
/// back.
pub fn load_next<P: Release, A: AnchorAccount>(
    memory: &mut AccountMemory,
    prior: P,
    view: AccountView,
    mutable: bool,
) -> (r: Result<(P, A), ProgramError>)
    requires
        view.slot < old(memory)@.len(),
        held(old(memory)@, prior.holds()),
        prior.live(old(memory)@),
    ensures
        r == next_loaded::<P, A>(
            freed(old(memory)@, prior.holds()),
            Ok(prior),
            view,
            mutable,
        ),
        load_outcome(freed(old(memory)@, prior.holds()), r, final(memory)@),
{
    let ghost before = memory@;
    let ghost base = freed(before, prior.holds());
    proof {
        law_borrow_undoes_release(before, prior.holds());
    }
    match load_account::<A>(memory, view, mutable) {
        Ok(a) => {
            proof {
                lemma_take_both(base, prior.holds(), a.holds());
                law_release_undoes_borrow(base, prior.holds().add(a.holds()));
                prior.lemma_live_stays(before, memory@);
            }
            Ok((prior, a))
        },
        Err(e) => {
            prior.release(memory);
            Err(e)
        },
    }
}

/// What loading two accounts gives.
pub open spec fn pair_loaded<A: Wrapper, B: Wrapper>(
    m: Memory,
    first: (AccountView, bool),
    second: (AccountView, bool),
) -> Result<(A, B), ProgramError> {
    next_loaded::<A, B>(m, A::loaded(m, first.0, first.1), second.0, second.1)
}

/// Loads two accounts, each for writing where its flag says so.
pub fn load_pair<A: AnchorAccount, B: AnchorAccount>(
    memory: &mut AccountMemory,
    first: (AccountView, bool),
    second: (AccountView, bool),
) -> (r: Result<(A, B), ProgramError>)
    requires
        first.0.slot < old(memory)@.len(),
        second.0.slot < old(memory)@.len(),
    ensures
        r == pair_loaded::<A, B>(old(memory)@, first, second),
        load_outcome(old(memory)@, r, final(memory)@),
{
    match load_account::<A>(memory, first.0, first.1) {
        Ok(a) => load_next::<A, B>(memory, a, second.0, second.1),
        Err(e) => Err(e),
    }
}

/// What loading three accounts gives.
pub open spec fn triple_loaded<A: Wrapper, B: Wrapper, C: Wrapper>(
    m: Memory,
    first: (AccountView, bool),
    second: (AccountView, bool),
    third: (AccountView, bool),
) -> Result<((A, B), C), ProgramError> {
    next_loaded::<(A, B), C>(m, pair_loaded::<A, B>(m, first, second), third.0, third.1)
}

/// Loads three accounts, each for writing where its flag says so.
pub fn load_triple<A: AnchorAccount, B: AnchorAccount, C: AnchorAccount>(
    memory: &mut AccountMemory,
    first: (AccountView, bool),
    second: (AccountView, bool),
    third: (AccountView, bool),
) -> (r: Result<((A, B), C), ProgramError>)
    requires
        first.0.slot < old(memory)@.len(),
        second.0.slot < old(memory)@.len(),
        third.0.slot < old(memory)@.len(),
    ensures
        r == triple_loaded::<A, B, C>(old(memory)@, first, second, third),
        load_outcome(old(memory)@, r, final(memory)@),
{
    match load_pair::<A, B>(memory, first, second) {
        Ok(pair) => load_next::<(A, B), C>(memory, pair, third.0, third.1),
        Err(e) => Err(e),
    }
}

/// What writing two accounts back gives: the first one's error, or what the second
/// comes to after it.
pub open spec fn pair_exited<A: Wrapper, B: Wrapper>(
    a: A,
    b: B,
    m: Memory,
) -> Exit<(A, B)> {
    let first = a.exited(m);
    if first.result is Err {
        Exit { result: first.result, account: (first.account, b), memory: first.memory }
    } else {
        let second = b.exited(first.memory);
        Exit {
            result: second.result,
            account: (first.account, second.account),
            memory: second.memory,
        }
    }
}

/// Writes two accounts back, the second only where the first succeeded.
pub fn exit_pair<A: AnchorAccount, B: AnchorAccount>(
    a: &mut A,
    b: &mut B,
    memory: &mut AccountMemory,
) -> (r: Result<(), ProgramError>)
    requires
        old(a).live(old(memory)@),
        old(b).live(old(memory)@),
        held(old(memory)@, old(a).holds().add(old(b).holds())),
    ensures
        r == pair_exited(*old(a), *old(b), old(memory)@).result,
        (*final(a), *final(b)) == pair_exited(*old(a), *old(b), old(memory)@).account,
        final(memory)@ == pair_exited(*old(a), *old(b), old(memory)@).memory,
        final(a).live(final(memory)@),
        final(b).live(final(memory)@),
        held(final(memory)@, final(a).holds().add(final(b).holds())),
        settled(final(memory)@, final(a).holds().add(final(b).holds())) == settled(
            old(memory)@,
            old(a).holds().add(old(b).holds()),
        ),
        same_shape(old(memory)@, final(memory)@),
{
    let ghost m = memory@;
    let ghost ha = a.holds();
    let ghost hb = b.holds();
    let ghost n = a.exited(m).memory;
    let ghost ka = a.exited(m).account.holds();
    proof {
        lemma_free_both(m, ha, hb);
        a.lemma_exited(m);
        assert(ha.add(hb) =~= hb.add(ha));
        lemma_keeps_or_frees(m, ha, n, ka, hb);
        assert(hb.add(ka) =~= ka.add(hb));
        lemma_free_both(n, ka, hb);
        b.lemma_live_stays(m, n);
    }
    match a.exit(memory) {
        Err(e) => {
            return Err(e);
        },
        Ok(_) => {},
    }
    proof {
        b.lemma_exited(n);
        lemma_keeps_or_frees(n, hb, b.exited(n).memory, b.exited(n).account.holds(), ka);
        a.lemma_live_stays(n, b.exited(n).memory);
    }
    b.exit(memory)
}

} // verus!
