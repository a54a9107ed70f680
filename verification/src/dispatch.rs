//! Loading the declared accounts of an instruction and running its handler.

use crate::accounts::fields::{
    compatible, conflict, each_loads, fitting, law_compatible_aliases_are_accepted,
    law_conflicting_alias_is_refused, Declared,
};
use crate::address::Address;
use crate::context::{Bumps, Context, RemainingAccounts};
use crate::cursor::{
    law_walk_continues, law_walk_only_adds_unborrowed_accounts, law_walk_remembers_views,
    lemma_walk_fewer, AccountCursor, CursorModel,
};
use crate::error::ErrorCode;
use crate::memory::{
    borrow_states, freed, held, settled, taken, AccountMemory, AccountView, Held, Memory, Release,
    NOT_BORROWED,
};
use solana_program_error::ProgramError;
use vstd::prelude::*;

verus! {

/// All views are of accounts of `m`.
pub open spec fn views_within(views: Seq<AccountView>, m: Memory) -> bool {
    forall|k: int| 0 <= k < views.len() ==> (#[trigger] views[k]).slot < m.len()
}

/// How loading accounts without bumps or arguments relates to what it should give: the
/// same accounts, with exactly their borrows taken, or the same error, with the memory
/// as it was.
pub open spec fn loaded_as<T: Held>(
    m: Memory,
    expected: Result<T, ProgramError>,
    r: Result<(T, (), ()), ProgramError>,
    n: Memory,
) -> bool {
    match expected {
        Ok(accounts) => r == Ok::<(T, (), ()), ProgramError>((accounts, (), ())) && n == taken(
            m,
            accounts.holds(),
        ),
        Err(e) => r == Err::<(T, (), ()), ProgramError>(e) && n == m,
    }
}

/// A struct of declared accounts.
///
/// `try_accounts` receives the views of the declared accounts, walked in one go by
/// [`run_handler`], so a nested struct loads from a part of them.
///
/// `HEADER_SIZE` is the number of accounts that the struct takes: one for each field
/// of its own, and those of each nested struct.
///
/// Whatever the struct, loading leaves behind exactly the borrows that the loaded
/// accounts hold, and none where it fails.
pub trait TryAccounts: Bumps + Release {
    const HEADER_SIZE: usize;

    /// Parsed instruction arguments carried alongside the loaded accounts.
    type IxArgs<'ix>;

    /// Loads the accounts, checks their constraints and runs their updates.
    fn try_accounts<'ix>(
        program_id: &Address,
        memory: &mut AccountMemory,
        views: &[AccountView],
        ix_data: &'ix [u8],
    ) -> (r: Result<(Self, Self::Bumps, Self::IxArgs<'ix>), ProgramError>)
        requires
            views@.len() == Self::HEADER_SIZE,
            views_within(views@, old(memory)@),
        ensures
            match r {
                Ok((accounts, bumps, args)) => {
                    &&& accounts.live(final(memory)@)
                    &&& held(final(memory)@, accounts.holds())
                    &&& settled(final(memory)@, accounts.holds()) == borrow_states(old(memory)@)
                },
                Err(_) => borrow_states(final(memory)@) == borrow_states(old(memory)@),
            },
    ;

    /// Loads the accounts and checks their constraints, without running updates.
    fn validate_accounts<'ix>(
        program_id: &Address,
        memory: &mut AccountMemory,
        views: &[AccountView],
        ix_data: &'ix [u8],
    ) -> (r: Result<(Self, Self::Bumps, Self::IxArgs<'ix>), ProgramError>)
        requires
            views@.len() == Self::HEADER_SIZE,
            views_within(views@, old(memory)@),
        ensures
            match r {
                Ok((accounts, bumps, args)) => {
                    &&& accounts.live(final(memory)@)
                    &&& held(final(memory)@, accounts.holds())
                    &&& settled(final(memory)@, accounts.holds()) == borrow_states(old(memory)@)
                },
                Err(_) => borrow_states(final(memory)@) == borrow_states(old(memory)@),
            },
        default_ensures
            exists|m: &mut AccountMemory|
                *m == *old(memory) && *final(m) == *final(memory) && #[trigger] call_ensures(
                    Self::try_accounts,
                    (program_id, m, views, ix_data),
                    r,
                ),
    {
        Self::try_accounts(program_id, memory, views, ix_data)
    }

    /// Runs the updates that the fields ask for.
    fn update_accounts(&mut self, memory: &mut AccountMemory) -> (r: Result<(), ProgramError>)
        requires
            old(self).live(old(memory)@),
            held(old(memory)@, old(self).holds()),
        ensures
            final(self).live(final(memory)@),
            held(final(memory)@, final(self).holds()),
            settled(final(memory)@, final(self).holds()) == settled(
                old(memory)@,
                old(self).holds(),
            ),
    ;

    /// Writes back what the fields keep in memory.
    fn exit_accounts<'ix>(
        &mut self,
        memory: &mut AccountMemory,
        ix_data: &'ix [u8],
    ) -> (r: Result<(), ProgramError>)
        requires
            old(self).live(old(memory)@),
            held(old(memory)@, old(self).holds()),
        ensures
            r is Ok ==> final(self).live(final(memory)@),
            held(final(memory)@, final(self).holds()),
            settled(final(memory)@, final(self).holds()) == settled(
                old(memory)@,
                old(self).holds(),
            ),
    ;
}

/// Accounts that are validated by being tried: they keep the validation that
/// [`TryAccounts`] provides.
pub trait ValidatedByTrying: TryAccounts {
    /// What validating gives and does to the memory is what one call of `try_accounts`
    /// with the same arguments gives and does.
    proof fn law_validating_is_trying<'ix>()
        ensures
            forall|
                program_id: &Address,
                m: &mut AccountMemory,
                views: &[AccountView],
                ix_data: &'ix [u8],
                r: Result<(Self, Self::Bumps, Self::IxArgs<'ix>), ProgramError>,
            | #[trigger]
                call_ensures(Self::validate_accounts, (program_id, m, views, ix_data), r)
                    ==> exists|n: &mut AccountMemory|
                    *n == *m && *final(n) == *final(m) && #[trigger] call_ensures(
                        Self::try_accounts,
                        (program_id, n, views, ix_data),
                        r,
                    ),
    ;
}

/// Accounts that are tried by being validated and then updated.
pub trait TriedByValidating: TryAccounts {
    /// On the same inputs, where validating fails, trying fails with the same error and
    /// leaves the same memory: no update has run. Where validating succeeds, trying gives
    /// what one run of the updates makes of the validated accounts; where an update fails,
    /// trying fails with its error and the borrows are given back.
    proof fn law_trying_is_validating_and_updating<'ix>()
        ensures
            forall|
                program_id: &Address,
                m: &mut AccountMemory,
                n: &mut AccountMemory,
                views: &[AccountView],
                ix_data: &'ix [u8],
                valid: Result<(Self, Self::Bumps, Self::IxArgs<'ix>), ProgramError>,
                tried: Result<(Self, Self::Bumps, Self::IxArgs<'ix>), ProgramError>,
            |
                m@ == n@ && views@.len() == Self::HEADER_SIZE && views_within(views@, m@)
                    && #[trigger] call_ensures(
                    Self::validate_accounts,
                    (program_id, m, views, ix_data),
                    valid,
                ) && #[trigger] call_ensures(
                    Self::try_accounts,
                    (program_id, n, views, ix_data),
                    tried,
                ) ==> match valid {
                    Err(e) => {
                        &&& tried == Err::<(Self, Self::Bumps, Self::IxArgs<'ix>), ProgramError>(e)
                        &&& final(n)@ == final(m)@
                    },
                    Ok((accounts, bumps, args)) => forall|
                        a: &mut Self,
                        k: &mut AccountMemory,
                        u: Result<(), ProgramError>,
                    |
                        *a == accounts && k@ == final(m)@ && #[trigger] call_ensures(
                            Self::update_accounts,
                            (a, k),
                            u,
                        ) ==> match u {
                            Ok(_) => {
                                &&& tried == Ok::<_, ProgramError>((*final(a), bumps, args))
                                &&& final(n)@ == final(k)@
                            },
                            Err(e) => {
                                &&& tried == Err::<
                                    (Self, Self::Bumps, Self::IxArgs<'ix>),
                                    ProgramError,
                                >(e)
                                &&& final(n)@ == freed(final(k)@, final(a).holds())
                            },
                        },
                },
    ;
}

/// Accounts that are validated field by field.
pub trait ValidatedByFields: TryAccounts + Declared {
    /// Validating gives what loading the fields in order, and checking them, gives. It takes
    /// exactly the borrows of what it gives, and none where it fails.
    proof fn lemma_validated_by_fields<'ix>()
        ensures
            Self::HEADER_SIZE == Self::width(),
            forall|
                program_id: &Address,
                m: &mut AccountMemory,
                views: &[AccountView],
                ix_data: &'ix [u8],
                r: Result<(Self, Self::Bumps, Self::IxArgs<'ix>), ProgramError>,
            | #[trigger]
                call_ensures(Self::validate_accounts, (program_id, m, views, ix_data), r)
                    ==> match Self::declared(program_id@, m@, views@) {
                    Ok(accounts) => {
                        &&& r matches Ok(loaded)
                        &&& loaded.0 == accounts
                        &&& final(m)@ == taken(m@, accounts.holds())
                    },
                    Err(e) => {
                        &&& r == Err::<(Self, Self::Bumps, Self::IxArgs<'ix>), ProgramError>(e)
                        &&& final(m)@ == m@
                    },
                },
    ;
}

/// Validation refuses aliases that conflict: where every field loads alone, but two expose
/// the data of one account and at least one of them is to write it, the error is that the
/// data is borrowed, in either order of the two.
pub proof fn law_validation_refuses_conflicting_aliases<'ix, T: ValidatedByFields>()
    ensures
        forall|
            program_id: &Address,
            m: &mut AccountMemory,
            views: &[AccountView],
            ix_data: &'ix [u8],
            r: Result<(T, T::Bumps, T::IxArgs<'ix>), ProgramError>,
            i: int,
            j: int,
        |
            #![trigger
                call_ensures(T::validate_accounts, (program_id, m, views, ix_data), r),
                conflict(T::fields(program_id@, views@), m@, views@, i, j)]
            call_ensures(T::validate_accounts, (program_id, m, views, ix_data), r) && fitting::<T>(
                m@,
                views@,
            ) && each_loads(m@, T::fields(program_id@, views@)) && conflict(
                T::fields(program_id@, views@),
                m@,
                views@,
                i,
                j,
            ) ==> r == Err::<(T, T::Bumps, T::IxArgs<'ix>), ProgramError>(
                ProgramError::AccountBorrowFailed,
            ) && final(m)@ == m@,
{
    T::lemma_validated_by_fields();
    assert forall|
        program_id: &Address,
        m: &mut AccountMemory,
        views: &[AccountView],
        ix_data: &'ix [u8],
        r: Result<(T, T::Bumps, T::IxArgs<'ix>), ProgramError>,
        i: int,
        j: int,
    |
        #![trigger
            call_ensures(T::validate_accounts, (program_id, m, views, ix_data), r),
            conflict(T::fields(program_id@, views@), m@, views@, i, j)]
        call_ensures(T::validate_accounts, (program_id, m, views, ix_data), r) && fitting::<T>(
            m@,
            views@,
        ) && each_loads(m@, T::fields(program_id@, views@)) && conflict(
            T::fields(program_id@, views@),
            m@,
            views@,
            i,
            j,
        ) implies r == Err::<(T, T::Bumps, T::IxArgs<'ix>), ProgramError>(
        ProgramError::AccountBorrowFailed,
    ) && final(m)@ == m@ by {
        law_conflicting_alias_is_refused::<T>(program_id@, m@, views@, i, j);
    }
}

/// Validation accepts aliases that do not conflict: where every field loads alone, the
/// struct's own checks pass, and of any two fields of one account one exposes no data or is
/// absent, or both only read it, it succeeds, in whatever order the fields stand.
pub proof fn law_validation_accepts_compatible_aliases<'ix, T: ValidatedByFields>()
    ensures
        forall|
            program_id: &Address,
            m: &mut AccountMemory,
            views: &[AccountView],
            ix_data: &'ix [u8],
            r: Result<(T, T::Bumps, T::IxArgs<'ix>), ProgramError>,
        | #[trigger]
            call_ensures(T::validate_accounts, (program_id, m, views, ix_data), r) && fitting::<T>(
                m@,
                views@,
            ) && each_loads(m@, T::fields(program_id@, views@)) && T::constrained(
                program_id@,
                m@,
                views@,
            ) is Ok && compatible(T::fields(program_id@, views@), m@, views@) ==> r is Ok,
{
    T::lemma_validated_by_fields();
    assert forall|
        program_id: &Address,
        m: &mut AccountMemory,
        views: &[AccountView],
        ix_data: &'ix [u8],
        r: Result<(T, T::Bumps, T::IxArgs<'ix>), ProgramError>,
    | #[trigger]
        call_ensures(T::validate_accounts, (program_id, m, views, ix_data), r) && fitting::<T>(
            m@,
            views@,
        ) && each_loads(m@, T::fields(program_id@, views@)) && T::constrained(
            program_id@,
            m@,
            views@,
        ) is Ok && compatible(T::fields(program_id@, views@), m@, views@) implies r is Ok by {
        law_compatible_aliases_are_accepted::<T>(program_id@, m@, views@);
    }
}

/// What a handler can rely on: its accounts are usable, the memory accounts for the
/// borrows they hold, and the remaining accounts can be listed.
pub open spec fn ready<'a, T: TryAccounts>(context: Context<'a, T>, m: Memory) -> bool {
    &&& context.accounts.live(m)
    &&& held(m, context.accounts.holds())
    &&& context.remaining_accounts.can_list(m)
}

/// How a handler leaves its accounts: usable, with the memory accounting for the
/// borrows they hold, and coming to the same borrow states once they are given back.
pub open spec fn steady<T: Held>(before: T, m: Memory, after: T, n: Memory) -> bool {
    &&& after.live(n)
    &&& held(n, after.holds())
    &&& settled(n, after.holds()) == settled(m, before.holds())
}

/// Borrow states after something that left no borrow behind: those of the accounts
/// that were there are the same, and nobody borrows an account that was added.
pub open spec fn no_borrow_left(before: Seq<u8>, after: Seq<u8>) -> bool {
    &&& before.len() <= after.len()
    &&& forall|i: int| 0 <= i < before.len() ==> #[trigger] after[i] == before[i]
    &&& forall|i: int| before.len() <= i < after.len() ==> #[trigger] after[i] == NOT_BORROWED
}

/// A walk leaves no borrow behind.
pub proof fn lemma_walk_leaves_no_borrow(c: CursorModel, m: Memory, n: nat)
    ensures
        no_borrow_left(borrow_states(m), borrow_states(c.walked_memory(m, n))),
{
    law_walk_only_adds_unborrowed_accounts(c, m, n);
    let r = c.walked_memory(m, n);
    assert forall|i: int| 0 <= i < m.len() implies #[trigger] borrow_states(r)[i]
        == borrow_states(m)[i] by {
        assert(r.take(m.len() as int)[i] == r[i]);
    }
}

/// The declared accounts and the remaining ones are together all accounts of the input, in
/// order: none is lost and none is read twice. Listing the remaining ones moves the cursor
/// from past the declared accounts to past all of them.
pub proof fn law_every_account_is_walked_once(
    c: CursorModel,
    m: Memory,
    declared: nat,
    remaining: nat,
)
    ensures
        ({
            let d = c.walked(m, declared);
            let n = c.walked_memory(m, declared);
            &&& c.walked_views(m, declared + remaining) == c.walked_views(m, declared)
                + d.walked_views(n, remaining)
            &&& c.walked_views(m, declared).len() == declared
            &&& d.walked_views(n, remaining).len() == remaining
            &&& d.lookup.len() == c.lookup.len() + declared
            &&& d.walked(n, remaining) == c.walked(m, declared + remaining)
            &&& c.walked(m, declared + remaining).lookup.len() == c.lookup.len() + declared
                + remaining
        }),
{
    law_walk_continues(c, m, declared, remaining);
    law_walk_remembers_views(c, m, declared);
    law_walk_remembers_views(c.walked(m, declared), c.walked_memory(m, declared), remaining);
}

/// The serialized accounts can be walked as far as an instruction walks them.
pub open spec fn walkable(
    cursor: CursorModel,
    m: Memory,
    declared: nat,
    num_accounts: usize,
) -> bool {
    &&& num_accounts >= declared ==> cursor.can_walk(num_accounts as nat)
    &&& cursor.within(m)
}

/// Where an instruction that asks for none of its remaining accounts leaves the cursor:
/// past the declared accounts, or where it was if there are too few.
pub open spec fn past_declared(
    cursor: CursorModel,
    m: Memory,
    declared: nat,
    num_accounts: usize,
) -> CursorModel {
    if num_accounts < declared {
        cursor
    } else {
        cursor.walked(m, declared)
    }
}

/// Runs a handler inside a fully constructed [`Context`].
///
/// Walks all declared accounts at once, then loads and checks them. The cursor, past
/// the declared accounts, goes into the context for the remaining ones. When the
/// handler has succeeded, the accounts write back what they keep in memory. In the
/// end, and wherever a step fails, the accounts give their borrows back.
pub fn run_handler<'a, T: TryAccounts, R>(
    program_id: &'a Address,
    memory: &mut AccountMemory,
    cursor: &'a mut AccountCursor,
    ix_data: &'a [u8],
    num_accounts: usize,
    handler: impl FnOnce(&mut Context<'a, T>, &mut AccountMemory, T::IxArgs<'a>) -> Result<
        R,
        ProgramError,
    >,
) -> (r: Result<R, ProgramError>)
    requires
        num_accounts >= T::HEADER_SIZE ==> old(cursor)@.can_walk(num_accounts as nat),
        old(cursor)@.within(old(memory)@),
        forall|c: &mut Context<'a, T>, m: &mut AccountMemory, args: T::IxArgs<'a>|
            ready(*c, m@) && (exists|m1: &mut AccountMemory, views: &[AccountView]|
                final(m1)@ == m@ && #[trigger] call_ensures(
                    T::validate_accounts,
                    (program_id, m1, views, ix_data),
                    Ok::<_, ProgramError>((c.accounts, c.bumps, args)),
                )) ==> #[trigger] handler.requires((c, m, args)),
        forall|
            c: &mut Context<'a, T>,
            m: &mut AccountMemory,
            args: T::IxArgs<'a>,
            x: Result<R, ProgramError>,
        | #[trigger]
            handler.ensures((c, m, args), x) ==> final(c).accounts.live(final(m)@) && held(
                final(m)@,
                final(c).accounts.holds(),
            ),
    ensures
        num_accounts < T::HEADER_SIZE ==> {
            &&& r == Err::<R, ProgramError>(ErrorCode::AccountNotEnoughKeys.program_error())
            &&& final(memory)@ == old(memory)@
            &&& final(cursor)@ == old(cursor)@
        },
        num_accounts >= T::HEADER_SIZE ==> exists|
            m1: &mut AccountMemory,
            views: &[AccountView],
            v: Result<(T, T::Bumps, T::IxArgs<'a>), ProgramError>,
        |
            {
                &&& m1@ == old(cursor)@.walked_memory(old(memory)@, T::HEADER_SIZE as nat)
                &&& views@ == old(cursor)@.walked_views(old(memory)@, T::HEADER_SIZE as nat)
                &&& views_within(views@, m1@)
                &&& #[trigger] call_ensures(
                    T::validate_accounts,
                    (program_id, m1, views, ix_data),
                    v,
                )
                &&& match v {
                    Err(e) => r == Err::<R, ProgramError>(e) && final(memory)@ == final(m1)@
                        && final(cursor)@ == old(cursor)@.walked(
                        old(memory)@,
                        T::HEADER_SIZE as nat,
                    ),
                    Ok((accounts, bumps, args)) => exists|
                        c: &mut Context<'a, T>,
                        m2: &mut AccountMemory,
                        x: Result<R, ProgramError>,
                    |
                        {
                            &&& c.program_id == program_id
                            &&& c.accounts == accounts
                            &&& c.bumps == bumps
                            &&& c.remaining_accounts matches RemainingAccounts::Unparsed {
                                cursor: rest,
                                remaining,
                            } && rest@ == old(cursor)@.walked(
                                old(memory)@,
                                T::HEADER_SIZE as nat,
                            ) && final(rest)@ == final(cursor)@ && remaining == (num_accounts
                                - T::HEADER_SIZE) % 256
                            &&& m2@ == final(m1)@
                            &&& #[trigger] handler.ensures((c, m2, args), x)
                            &&& final(c).remaining_accounts matches RemainingAccounts::Unparsed {
                                cursor: left,
                                ..
                            } ==> *final(left) == *left
                            &&& match x {
                                Err(e) => r == Err::<R, ProgramError>(e) && final(memory)@ == freed(
                                    final(m2)@,
                                    final(c).accounts.holds(),
                                ),
                                Ok(result) => exists|
                                    a: &mut T,
                                    m3: &mut AccountMemory,
                                    end: Result<(), ProgramError>,
                                |
                                    {
                                        &&& *a == final(c).accounts
                                        &&& m3@ == final(m2)@
                                        &&& #[trigger] call_ensures(
                                            T::exit_accounts,
                                            (a, m3, ix_data),
                                            end,
                                        )
                                        &&& final(memory)@ == freed(final(m3)@, final(a).holds())
                                        &&& r == match end {
                                            Ok(_) => Ok::<R, ProgramError>(result),
                                            Err(e) => Err::<R, ProgramError>(e),
                                        }
                                    },
                            }
                        },
                }
            },
        (forall|
            c: &mut Context<'a, T>,
            m: &mut AccountMemory,
            args: T::IxArgs<'a>,
            x: Result<R, ProgramError>,
        | #[trigger]
            handler.ensures((c, m, args), x) ==> no_borrow_left(
                settled(m@, c.accounts.holds()),
                settled(final(m)@, final(c).accounts.holds()),
            )) ==> no_borrow_left(borrow_states(old(memory)@), borrow_states(final(memory)@)),
{
    if num_accounts < T::HEADER_SIZE {
        return Err(ErrorCode::AccountNotEnoughKeys.into());
    }
    proof {
        law_walk_continues(
            cursor@,
            memory@,
            T::HEADER_SIZE as nat,
            (num_accounts - T::HEADER_SIZE) as nat,
        );
        lemma_walk_fewer(cursor@, num_accounts as nat, T::HEADER_SIZE as nat);
        law_walk_remembers_views(cursor@, memory@, T::HEADER_SIZE as nat);
        lemma_walk_leaves_no_borrow(cursor@, memory@, T::HEADER_SIZE as nat);
    }
    let views = cursor.walk_n(memory, T::HEADER_SIZE);
    let ghost walked = memory@;
    let (accounts, bumps, ix_args) = match T::validate_accounts(
        program_id,
        memory,
        views.as_slice(),
        ix_data,
    ) {
        Ok(loaded) => loaded,
        Err(e) => {
            return Err(e);
        },
    };
    let left: usize = num_accounts - T::HEADER_SIZE;
    let remaining_num: u8 = (left % 256) as u8;
    proof {
        lemma_walk_fewer(cursor@, left as nat, remaining_num as nat);
        assert(settled(memory@, accounts.holds()).len() == memory@.len());
        assert(borrow_states(walked).len() == walked.len());
    }
    let mut context = Context::new(program_id, accounts, bumps, cursor, remaining_num);
    let result = match handler(&mut context, memory, ix_args) {
        Ok(result) => result,
        Err(e) => {
            let Context { accounts, .. } = context;
            accounts.release(memory);
            return Err(e);
        },
    };
    let end = context.accounts.exit_accounts(memory, ix_data);
    let Context { accounts, .. } = context;
    accounts.release(memory);
    match end {
        Ok(_) => Ok(result),
        Err(e) => Err(e),
    }
}

} // verus!
