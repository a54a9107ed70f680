//! The context that every handler receives.

use crate::address::Address;
use crate::cursor::AccountCursor;
use crate::memory::{AccountMemory, AccountView, Memory};
use vstd::prelude::*;

verus! {

/// Trait linking an accounts struct to the struct of its bumps.
pub trait Bumps {
    type Bumps;
}

/// Instruction-scoped context passed to every handler: the declared accounts, the
/// program id, the bumps of program addresses, and what is needed to list the
/// accounts that follow the declared ones.
pub struct Context<'a, T: Bumps> {
    /// The program that runs.
    pub program_id: &'a Address,
    /// The declared accounts.
    pub accounts: T,
    /// Bump seeds found while the accounts were validated.
    pub bumps: T::Bumps,
    /// The accounts after the declared ones, listed or yet to be listed.
    pub remaining_accounts: RemainingAccounts<'a>,
}

/// The accounts after the declared ones.
pub enum RemainingAccounts<'a> {
    /// Not walked yet.
    Unparsed {
        /// Stands at the first account after the declared ones.
        cursor: &'a mut AccountCursor,
        /// How many accounts follow.
        remaining: u8,
    },
    /// Walked once; the views that the walk yielded.
    Cached(Vec<AccountView>),
}

impl<'a> RemainingAccounts<'a> {
    /// Whether the accounts can be listed in `m`.
    pub open spec fn can_list(self, m: Memory) -> bool {
        match self {
            RemainingAccounts::Unparsed { cursor, remaining } => cursor@.can_walk(remaining as nat)
                && cursor@.within(m),
            RemainingAccounts::Cached(views) => forall|k: int|
                0 <= k < views@.len() ==> (#[trigger] views@[k]).slot < m.len(),
        }
    }

    /// The views of the accounts.
    pub open spec fn listed(self, m: Memory) -> Seq<AccountView> {
        match self {
            RemainingAccounts::Unparsed { cursor, remaining } => cursor@.walked_views(
                m,
                remaining as nat,
            ),
            RemainingAccounts::Cached(views) => views@,
        }
    }

    /// The memory once the accounts are listed.
    pub open spec fn listed_memory(self, m: Memory) -> Memory {
        match self {
            RemainingAccounts::Unparsed { cursor, remaining } => cursor@.walked_memory(
                m,
                remaining as nat,
            ),
            RemainingAccounts::Cached(views) => m,
        }
    }
}

/// Once listed, the accounts stay as they were listed: listing them again yields the
/// same views in whatever memory, and changes nothing.
pub proof fn law_listing_is_cached<'a, 'b>(
    before: RemainingAccounts<'a>,
    after: RemainingAccounts<'b>,
    m: Memory,
    later: Memory,
)
    requires
        after matches RemainingAccounts::Cached(views) && views@ == before.listed(m),
    ensures
        after.listed(later) == before.listed(m),
        after.listed_memory(later) == later,
{
}

impl<'a, T: Bumps> Context<'a, T> {
    /// A context whose remaining accounts are not listed yet.
    pub fn new(
        program_id: &'a Address,
        accounts: T,
        bumps: T::Bumps,
        cursor: &'a mut AccountCursor,
        remaining_num: u8,
    ) -> (context: Self)
        ensures
            context.program_id == program_id,
            context.accounts == accounts,
            context.bumps == bumps,
            context.remaining_accounts matches RemainingAccounts::Unparsed {
                cursor: c,
                remaining,
            } && remaining == remaining_num && *c == *old(cursor) && *final(c) == *final(cursor),
    {
        Context {
            program_id,
            accounts,
            bumps,
            remaining_accounts: RemainingAccounts::Unparsed { cursor, remaining: remaining_num },
        }
    }

    /// The accounts beyond the declared ones. The first call walks the cursor and keeps
    /// the views; later calls return the views that were kept.
    ///
    /// A trailing account can alias a declared account. The views are raw, so aliasing
    /// is rejected only when a conflicting borrow is taken: loading a view through an
    /// account wrapper, borrowing its data, or passing it to another program fails
    /// while a declared wrapper holds a conflicting borrow of the same account.
    pub fn remaining_accounts(&mut self, memory: &mut AccountMemory) -> (views: Vec<AccountView>)
        requires
            old(self).remaining_accounts.can_list(old(memory)@),
        ensures
            views@ == old(self).remaining_accounts.listed(old(memory)@),
            final(memory)@ == old(self).remaining_accounts.listed_memory(old(memory)@),
            final(self).remaining_accounts matches RemainingAccounts::Cached(kept) && kept@
                == views@,
            final(self).remaining_accounts.can_list(final(memory)@),
            final(self).program_id == old(self).program_id,
            final(self).accounts == old(self).accounts,
            final(self).bumps == old(self).bumps,
            old(self).remaining_accounts matches RemainingAccounts::Unparsed { cursor, remaining }
                ==> final(cursor)@ == cursor@.walked(old(memory)@, remaining as nat),
    {
        if let RemainingAccounts::Unparsed { cursor, remaining } = &mut self.remaining_accounts {
            let n: usize = *remaining as usize;
            let views = cursor.walk_n(memory, n);
            self.remaining_accounts = RemainingAccounts::Cached(views);
        }
        match &self.remaining_accounts {
            RemainingAccounts::Cached(views) => {
                let copy = views.clone();
                assert(copy@ =~= views@);
                copy
            },
            RemainingAccounts::Unparsed { .. } => {
                assert(false);
                Vec::new()
            },
        }
    }
}

} // verus!
