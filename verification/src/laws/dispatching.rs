//! What dispatch promises, told by positions and borrow states.

use crate::accounts::compose::load_outcome;
use crate::cursor::CursorModel;
use crate::dispatch::{no_borrow_left, past_declared, steady, views_within, walkable};
use crate::memory::{can_take, freed, held, settled, taken, AccountView, Held, Memory};
use solana_program_error::ProgramError;
use vstd::prelude::*;

verus! {

/// An instruction that lists no remaining accounts leaves the cursor after the declared
/// ones, and one that has too few accounts leaves it where it was.
pub proof fn law_where_the_cursor_is_left(
    c: CursorModel,
    m: Memory,
    declared: nat,
    num_accounts: usize,
)
    ensures
        num_accounts < declared ==> past_declared(c, m, declared, num_accounts) == c,
        num_accounts >= declared ==> past_declared(c, m, declared, num_accounts) == c.walked(
            m,
            declared,
        ),
        num_accounts >= declared && walkable(c, m, declared, num_accounts) ==> c.can_walk(
            num_accounts as nat,
        ),
{
}

/// No borrow is left where every account that was there has its borrow state again, and
/// every account that was added has state 255.
pub proof fn law_no_borrow_is_left(before: Seq<u8>, after: Seq<u8>, i: int)
    requires
        no_borrow_left(before, after),
        0 <= i < after.len(),
    ensures
        before.len() <= after.len(),
        after[i] == if i < before.len() {
            before[i]
        } else {
            255
        },
{
}

/// A steady handler leaves its accounts usable, with the borrows they hold accounted for,
/// and every account with the borrow state it comes to once they are given back.
pub proof fn law_steady_accounts<T: Held>(before: T, m: Memory, after: T, n: Memory, i: int)
    requires
        steady(before, m, after, n),
        0 <= i < m.len(),
    ensures
        after.live(n),
        held(n, after.holds()),
        n.len() == m.len(),
        freed(n, after.holds())[i].borrow_state == freed(m, before.holds())[i].borrow_state,
{
    assert(settled(n, after.holds()).len() == n.len());
    assert(settled(m, before.holds()).len() == m.len());
    assert(settled(n, after.holds())[i] == freed(n, after.holds())[i].borrow_state);
    assert(settled(m, before.holds())[i] == freed(m, before.holds())[i].borrow_state);
}

/// Loading takes exactly the borrows of what it gives, which could be taken, and changes
/// nothing where it fails.
pub proof fn law_loading_takes_what_it_gives<H: Held>(
    m: Memory,
    r: Result<H, ProgramError>,
    n: Memory,
    views: Seq<AccountView>,
    k: int,
)
    requires
        load_outcome(m, r, n),
    ensures
        r matches Ok(h) ==> can_take(m, h.holds()) && n == taken(m, h.holds()) && freed(
            n,
            h.holds(),
        ) == m,
        r is Err ==> n == m,
        views_within(views, m) && 0 <= k < views.len() ==> views[k].slot < m.len(),
{
}

} // verus!
