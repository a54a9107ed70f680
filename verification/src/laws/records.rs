//! How accounts lie in the input.

use crate::context::RemainingAccounts;
use crate::cursor::{
    has_record, has_records, law_walk_remembers_views, record, record_end, record_header,
    repeated_record, AccountCursor, CursorModel,
};
use crate::laws::bytes::law_eight_bytes_make_a_number;
use crate::le::{law_u64_round_trip, u64_le};
use crate::memory::{AccountMemory, AccountModel, AccountView, Memory};
use vstd::prelude::*;

verus! {

/// A record that begins with 255 is a new account: it takes a slot of its own, nobody
/// borrows it, and its parts lie at fixed places.
pub proof fn law_full_record_adds_an_account(c: CursorModel, m: Memory)
    requires
        c.can_walk(1),
        c.input[c.pos] == 255,
        m.len() <= usize::MAX,
    ensures
        c.next_view(m).slot == m.len(),
        ({
            let a = c.next_memory(m)[m.len() as int];
            let p = c.pos;
            let s = c.input;
            &&& c.next_memory(m) == m.push(a)
            &&& a.borrow_state == 255
            &&& a.is_signer == (s[p + 1] != 0)
            &&& a.is_writable == (s[p + 2] != 0)
            &&& a.executable == (s[p + 3] != 0)
            &&& a.address == s.subrange(p + 8, p + 40)
            &&& a.owner == s.subrange(p + 40, p + 72)
            &&& a.lamports as int == s[p + 72] + s[p + 72 + 1] * 0x100 + s[p + 72
                + 2] * 0x1_0000 + s[p + 72 + 3] * 0x100_0000 + s[p + 72 + 4] * 0x1_0000_0000
                + s[p + 72 + 5] * 0x100_0000_0000 + s[p + 72 + 6] * 0x1_0000_0000_0000 + s[p
                + 72 + 7] * 0x100_0000_0000_0000
            &&& a.data.len() == s[p + 80] + s[p + 80 + 1] * 0x100 + s[p + 80 + 2] * 0x1_0000
                + s[p + 80 + 3] * 0x100_0000 + s[p + 80 + 4] * 0x1_0000_0000 + s[p + 80
                + 5] * 0x100_0000_0000 + s[p + 80 + 6] * 0x1_0000_0000_0000 + s[p + 80
                + 7] * 0x100_0000_0000_0000
            &&& a.data == s.subrange(p + 88, p + 88 + a.data.len())
        }),
{
    reveal_with_fuel(has_records, 2);
    let p = c.pos;
    law_eight_bytes_make_a_number(c.input.subrange(p + 72, p + 80));
    law_eight_bytes_make_a_number(c.input.subrange(p + 80, p + 88));
}

/// A full record ends eight bytes after the next multiple of eight that leaves its data
/// 10240 bytes to grow.
pub proof fn law_full_record_ends_aligned(c: CursorModel, m: Memory)
    requires
        c.can_walk(1),
        c.input[c.pos] == 255,
    ensures
        ({
            let p = c.pos;
            let s = c.input;
            let used = p + 88 + (s[p + 80] + s[p + 80 + 1] * 0x100 + s[p + 80 + 2] * 0x1_0000
                + s[p + 80 + 3] * 0x100_0000 + s[p + 80 + 4] * 0x1_0000_0000 + s[p + 80
                + 5] * 0x100_0000_0000 + s[p + 80 + 6] * 0x1_0000_0000_0000 + s[p + 80
                + 7] * 0x100_0000_0000_0000) + 10240;
            let end = c.advanced(m).pos;
            &&& end % 8 == 0
            &&& used + 8 <= end < used + 16
            &&& end <= s.len()
            &&& c.advanced(m).input == s
            &&& c.advanced(m).lookup == c.lookup.push(c.next_view(m))
        }),
{
    reveal_with_fuel(has_records, 2);
    let p = c.pos;
    law_eight_bytes_make_a_number(c.input.subrange(p + 80, p + 88));
}

/// A record that does not begin with 255 is eight bytes long, adds no account and stands
/// for the view that the record with that index stood for.
pub proof fn law_repeated_record_adds_nothing(c: CursorModel, m: Memory)
    requires
        c.can_walk(1),
        c.input[c.pos] != 255,
    ensures
        c.input[c.pos] < c.lookup.len(),
        c.next_view(m) == c.lookup[c.input[c.pos] as int],
        c.next_memory(m) == m,
        c.advanced(m).pos == c.pos + 8,
        c.advanced(m).pos <= c.input.len(),
        c.advanced(m).input == c.input,
        c.advanced(m).lookup == c.lookup.push(c.next_view(m)),
{
    reveal_with_fuel(has_records, 2);
}

/// No record can always be walked. One more can be walked exactly where a whole record is
/// there, which for a repeated one means that the record it repeats came before, and
/// what follows can be walked.
pub proof fn law_what_can_be_walked(c: CursorModel, m: Memory, n: nat)
    ensures
        c.can_walk(0),
        c.can_walk(n + 1) <==> {
            let p = c.pos;
            let s = c.input;
            let used = p + 88 + (s[p + 80] + s[p + 80 + 1] * 0x100 + s[p + 80 + 2] * 0x1_0000
                + s[p + 80 + 3] * 0x100_0000 + s[p + 80 + 4] * 0x1_0000_0000 + s[p + 80
                + 5] * 0x100_0000_0000 + s[p + 80 + 6] * 0x1_0000_0000_0000 + s[p + 80
                + 7] * 0x100_0000_0000_0000) + 10240;
            &&& 0 <= p < s.len()
            &&& s[p] == 255 ==> p + 88 <= s.len() && (used + 7) / 8 * 8 + 8 <= s.len()
            &&& s[p] != 255 ==> s[p] < c.lookup.len() && p + 8 <= s.len()
            &&& c.advanced(m).can_walk(n)
        },
{
    let p = c.pos;
    assert(c.can_walk(n + 1) == (has_record(c.input, p, c.lookup.len())
        && has_records(
        c.input,
        record_end(c.input, p),
        c.lookup.len() + 1,
        n,
    )));
    if 0 <= p && p + 88 <= c.input.len() {
        law_eight_bytes_make_a_number(c.input.subrange(p + 80, p + 88));
    }
}

/// Walking no record changes nothing, and walking one more is walking the next one first.
pub proof fn law_walks_go_record_by_record(c: CursorModel, m: Memory, n: nat)
    ensures
        c.walked_views(m, 0) == Seq::<AccountView>::empty(),
        c.walked_memory(m, 0) == m,
        c.walked(m, 0) == c,
        c.walked_views(m, n + 1).len() == n + 1,
        c.walked_views(m, n + 1)[0] == c.next_view(m),
        c.walked_views(m, n + 1).skip(1) == c.advanced(m).walked_views(c.next_memory(m), n),
        c.walked_memory(m, n + 1) == c.advanced(m).walked_memory(c.next_memory(m), n),
        c.walked(m, n + 1) == c.advanced(m).walked(c.next_memory(m), n),
{
    law_walk_remembers_views(c, m, n + 1);
    assert(c.walked_views(m, n + 1).skip(1) =~= c.advanced(m).walked_views(c.next_memory(m), n));
}

/// A full record as it is written: its parts lie at fixed places, every other byte is
/// zero, and it ends eight bytes after the next multiple of eight that leaves the data
/// 10240 bytes to grow.
#[verifier::rlimit(40)]
pub proof fn law_written_record_layout(a: AccountModel)
    requires
        a.address.len() == 32,
        a.owner.len() == 32,
        a.data.len() <= u64::MAX,
    ensures
        ({
            let r = record(a);
            let n = a.data.len();
            &&& r.len() % 8 == 0
            &&& 88 + n + 10240 + 8 <= r.len() < 88 + n + 10240 + 16
            &&& r[0] == 255
            &&& r[1] == if a.is_signer { 1int } else { 0 }
            &&& r[2] == if a.is_writable { 1int } else { 0 }
            &&& r[3] == if a.executable { 1int } else { 0 }
            &&& forall|i: int| 4 <= i < 8 ==> #[trigger] r[i] == 0
            &&& r.subrange(8, 40) == a.address
            &&& r.subrange(40, 72) == a.owner
            &&& a.lamports as int == r[72] + r[73] * 0x100 + r[74] * 0x1_0000
                + r[75] * 0x100_0000 + r[76] * 0x1_0000_0000 + r[77] * 0x100_0000_0000
                + r[78] * 0x1_0000_0000_0000 + r[79] * 0x100_0000_0000_0000
            &&& n == r[80] + r[81] * 0x100 + r[82] * 0x1_0000 + r[83] * 0x100_0000
                + r[84] * 0x1_0000_0000 + r[85] * 0x100_0000_0000 + r[86] * 0x1_0000_0000_0000
                + r[87] * 0x100_0000_0000_0000
            &&& r.subrange(88, 88 + n as int) == a.data
            &&& forall|i: int| 88 + n <= i < r.len() ==> #[trigger] r[i] == 0
        }),
{
    reveal(record_header);
    let r = record(a);
    let n = a.data.len();
    let lamports = u64_le(a.lamports);
    let len = u64_le(n as u64);
    law_u64_round_trip(a.lamports);
    law_u64_round_trip(n as u64);
    assert(record_header(a).len() == 88);
    assert(r.subrange(8, 40) =~= a.address);
    assert(r.subrange(40, 72) =~= a.owner);
    assert(r.subrange(72, 80) =~= lamports);
    assert(r.subrange(80, 88) =~= len);
    law_eight_bytes_make_a_number(r.subrange(72, 80));
    law_eight_bytes_make_a_number(r.subrange(80, 88));
    assert(r.subrange(88, 88 + n as int) =~= a.data);
}

/// A repeated record as it is written: the index and seven zero bytes.
pub proof fn law_written_repetition(index: u8)
    ensures
        repeated_record(index).len() == 8,
        repeated_record(index)[0] == index,
        forall|i: int| 1 <= i < 8 ==> #[trigger] repeated_record(index)[i] == 0,
{
}

/// The remaining accounts are those that the cursor walks next, as many as are counted;
/// listed once, they are the views that were kept.
pub proof fn law_remaining_accounts<'a>(accounts: RemainingAccounts<'a>, m: Memory)
    ensures
        accounts matches RemainingAccounts::Unparsed { cursor, remaining } ==> {
            &&& accounts.listed(m) == cursor@.walked_views(m, remaining as nat)
            &&& accounts.listed_memory(m) == cursor@.walked_memory(m, remaining as nat)
        },
        accounts matches RemainingAccounts::Cached(kept) ==> {
            &&& accounts.listed(m) == kept@
            &&& accounts.listed_memory(m) == m
        },
{
}

/// What a cursor holds.
pub proof fn law_cursor_holds(cursor: AccountCursor)
    ensures
        cursor@.input == cursor.input@,
        cursor@.pos == cursor.pos,
        cursor@.lookup == cursor.lookup@,
{
}

/// What a memory holds: its accounts, in order, each with the parts it has.
pub proof fn law_memory_holds(memory: AccountMemory, i: int)
    requires
        0 <= i < memory.accounts@.len(),
    ensures
        memory@.len() == memory.accounts@.len(),
        ({
            let a = memory.accounts@[i];
            &&& memory@[i].borrow_state == a.borrow_state
            &&& memory@[i].is_signer == a.is_signer
            &&& memory@[i].is_writable == a.is_writable
            &&& memory@[i].executable == a.executable
            &&& memory@[i].address == a.address.bytes@
            &&& memory@[i].owner == a.owner.bytes@
            &&& memory@[i].lamports == a.lamports
            &&& memory@[i].data == a.data@
        }),
{
}

} // verus!
