//! Walking the serialized accounts of an instruction.
//!
//! The runtime lays accounts out one after the other. A full record has an
//! 88-byte header, the account's data, room for the data to grow, padding to a
//! multiple of eight bytes, and an eight-byte rent epoch. Where an account occurs
//! again, the record is eight bytes long and its first byte tells which earlier
//! record it repeats.

use crate::address::Address;
use crate::le::{law_u64_round_trip, le_u64, read_u64, u64_le, u64_to_le, zeros};
use crate::memory::{
    AccountMemory, AccountModel, AccountView, Memory, RuntimeAccount, NOT_BORROWED,
};
use vstd::prelude::*;

verus! {

/// The first byte of a full record; any other value is the index of an earlier
/// record.
pub const NON_DUP_MARKER: u8 = 255;

/// The length of a record's header.
pub const HEADER_LEN: usize = 88;

/// The room that a record leaves for its data to grow.
pub const MAX_PERMITTED_DATA_INCREASE: usize = 10240;

/// The length of a repeated record, and of the rent epoch that ends a full one.
pub const WORD: usize = 8;

/// A position among the serialized accounts, with the views of all accounts
/// before it.
pub struct AccountCursor {
    pub input: Vec<u8>,
    pub pos: usize,
    pub lookup: Vec<AccountView>,
}

/// What an [`AccountCursor`] holds, as mathematical values.
#[verifier::ext_equal]
pub struct CursorModel {
    pub input: Seq<u8>,
    pub pos: int,
    pub lookup: Seq<AccountView>,
}

impl View for AccountCursor {
    type V = CursorModel;

    open spec fn view(&self) -> CursorModel {
        CursorModel { input: self.input@, pos: self.pos as int, lookup: self.lookup@ }
    }
}

/// `x` rounded up to a multiple of eight.
pub open spec fn align8(x: int) -> int {
    (x + 7) / 8 * 8
}

/// The data length that the full record at `pos` gives.
pub open spec fn record_data_len(input: Seq<u8>, pos: int) -> int {
    le_u64(input.subrange(pos + 80, pos + 88)) as int
}

/// Where the record after the one at `pos` begins.
pub open spec fn record_end(input: Seq<u8>, pos: int) -> int {
    if input[pos] == NON_DUP_MARKER {
        align8(pos + HEADER_LEN + record_data_len(input, pos) + MAX_PERMITTED_DATA_INCREASE) + WORD
    } else {
        pos + WORD
    }
}

/// Whether a whole record stands at `pos`, `seen` records before it.
pub open spec fn has_record(input: Seq<u8>, pos: int, seen: nat) -> bool {
    &&& 0 <= pos < input.len()
    &&& input[pos] == NON_DUP_MARKER ==> pos + HEADER_LEN <= input.len()
    &&& input[pos] != NON_DUP_MARKER ==> input[pos] < seen
    &&& record_end(input, pos) <= input.len()
}

/// Whether `n` whole records stand from `pos` on, `seen` records before them.
pub open spec fn has_records(input: Seq<u8>, pos: int, seen: nat, n: nat) -> bool
    decreases n,
{
    n == 0 || {
        &&& has_record(input, pos, seen)
        &&& has_records(input, record_end(input, pos), seen + 1, (n - 1) as nat)
    }
}

/// The account that the full record at `pos` describes; nobody borrows it yet.
pub open spec fn parsed(input: Seq<u8>, pos: int) -> AccountModel {
    AccountModel {
        borrow_state: NOT_BORROWED,
        is_signer: input[pos + 1] != 0,
        is_writable: input[pos + 2] != 0,
        executable: input[pos + 3] != 0,
        address: input.subrange(pos + 8, pos + 40),
        owner: input.subrange(pos + 40, pos + 72),
        lamports: le_u64(input.subrange(pos + 72, pos + 80)),
        data: input.subrange(pos + 88, pos + 88 + record_data_len(input, pos)),
    }
}

impl CursorModel {
    /// All views so far are of accounts of `m`.
    pub open spec fn within(self, m: Memory) -> bool {
        forall|k: int| 0 <= k < self.lookup.len() ==> (#[trigger] self.lookup[k]).slot < m.len()
    }

    /// Whether `n` more records can be walked.
    pub open spec fn can_walk(self, n: nat) -> bool {
        has_records(self.input, self.pos, self.lookup.len(), n)
    }

    /// The view that the next record stands for: a new slot for a full record, the
    /// earlier view for a repeated one.
    pub open spec fn next_view(self, m: Memory) -> AccountView {
        if self.input[self.pos] == NON_DUP_MARKER {
            AccountView { slot: m.len() as usize }
        } else {
            self.lookup[self.input[self.pos] as int]
        }
    }

    /// The memory after the next record: with a new account for a full record,
    /// unchanged for a repeated one.
    pub open spec fn next_memory(self, m: Memory) -> Memory {
        if self.input[self.pos] == NON_DUP_MARKER {
            m.push(parsed(self.input, self.pos))
        } else {
            m
        }
    }

    /// The cursor past the next record.
    pub open spec fn advanced(self, m: Memory) -> CursorModel {
        CursorModel {
            input: self.input,
            pos: record_end(self.input, self.pos),
            lookup: self.lookup.push(self.next_view(m)),
        }
    }

    /// The views of the next `n` records.
    pub open spec fn walked_views(self, m: Memory, n: nat) -> Seq<AccountView>
        decreases n,
    {
        if n == 0 {
            Seq::empty()
        } else {
            seq![self.next_view(m)] + self.advanced(m).walked_views(
                self.next_memory(m),
                (n - 1) as nat,
            )
        }
    }

    /// The memory after `n` more records.
    pub open spec fn walked_memory(self, m: Memory, n: nat) -> Memory
        decreases n,
    {
        if n == 0 {
            m
        } else {
            self.advanced(m).walked_memory(self.next_memory(m), (n - 1) as nat)
        }
    }

    /// The cursor past `n` more records.
    pub open spec fn walked(self, m: Memory, n: nat) -> CursorModel
        decreases n,
    {
        if n == 0 {
            self
        } else {
            self.advanced(m).walked(self.next_memory(m), (n - 1) as nat)
        }
    }
}

/// Walking `a` records and then `b` is walking `a + b` records: what the second walk
/// finds is what follows the first.
pub proof fn law_walk_continues(c: CursorModel, m: Memory, a: nat, b: nat)
    ensures
        c.walked_views(m, a + b) == c.walked_views(m, a) + c.walked(m, a).walked_views(
            c.walked_memory(m, a),
            b,
        ),
        c.walked_memory(m, a + b) == c.walked(m, a).walked_memory(c.walked_memory(m, a), b),
        c.walked(m, a + b) == c.walked(m, a).walked(c.walked_memory(m, a), b),
        c.can_walk(a + b) <==> c.can_walk(a) && c.walked(m, a).can_walk(b),
    decreases a,
{
    if a == 0 {
        assert(Seq::<AccountView>::empty() + c.walked_views(m, b) =~= c.walked_views(m, b));
    } else {
        let a1 = (a - 1) as nat;
        let c1 = c.advanced(m);
        let m1 = c.next_memory(m);
        law_walk_continues(c1, m1, a1, b);
        assert((a + b - 1) as nat == a1 + b);
        assert(c.walked_views(m, a + b) =~= c.walked_views(m, a) + c.walked(m, a).walked_views(
            c.walked_memory(m, a),
            b,
        ));
    }
}

/// A walk of `n` records yields `n` views and remembers them in order.
pub proof fn law_walk_remembers_views(c: CursorModel, m: Memory, n: nat)
    ensures
        c.walked_views(m, n).len() == n,
        c.walked(m, n).lookup == c.lookup + c.walked_views(m, n),
        c.walked(m, n).input == c.input,
    decreases n,
{
    if n > 0 {
        law_walk_remembers_views(c.advanced(m), c.next_memory(m), (n - 1) as nat);
    }
    assert(c.walked(m, n).lookup =~= c.lookup + c.walked_views(m, n));
}

/// A walk changes no account that was there before, and nobody borrows the accounts
/// that it adds.
pub proof fn law_walk_only_adds_unborrowed_accounts(c: CursorModel, m: Memory, n: nat)
    ensures
        m.len() <= c.walked_memory(m, n).len() <= m.len() + n,
        c.walked_memory(m, n).take(m.len() as int) == m,
        forall|i: int|
            m.len() <= i < c.walked_memory(m, n).len() ==> (#[trigger] c.walked_memory(
                m,
                n,
            )[i]).borrow_state == NOT_BORROWED,
    decreases n,
{
    if n > 0 {
        let m1 = c.next_memory(m);
        law_walk_only_adds_unborrowed_accounts(c.advanced(m), m1, (n - 1) as nat);
        let r = c.walked_memory(m, n);
        assert(m1.take(m.len() as int) =~= m);
        assert(r.take(m.len() as int) =~= r.take(m1.len() as int).take(m.len() as int));
        assert forall|i: int| m.len() <= i < r.len() implies (#[trigger] r[i]).borrow_state
            == NOT_BORROWED by {
            if i < m1.len() {
                assert(r.take(m1.len() as int)[i] == m1[i]);
            }
        }
    } else {
        assert(m.take(m.len() as int) =~= m);
    }
}

/// The views of a walk are of accounts that are there after it.
pub proof fn law_walk_stays_within(c: CursorModel, m: Memory, n: nat)
    requires
        c.can_walk(n),
        c.within(m),
        m.len() + n <= usize::MAX,
    ensures
        c.walked(m, n).within(c.walked_memory(m, n)),
        forall|k: int|
            0 <= k < n ==> (#[trigger] c.walked_views(m, n)[k]).slot < c.walked_memory(m, n).len(),
    decreases n,
{
    law_walk_remembers_views(c, m, n);
    if n > 0 {
        let d = c.advanced(m);
        let k = c.next_memory(m);
        assert(c.next_view(m).slot < k.len());
        assert(d.within(k));
        law_walk_stays_within(d, k, (n - 1) as nat);
    }
    let views = c.walked_views(m, n);
    let after = c.walked(m, n);
    assert forall|k: int| 0 <= k < n implies (#[trigger] views[k]).slot < c.walked_memory(
        m,
        n,
    ).len() by {
        assert(after.lookup[c.lookup.len() + k] == views[k]);
    }
}

/// A repeated record stands for the view of the record that it repeats: counting
/// from where `c` stands at the first record, the `k`-th view is the one with the
/// index that the record gives, so both share one slot and one borrow state.
pub proof fn law_repeated_record_shares_view(c: CursorModel, m: Memory, n: nat, k: nat)
    requires
        c.lookup.len() == 0,
        c.can_walk(n),
        k < n,
        c.input[c.walked(m, k).pos] != NON_DUP_MARKER,
    ensures
        c.input[c.walked(m, k).pos] < k,
        c.walked_views(m, n)[k as int] == c.walked_views(
            m,
            n,
        )[c.input[c.walked(m, k).pos] as int],
        c.walked_memory(m, k + 1) == c.walked_memory(m, k),
{
    let rest = (n - k) as nat;
    law_walk_continues(c, m, k, rest);
    law_walk_continues(c, m, k, 1);
    law_walk_remembers_views(c, m, k);
    let d = c.walked(m, k);
    let md = c.walked_memory(m, k);
    assert(k + rest == n);
    assert(d.can_walk(rest));
    assert(has_record(d.input, d.pos, d.lookup.len()));
    assert(c.walked_views(m, n)[k as int] == d.walked_views(md, rest)[0]);
    assert(d.walked_views(md, rest)[0] == d.next_view(md));
    assert(d.lookup =~= c.walked_views(m, k));
    let j = d.input[d.pos] as int;
    assert(c.walked_views(m, n)[j] == c.walked_views(m, k)[j]);
    reveal_with_fuel(CursorModel::walked_memory, 2);
}

/// A trailing account that repeats a declared one, or an earlier trailing one, has that
/// account's view. Counted from the first record, `declared` accounts are walked first
/// and `trailing` ones after them.
pub proof fn law_trailing_alias_shares_view(
    c: CursorModel,
    m: Memory,
    declared: nat,
    trailing: nat,
    k: nat,
)
    requires
        c.lookup.len() == 0,
        c.can_walk(declared + trailing),
        k < trailing,
        c.input[c.walked(m, declared + k).pos] != NON_DUP_MARKER,
    ensures
        ({
            let views = c.walked_views(m, declared);
            let rest = c.walked(m, declared).walked_views(c.walked_memory(m, declared), trailing);
            let j = c.input[c.walked(m, declared + k).pos] as int;
            &&& j < declared + k
            &&& rest[k as int] == if j < declared {
                views[j]
            } else {
                rest[j - declared]
            }
        }),
{
    law_repeated_record_shares_view(c, m, declared + trailing, declared + k);
    law_walk_continues(c, m, declared, trailing);
    law_walk_remembers_views(c, m, declared);
    law_walk_remembers_views(c.walked(m, declared), c.walked_memory(m, declared), trailing);
    let rest = c.walked(m, declared).walked_views(c.walked_memory(m, declared), trailing);
    let all = c.walked_views(m, declared + trailing);
    assert(all[(declared + k) as int] == rest[k as int]);
}

/// What can be walked can be walked in part.
pub proof fn lemma_walk_fewer(c: CursorModel, n: nat, k: nat)
    requires
        c.can_walk(n),
        k <= n,
    ensures
        c.can_walk(k),
{
    law_walk_continues(c, Seq::empty(), k, (n - k) as nat);
}

/// A flag as a byte.
pub open spec fn flag(yes: bool) -> u8 {
    if yes {
        1
    } else {
        0
    }
}

/// The first eight bytes of the full record of an account.
pub open spec fn record_flags(account: AccountModel) -> Seq<u8> {
    seq![
        NON_DUP_MARKER,
        flag(account.is_signer),
        flag(account.is_writable),
        flag(account.executable),
        0,
        0,
        0,
        0,
    ]
}

/// The header of the full record of an account.
#[verifier::opaque]
pub open spec fn record_header(account: AccountModel) -> Seq<u8> {
    record_flags(account) + account.address + account.owner + u64_le(account.lamports) + u64_le(
        account.data.len() as u64,
    )
}

/// What follows `len` bytes of data in a record: room for the data to grow, up to a multiple
/// of eight bytes, and the rent epoch.
pub open spec fn record_padding(len: int) -> Seq<u8> {
    zeros(align8(HEADER_LEN + len + MAX_PERMITTED_DATA_INCREASE) + WORD - HEADER_LEN - len)
}

/// The full record of an account, as it stands at a multiple of eight bytes.
pub open spec fn record(account: AccountModel) -> Seq<u8> {
    record_header(account) + account.data + record_padding(account.data.len() as int)
}

/// The record of an account that repeats an earlier one.
pub open spec fn repeated_record(index: u8) -> Seq<u8> {
    seq![index, 0, 0, 0, 0, 0, 0, 0]
}

proof fn lemma_append_is_associative(a: Seq<u8>, b: Seq<u8>, c: Seq<u8>)
    ensures
        (a + b) + c == a + (b + c),
{
    assert((a + b) + c =~= a + (b + c));
}

/// Whether the parts of an account's record lie where they belong.
#[verifier::opaque]
spec fn has_parts(input: Seq<u8>, pos: int, account: AccountModel) -> bool {
    &&& forall|i: int| 0 <= i < 8 ==> #[trigger] input[pos + i] == record_flags(account)[i]
    &&& input.subrange(pos + 8, pos + 40) == account.address
    &&& input.subrange(pos + 40, pos + 72) == account.owner
    &&& input.subrange(pos + 72, pos + 80) == u64_le(account.lamports)
    &&& input.subrange(pos + 80, pos + 88) == u64_le(account.data.len() as u64)
    &&& input.subrange(pos + 88, pos + 88 + account.data.len()) == account.data
}

/// The parts of a record lie where they belong.
#[verifier::rlimit(40)]
proof fn lemma_record_parts(before: Seq<u8>, account: AccountModel, after: Seq<u8>)
    requires
        account.address.len() == 32,
        account.owner.len() == 32,
    ensures
        has_parts(
            before + (record_header(account) + account.data + after),
            before.len() as int,
            account,
        ),
        record_header(account).len() == HEADER_LEN,
{
    reveal(record_header);
    reveal(has_parts);
    let input = before + (record_header(account) + account.data + after);
    let pos = before.len() as int;
    let lamports = u64_le(account.lamports);
    let len = u64_le(account.data.len() as u64);
    assert(lamports.len() == 8) by {
        law_u64_round_trip(account.lamports);
    }
    assert(len.len() == 8) by {
        law_u64_round_trip(account.data.len() as u64);
    }
    assert(input.subrange(pos + 8, pos + 40) =~= account.address);
    assert(input.subrange(pos + 40, pos + 72) =~= account.owner);
    assert(input.subrange(pos + 72, pos + 80) =~= lamports);
    assert(input.subrange(pos + 80, pos + 88) =~= len);
    assert(input.subrange(pos + 88, pos + 88 + account.data.len()) =~= account.data);
}

/// An account is parsed from the parts of its record.
#[verifier::rlimit(40)]
proof fn lemma_parts_are_parsed(input: Seq<u8>, pos: int, account: AccountModel)
    requires
        has_parts(input, pos, account),
        account.data.len() <= u64::MAX,
    ensures
        input[pos] == NON_DUP_MARKER,
        record_data_len(input, pos) == account.data.len(),
        parsed(input, pos) == (AccountModel { borrow_state: NOT_BORROWED, ..account }),
{
    reveal(has_parts);
    law_u64_round_trip(account.lamports);
    law_u64_round_trip(account.data.len() as u64);
    assert(input[pos + 0] == NON_DUP_MARKER);
    assert(input[pos + 1] == flag(account.is_signer));
    assert(input[pos + 2] == flag(account.is_writable));
    assert(input[pos + 3] == flag(account.executable));
}

/// An account is read back from its record: whatever stands before and after it, a whole
/// record is there, it ends where it was written to, and it describes the account, which
/// nobody borrows.
pub proof fn law_record_is_parsed(
    before: Seq<u8>,
    account: AccountModel,
    after: Seq<u8>,
    seen: nat,
)
    requires
        before.len() % 8 == 0,
        account.address.len() == 32,
        account.owner.len() == 32,
        account.data.len() <= u64::MAX,
    ensures
        ({
            let input = before + record(account) + after;
            let pos = before.len() as int;
            &&& has_record(input, pos, seen)
            &&& record_end(input, pos) == pos + record(account).len()
            &&& parsed(input, pos) == (AccountModel { borrow_state: NOT_BORROWED, ..account })
        }),
{
    let input = before + record(account) + after;
    let pos = before.len() as int;
    let len = account.data.len();
    let content = record_header(account) + account.data;
    let rest = record_padding(len as int);
    lemma_append_is_associative(before, record(account), after);
    lemma_append_is_associative(content, rest, after);
    lemma_record_parts(before, account, rest + after);
    lemma_parts_are_parsed(input, pos, account);
    assert(align8(pos + HEADER_LEN + len + MAX_PERMITTED_DATA_INCREASE) == pos + align8(
        HEADER_LEN + len + MAX_PERMITTED_DATA_INCREASE,
    ));
}

/// Appends `bytes` to an input that consists of `before` and, after it, `done`.
fn append(input: &mut Vec<u8>, bytes: &[u8], before: Ghost<Seq<u8>>, done: Ghost<Seq<u8>>)
    requires
        old(input)@ == before@ + done@,
    ensures
        final(input)@ == before@ + (done@ + bytes@),
{
    let mut i: usize = 0;
    while i < bytes.len()
        invariant
            i <= bytes.len(),
            input@ =~= before@ + (done@ + bytes@.take(i as int)),
        decreases bytes.len() - i,
    {
        input.push(bytes[i]);
        i = i + 1;
    }
    assert(bytes@.take(i as int) =~= bytes@);
}

fn append_flag(input: &mut Vec<u8>, yes: bool)
    ensures
        final(input)@ == old(input)@.push(flag(yes)),
{
    if yes {
        input.push(1);
    } else {
        input.push(0);
    }
}

fn append_zeros(input: &mut Vec<u8>, n: usize)
    ensures
        final(input)@ == old(input)@ + zeros(n as int),
{
    let mut i: usize = 0;
    while i < n
        invariant
            i <= n,
            input@ =~= old(input)@ + zeros(i as int),
        decreases n - i,
    {
        input.push(0);
        i = i + 1;
    }
}

fn append_flags(input: &mut Vec<u8>, account: &RuntimeAccount)
    ensures
        final(input)@ == old(input)@ + record_flags(account@),
{
    let ghost before = input@;
    input.push(NON_DUP_MARKER);
    append_flag(input, account.is_signer);
    append_flag(input, account.is_writable);
    append_flag(input, account.executable);
    append_zeros(input, 4);
    assert(input@ =~= before + record_flags(account@));
}

fn append_header(input: &mut Vec<u8>, account: &RuntimeAccount)
    ensures
        final(input)@ == old(input)@ + record_header(account@),
{
    reveal(record_header);
    let ghost before = input@;
    let ghost mut done = record_flags(account@);
    append_flags(input, account);
    append(input, &account.address.bytes, Ghost(before), Ghost(done));
    proof {
        done = done + account@.address;
    }
    append(input, &account.owner.bytes, Ghost(before), Ghost(done));
    proof {
        done = done + account@.owner;
    }
    append(input, u64_to_le(account.lamports).as_slice(), Ghost(before), Ghost(done));
    proof {
        done = done + u64_le(account@.lamports);
    }
    append(input, u64_to_le(account.data.len() as u64).as_slice(), Ghost(before), Ghost(done));
}

/// Appends what follows the data in the record of an account with so much data.
fn append_padding(input: &mut Vec<u8>, len: usize)
    requires
        HEADER_LEN + len + MAX_PERMITTED_DATA_INCREASE + 2 * WORD <= usize::MAX,
    ensures
        final(input)@ == old(input)@ + record_padding(len as int),
{
    let used: usize = HEADER_LEN + len;
    let end: usize = used + MAX_PERMITTED_DATA_INCREASE;
    let rest: usize = end % 8;
    let pad: usize = if rest == 0 { 0 } else { 8 - rest };
    assert(end + pad == align8(end as int));
    append_zeros(input, end + pad + WORD - used);
}

/// Appends the full record of an account.
pub fn append_account(input: &mut Vec<u8>, account: &RuntimeAccount)
    requires
        HEADER_LEN + account@.data.len() + MAX_PERMITTED_DATA_INCREASE + 2 * WORD <= usize::MAX,
    ensures
        final(input)@ == old(input)@ + record(account@),
{
    let ghost before = input@;
    let ghost header = record_header(account@);
    append_header(input, account);
    append(input, account.data.as_slice(), Ghost(before), Ghost(header));
    append_padding(input, account.data.len());
    proof {
        lemma_append_is_associative(
            before,
            header + account@.data,
            record_padding(account@.data.len() as int),
        );
    }
}

/// Appends the record of an account that repeats an earlier one.
pub fn append_repeated(input: &mut Vec<u8>, index: u8)
    ensures
        final(input)@ == old(input)@ + repeated_record(index),
{
    let ghost before = input@;
    input.push(index);
    append_zeros(input, 7);
    assert(input@ =~= before + repeated_record(index));
}

fn read_address(input: &Vec<u8>, at: usize) -> (address: Address)
    requires
        at + 32 <= input.len(),
    ensures
        address@ == input@.subrange(at as int, at + 32),
{
    let mut bytes: [u8; 32] = [0; 32];
    let mut i: usize = 0;
    while i < 32
        invariant
            i <= 32,
            at + 32 <= input.len(),
            forall|j: int| 0 <= j < i ==> bytes@[j] == input@[at + j],
        decreases 32 - i,
    {
        bytes[i] = input[at + i];
        i = i + 1;
    }
    let address = Address { bytes };
    assert(address@ =~= input@.subrange(at as int, at + 32));
    address
}

fn read_bytes(input: &Vec<u8>, at: usize, n: usize) -> (bytes: Vec<u8>)
    requires
        at + n <= input.len(),
    ensures
        bytes@ == input@.subrange(at as int, at + n),
{
    let mut bytes: Vec<u8> = Vec::new();
    let mut i: usize = 0;
    while i < n
        invariant
            i <= n,
            at + n <= input.len(),
            bytes@ =~= input@.subrange(at as int, at + i),
        decreases n - i,
    {
        bytes.push(input[at + i]);
        i = i + 1;
    }
    bytes
}

impl AccountCursor {
    /// A cursor at the first record of `input`.
    pub fn new(input: Vec<u8>) -> (cursor: AccountCursor)
        ensures
            cursor@ == (CursorModel { input: input@, pos: 0, lookup: Seq::empty() }),
    {
        AccountCursor { input, pos: 0, lookup: Vec::new() }
    }

    /// How many records were walked.
    pub fn consumed(&self) -> (n: usize)
        ensures
            n == self@.lookup.len(),
    {
        self.lookup.len()
    }

    /// Walks one record and returns the view it stands for.
    pub fn next(&mut self, memory: &mut AccountMemory) -> (view: AccountView)
        requires
            old(self)@.can_walk(1),
            old(self)@.within(old(memory)@),
        ensures
            view == old(self)@.next_view(old(memory)@),
            final(memory)@ == old(self)@.next_memory(old(memory)@),
            final(self)@ == old(self)@.advanced(old(memory)@),
            final(self)@.within(final(memory)@),
            view.slot < final(memory)@.len(),
    {
        let ghost c = self@;
        let ghost m = memory@;
        proof {
            reveal_with_fuel(has_records, 2);
        }
        assert(self.input.len() == c.input.len());
        let marker: u8 = self.input[self.pos];
        let view: AccountView;
        if marker == NON_DUP_MARKER {
            let pos: usize = self.pos;
            let data_len: u64 = read_u64(self.input.as_slice(), pos + 80);
            assert(pos + HEADER_LEN + data_len + MAX_PERMITTED_DATA_INCREASE + WORD <= record_end(
                c.input,
                c.pos,
            ));
            let data_len: usize = data_len as usize;
            let account = RuntimeAccount {
                borrow_state: NOT_BORROWED,
                is_signer: self.input[pos + 1] != 0,
                is_writable: self.input[pos + 2] != 0,
                executable: self.input[pos + 3] != 0,
                address: read_address(&self.input, pos + 8),
                owner: read_address(&self.input, pos + 40),
                lamports: read_u64(self.input.as_slice(), pos + 72),
                data: read_bytes(&self.input, pos + 88, data_len),
            };
            assert(account@ =~= parsed(c.input, c.pos));
            view = memory.push(account);
            let end: usize = pos + HEADER_LEN + data_len + MAX_PERMITTED_DATA_INCREASE;
            let rest: usize = end % 8;
            let pad: usize = if rest == 0 { 0 } else { 8 - rest };
            assert(end + pad == align8(end as int));
            self.pos = end + pad + WORD;
        } else {
            view = self.lookup[marker as usize];
            self.pos = self.pos + WORD;
        }
        self.lookup.push(view);
        assert(self@.lookup =~= c.lookup.push(view));
        view
    }

    /// Walks `n` records and returns the views they stand for.
    pub fn walk_n(&mut self, memory: &mut AccountMemory, n: usize) -> (views: Vec<AccountView>)
        requires
            old(self)@.can_walk(n as nat),
            old(self)@.within(old(memory)@),
        ensures
            views@ == old(self)@.walked_views(old(memory)@, n as nat),
            final(memory)@ == old(self)@.walked_memory(old(memory)@, n as nat),
            final(self)@ == old(self)@.walked(old(memory)@, n as nat),
            final(self)@.within(final(memory)@),
            forall|k: int|
                0 <= k < views@.len() ==> (#[trigger] views@[k]).slot < final(memory)@.len(),
    {
        let ghost c = self@;
        let ghost m = memory@;
        let mut views: Vec<AccountView> = Vec::new();
        let mut i: usize = 0;
        while i < n
            invariant
                i <= n,
                self@.can_walk((n - i) as nat),
                self@.within(memory@),
                forall|k: int|
                    0 <= k < views@.len() ==> (#[trigger] views@[k]).slot < memory@.len(),
                c.walked_views(m, n as nat) =~= views@ + self@.walked_views(
                    memory@,
                    (n - i) as nat,
                ),
                c.walked_memory(m, n as nat) == self@.walked_memory(memory@, (n - i) as nat),
                c.walked(m, n as nat) == self@.walked(memory@, (n - i) as nat),
            decreases n - i,
        {
            proof {
                reveal_with_fuel(has_records, 2);
            }
            let view = self.next(memory);
            views.push(view);
            i = i + 1;
        }
        views
    }

    /// Whether `n` more records can be walked.
    pub fn can_walk(&self, n: usize) -> (yes: bool)
        ensures
            yes == self@.can_walk(n as nat),
    {
        let ghost input = self.input@;
        let mut pos: usize = self.pos;
        let mut i: usize = 0;
        while i < n
            invariant
                i <= n,
                input == self.input@,
                self@.can_walk(n as nat) == has_records(
                    input,
                    pos as int,
                    (self.lookup@.len() + i) as nat,
                    (n - i) as nat,
                ),
            decreases n - i,
        {
            let len: usize = self.input.len();
            if pos >= len {
                return false;
            }
            let marker: u8 = self.input[pos];
            if marker == NON_DUP_MARKER {
                if len - pos < HEADER_LEN {
                    return false;
                }
                let data_len: u64 = read_u64(self.input.as_slice(), pos + 80);
                let rest: u64 = (len - pos - HEADER_LEN) as u64;
                let slack: u64 = (MAX_PERMITTED_DATA_INCREASE + WORD) as u64;
                if rest < slack || data_len > rest - slack {
                    return false;
                }
                let end: usize = pos + HEADER_LEN + data_len as usize + MAX_PERMITTED_DATA_INCREASE;
                let odd: usize = end % 8;
                let pad: usize = if odd == 0 { 0 } else { 8 - odd };
                assert(end + pad == align8(end as int));
                if len - end < pad + WORD {
                    return false;
                }
                pos = end + pad + WORD;
            } else {
                let index: usize = marker as usize;
                let known: usize = self.lookup.len();
                if index >= known && index - known >= i {
                    return false;
                }
                if len - pos < WORD {
                    return false;
                }
                pos = pos + WORD;
            }
            i = i + 1;
        }
        true
    }
}

} // verus!
