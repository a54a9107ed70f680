//! Accounts whose data is read and written in place.

use crate::account_view::{Ref, RefMut};
use crate::accounts::{check_writable, AnchorAccount, Exit, Wrapper};
use crate::error::ErrorCode;
use crate::le::{law_overwrite, le_u32, overwrite, read_u32};
use crate::memory::{
    borrow_states, can_take, exclusive_hold, law_release_undoes_borrow, same_shape, shared_hold,
    taken, with_data, AccountMemory, AccountModel, AccountView, Held, Hold, Memory, Release,
};
use crate::schema::{faithful, schema_ignores_borrows, Pod, SlabSchema, MAX_DATA_LEN};
use solana_program_error::ProgramError;
use std::marker::PhantomData;
use vstd::multiset::Multiset;
use vstd::prelude::*;

verus! {

/// What follows the header of a slab: a count and so many items, or nothing.
pub trait SlabTail {
    /// Whether items follow.
    spec fn spec_has_items() -> bool;

    /// The number of bytes of an item.
    spec fn spec_item_size() -> nat;

    /// Whether items follow.
    fn has_items() -> (yes: bool)
        ensures
            yes == Self::spec_has_items(),
    ;

    /// The number of bytes of an item.
    fn item_size() -> (n: usize)
        ensures
            n == Self::spec_item_size(),
            n <= MAX_DATA_LEN,
    ;
}

/// Nothing follows the header.
pub struct HeaderOnly;

impl SlabTail for HeaderOnly {
    open spec fn spec_has_items() -> bool {
        false
    }

    open spec fn spec_item_size() -> nat {
        0
    }

    fn has_items() -> (yes: bool) {
        false
    }

    fn item_size() -> (n: usize) {
        0
    }
}

impl<T: Pod> SlabTail for T {
    open spec fn spec_has_items() -> bool {
        true
    }

    open spec fn spec_item_size() -> nat {
        T::size()
    }

    fn has_items() -> (yes: bool) {
        true
    }

    fn item_size() -> (n: usize) {
        T::size_of()
    }
}

/// An account with a header of type `H` and, unless `T` is [`HeaderOnly`], a count and
/// items of type `T`. The header is read and written where it lies, so the slab holds a
/// borrow of the data: a shared one where it was loaded for reading, an exclusive one
/// where it was loaded for writing.
pub struct Slab<H: SlabSchema, T: SlabTail> {
    pub view: AccountView,
    pub mutable: bool,
    pub header: PhantomData<H>,
    pub items: PhantomData<T>,
}

/// An account with a header and nothing else.
pub type Account<H> = Slab<H, HeaderOnly>;

/// The borrow that a typed wrapper holds.
pub open spec fn data_hold(view: AccountView, mutable: bool) -> Multiset<Hold> {
    if mutable {
        exclusive_hold(view)
    } else {
        shared_hold(view)
    }
}

/// Where the count of items lies.
pub open spec fn len_offset<H: SlabSchema>() -> nat {
    H::spec_data_offset() + H::size()
}

/// Where the items begin.
pub open spec fn items_offset<H: SlabSchema>() -> nat {
    len_offset::<H>() + 4
}

/// The count of items that the data gives.
pub open spec fn item_count<H: SlabSchema>(data: Seq<u8>) -> nat {
    le_u32(data.subrange(len_offset::<H>() as int, items_offset::<H>() as int)) as nat
}

/// How many items the data has room for. Items without bytes take no room.
pub open spec fn item_capacity<H: SlabSchema, T: SlabTail>(data: Seq<u8>) -> nat {
    if T::spec_item_size() == 0 {
        u32::MAX as nat
    } else {
        ((data.len() - items_offset::<H>()) / T::spec_item_size() as int) as nat
    }
}

impl<H: SlabSchema, T: SlabTail> Slab<H, T> {
    /// Whether an account holds such a slab, and if not, why: the header is checked
    /// first, then that it and the count lie within the data and no more items are
    /// counted than the data has room for.
    pub open spec fn validated(account: AccountModel) -> Result<(), ProgramError> {
        match H::validated(account) {
            Err(e) => Err(e),
            Ok(_) => if account.data.len() < len_offset::<H>() {
                Err(ProgramError::AccountDataTooSmall)
            } else if !T::spec_has_items() {
                Ok(())
            } else if account.data.len() < items_offset::<H>() {
                Err(ProgramError::AccountDataTooSmall)
            } else if item_count::<H>(account.data) > item_capacity::<H, T>(account.data) {
                Err(ProgramError::InvalidAccountData)
            } else {
                Ok(())
            },
        }
    }

    /// The header.
    pub open spec fn read(&self, m: Memory) -> H {
        H::decoded(
            m[self.view.slot as int].data.subrange(
                H::spec_data_offset() as int,
                len_offset::<H>() as int,
            ),
        )
    }

    /// The memory with another header.
    pub open spec fn stored(&self, m: Memory, value: H) -> Memory {
        with_data(
            m,
            self.view.slot as int,
            overwrite(
                m[self.view.slot as int].data,
                H::spec_data_offset() as int,
                value.encoded(),
            ),
        )
    }

    /// The least data that such an account has: what the layout takes, but not less than
    /// the header's own minimum.
    pub open spec fn spec_min_data_len() -> nat {
        let layout = if T::spec_has_items() {
            items_offset::<H>()
        } else {
            len_offset::<H>()
        };
        if layout < H::spec_min_data_len() {
            H::spec_min_data_len()
        } else {
            layout
        }
    }

    /// The data that such an account takes for so many items, but not less than the
    /// header's own minimum.
    pub open spec fn spec_space_for(capacity: u32) -> int {
        let layout = items_offset::<H>() + capacity * T::spec_item_size();
        if layout < H::spec_min_data_len() {
            H::spec_min_data_len() as int
        } else {
            layout
        }
    }

    fn items_offset() -> (n: usize)
        ensures
            n == items_offset::<H>(),
            n <= 2 * MAX_DATA_LEN + 4,
    {
        H::data_offset() + H::size_of() + 4
    }

    /// The least data that such an account has.
    pub fn min_data_len() -> (n: usize)
        ensures
            n == Self::spec_min_data_len(),
    {
        let layout: usize = if T::has_items() {
            Self::items_offset()
        } else {
            H::data_offset() + H::size_of()
        };
        let least: usize = H::min_data_len();
        if layout < least {
            least
        } else {
            layout
        }
    }

    /// The data of a new account for which nothing more is asked: the least that such an
    /// account has.
    pub fn init_space() -> (n: usize)
        ensures
            n == Self::spec_min_data_len(),
    {
        Self::min_data_len()
    }

    /// The data that such an account takes for so many items.
    pub fn space_for(capacity: u32) -> (n: usize)
        requires
            items_offset::<H>() + capacity * T::spec_item_size() <= usize::MAX,
        ensures
            n == Self::spec_space_for(capacity),
    {
        let item: usize = T::item_size();
        proof {
            assert(0 <= capacity * item) by (nonlinear_arith);
            assert(capacity as usize == capacity);
        }
        let layout: usize = Self::items_offset() + capacity as usize * item;
        let least: usize = H::min_data_len();
        if layout < least {
            least
        } else {
            layout
        }
    }

    fn count(memory: &AccountMemory, view: AccountView) -> (n: usize)
        requires
            view.slot < memory@.len(),
            items_offset::<H>() <= memory@[view.slot as int].data.len(),
        ensures
            n == item_count::<H>(memory@[view.slot as int].data),
    {
        let at: usize = H::data_offset() + H::size_of();
        read_u32(memory.account(view).data.as_slice(), at) as usize
    }

    fn room(memory: &AccountMemory, view: AccountView) -> (n: usize)
        requires
            view.slot < memory@.len(),
            items_offset::<H>() <= memory@[view.slot as int].data.len(),
        ensures
            n == item_capacity::<H, T>(memory@[view.slot as int].data),
    {
        let item: usize = T::item_size();
        let bytes: usize = view.data_len(memory) - Self::items_offset();
        if item == 0 {
            u32::MAX as usize
        } else {
            bytes / item
        }
    }

    fn validate(memory: &AccountMemory, view: AccountView) -> (r: Result<(), ProgramError>)
        requires
            view.slot < memory@.len(),
        ensures
            r == Self::validated(memory@[view.slot as int]),
    {
        match H::validate(memory, view) {
            Err(e) => {
                return Err(e);
            },
            Ok(_) => {},
        }
        if view.data_len(memory) < H::data_offset() + H::size_of() {
            return Err(ProgramError::AccountDataTooSmall);
        }
        if !T::has_items() {
            return Ok(());
        }
        if view.data_len(memory) < Self::items_offset() {
            return Err(ProgramError::AccountDataTooSmall);
        }
        if Self::count(memory, view) > Self::room(memory, view) {
            return Err(ProgramError::InvalidAccountData);
        }
        Ok(())
    }

    /// Checks the account again, as loading it did. A program that was called meanwhile
    /// may have changed its owner and its data.
    pub fn revalidate_after_cpi(&self, memory: &AccountMemory) -> (r: Result<(), ProgramError>)
        requires
            self.view.slot < memory@.len(),
        ensures
            r == Self::validated(memory@[self.view.slot as int]),
            r is Ok ==> self.live(memory@),
    {
        Self::validate(memory, self.view)
    }

    /// The header.
    pub fn get(&self, memory: &AccountMemory) -> (value: H)
        requires
            self.live(memory@),
        ensures
            value == self.read(memory@),
    {
        let at: usize = H::data_offset();
        H::from_bytes(memory.account(self.view).data.as_slice(), at)
    }

    /// Writes the header. The slab was loaded for writing.
    pub fn set(&self, memory: &mut AccountMemory, value: H)
        requires
            self.mutable,
            self.live(old(memory)@),
        ensures
            final(memory)@ == self.stored(old(memory)@, value),
            self.live(final(memory)@),
    {
        let bytes = value.to_bytes();
        proof {
            law_overwrite(
                memory@[self.view.slot as int].data,
                H::spec_data_offset() as int,
                value.encoded(),
            );
        }
        let at: usize = H::data_offset();
        memory.write(self.view, at, bytes.as_slice());
    }

    /// The count of items.
    pub fn len(&self, memory: &AccountMemory) -> (n: usize)
        requires
            self.live(memory@),
            T::spec_has_items(),
        ensures
            n == item_count::<H>(memory@[self.view.slot as int].data),
    {
        Self::count(memory, self.view)
    }

    /// How many items there is room for.
    pub fn capacity(&self, memory: &AccountMemory) -> (n: usize)
        requires
            self.live(memory@),
            T::spec_has_items(),
        ensures
            n == item_capacity::<H, T>(memory@[self.view.slot as int].data),
    {
        Self::room(memory, self.view)
    }
}

/// What is written is read back, every other account is as it was, and so are the
/// bytes before the header and all borrow states.
pub proof fn law_slab_reads_what_was_stored<H: SlabSchema, T: SlabTail>(
    slab: Slab<H, T>,
    m: Memory,
    value: H,
)
    requires
        slab.live(m),
        faithful(value),
    ensures
        slab.read(slab.stored(m, value)) == value,
        slab.stored(m, value).len() == m.len(),
        forall|i: int|
            0 <= i < m.len() && i != slab.view.slot ==> #[trigger] slab.stored(m, value)[i] == m[i],
        slab.stored(m, value)[slab.view.slot as int].data.take(H::spec_data_offset() as int)
            == m[slab.view.slot as int].data.take(H::spec_data_offset() as int),
        borrow_states(slab.stored(m, value)) == borrow_states(m),
        same_shape(m, slab.stored(m, value)),
{
    law_overwrite(
        m[slab.view.slot as int].data,
        H::spec_data_offset() as int,
        value.encoded(),
    );
    assert(borrow_states(slab.stored(m, value)) =~= borrow_states(m));
}

/// The space for any number of items is at least the least data that such an account
/// has, so an account of that size is not refused as too small.
pub proof fn law_space_for_covers_minimum<H: SlabSchema, T: SlabTail>(capacity: u32)
    requires
        T::spec_has_items(),
    ensures
        Slab::<H, T>::spec_space_for(capacity) >= Slab::<H, T>::spec_min_data_len(),
        Slab::<H, T>::spec_min_data_len() >= H::spec_min_data_len(),
{
    let item = T::spec_item_size();
    assert(0 <= capacity * item) by (nonlinear_arith);
}

impl<H: SlabSchema, T: SlabTail> Held for Slab<H, T> {
    open spec fn holds(&self) -> Multiset<Hold> {
        data_hold(self.view, self.mutable)
    }

    open spec fn live(&self, m: Memory) -> bool {
        &&& self.view.slot < m.len()
        &&& len_offset::<H>() <= m[self.view.slot as int].data.len()
        &&& T::spec_has_items() ==> items_offset::<H>() <= m[self.view.slot as int].data.len()
    }

    proof fn lemma_live_stays(&self, m: Memory, n: Memory) {
        assert(n[self.view.slot as int].data.len() == m[self.view.slot as int].data.len());
    }
}

impl<H: SlabSchema, T: SlabTail> Release for Slab<H, T> {
    fn release(self, memory: &mut AccountMemory) {
        if self.mutable {
            RefMut { view: self.view }.release(memory);
        } else {
            Ref { view: self.view }.release(memory);
        }
    }
}

impl<H: SlabSchema, T: SlabTail> Wrapper for Slab<H, T> {
    open spec fn target(&self) -> AccountView {
        self.view
    }

    open spec fn loaded(m: Memory, view: AccountView, mutable: bool) -> Result<Self, ProgramError> {
        if mutable && !m[view.slot as int].is_writable {
            Err(ErrorCode::ConstraintMut.program_error())
        } else if !can_take(m, data_hold(view, mutable)) {
            Err(ProgramError::AccountBorrowFailed)
        } else {
            match Self::validated(taken(m, data_hold(view, mutable))[view.slot as int]) {
                Ok(_) => Ok(
                    Slab { view, mutable, header: PhantomData, items: PhantomData },
                ),
                Err(e) => Err(e),
            }
        }
    }

    open spec fn exited(&self, m: Memory) -> Exit<Self> {
        Exit { result: Ok(()), account: *self, memory: m }
    }

    open spec fn keeps_data() -> bool {
        true
    }

    open spec fn ignores_borrows() -> bool {
        schema_ignores_borrows::<H>()
    }

    proof fn lemma_loaded(m: Memory, view: AccountView, mutable: bool) {
    }

    proof fn lemma_loaded_beside(m: Memory, k: Multiset<Hold>, view: AccountView, mutable: bool) {
        let h = data_hold(view, mutable);
        let slot = view.slot as int;
        let a = taken(m, h)[slot];
        let b = taken(taken(m, k), h)[slot];
        assert(a == AccountModel { borrow_state: a.borrow_state, ..m[slot] });
        assert(b == AccountModel { borrow_state: b.borrow_state, ..m[slot] });
        if Self::ignores_borrows() {
            assert(H::validated(a) == H::validated(m[slot]));
            assert(H::validated(b) == H::validated(m[slot]));
        }
    }

    proof fn lemma_exited(&self, m: Memory) {
    }
}

impl<H: SlabSchema, T: SlabTail> AnchorAccount for Slab<H, T> {
    fn load(memory: &mut AccountMemory, view: AccountView) -> (r: Result<Self, ProgramError>) {
        let ghost m = memory@;
        let guard = match view.try_borrow(memory) {
            Ok(guard) => guard,
            Err(e) => {
                return Err(e);
            },
        };
        proof {
            law_release_undoes_borrow(m, shared_hold(view));
        }
        match Self::validate(memory, view) {
            Ok(_) => Ok(Slab { view, mutable: false, header: PhantomData, items: PhantomData }),
            Err(e) => {
                guard.release(memory);
                Err(e)
            },
        }
    }

    fn load_mut(memory: &mut AccountMemory, view: AccountView) -> (r: Result<Self, ProgramError>) {
        let ghost m = memory@;
        match check_writable(memory, view) {
            Ok(_) => {},
            Err(e) => {
                return Err(e);
            },
        }
        let guard = match view.try_borrow_mut(memory) {
            Ok(guard) => guard,
            Err(e) => {
                return Err(e);
            },
        };
        proof {
            law_release_undoes_borrow(m, exclusive_hold(view));
        }
        match Self::validate(memory, view) {
            Ok(_) => Ok(Slab { view, mutable: true, header: PhantomData, items: PhantomData }),
            Err(e) => {
                guard.release(memory);
                Err(e)
            },
        }
    }

    fn account(&self) -> (view: AccountView) {
        self.view
    }

    fn exit(&mut self, memory: &mut AccountMemory) -> (r: Result<(), ProgramError>) {
        Ok(())
    }
}

} // verus!
