//! Accounts whose data is decoded when they are loaded and encoded when they exit.

use crate::account_view::{Ref, RefMut};
use crate::accounts::program::{system_program_id, Id, System};
use crate::accounts::slab::data_hold;
use crate::accounts::{check_writable, AnchorAccount, Exit, Wrapper};
use crate::error::ErrorCode;
use crate::laws::encoded::law_value_that_fits_is_written_back;
use crate::laws::wrappers::law_which_account_is_closed;
use crate::le::{law_overwrite, overwrite, zeros};
use crate::memory::{
    borrow_states, can_take, exclusive_hold, freed, held, law_release_undoes_borrow,
    lemma_exclusive_hold, lemma_no_holds, lemma_same_states, lemma_shared_hold, shared_hold,
    taken, with_data, AccountMemory, AccountModel, AccountView, Held, Hold, Memory, Release,
};
use crate::schema::{check_header, checked_header, Discriminator, Owner};
use solana_program_error::ProgramError;
use std::marker::PhantomData;
use vstd::multiset::Multiset;
use vstd::prelude::*;

verus! {

/// A way to encode values of type `T`.
pub trait AnchorAccountSerialize<T> {
    /// The bytes of a value.
    open spec fn encoded(value: T) -> Seq<u8> {
        Seq::empty()
    }

    /// Why a value is not encoded into `room` bytes, where it is not.
    open spec fn encode_error(value: T, room: nat) -> Option<ProgramError> {
        None
    }

    /// The value that some bytes begin with, and how many bytes it takes.
    open spec fn decoded(bytes: Seq<u8>) -> Result<(T, nat), ProgramError> {
        Err(ProgramError::InvalidAccountData)
    }

    /// Encodes a value into `buf` from `at` on, and returns where its bytes end.
    fn serialize(value: &T, buf: &mut Vec<u8>, at: usize) -> (r: Result<usize, ProgramError>)
        requires
            at <= old(buf)@.len(),
        ensures
            match Self::encode_error(*value, (old(buf)@.len() - at) as nat) {
                None => {
                    &&& at + Self::encoded(*value).len() <= old(buf)@.len()
                    &&& r matches Ok(end) && end == at + Self::encoded(*value).len()
                    &&& final(buf)@ == overwrite(old(buf)@, at as int, Self::encoded(*value))
                },
                Some(e) => r == Err::<usize, ProgramError>(e) && final(buf)@ == old(buf)@,
            },
    ;

    /// Decodes a value from the bytes of `buf` from `at` on, and returns it with where its
    /// bytes end.
    fn deserialize(buf: &[u8], at: usize) -> (r: Result<(T, usize), ProgramError>)
        requires
            at <= buf@.len(),
        ensures
            match Self::decoded(buf@.skip(at as int)) {
                Ok((value, n)) => r matches Ok(found) && found.0 == value && found.1 == at + n,
                Err(e) => r == Err::<(T, usize), ProgramError>(e),
            },
    ;
}

/// The value is read back from what it was encoded to, whatever follows.
pub open spec fn readable<T, S: AnchorAccountSerialize<T>>(value: T) -> bool {
    forall|rest: Seq<u8>| #[trigger]
        S::decoded(S::encoded(value) + rest) == Ok::<(T, nat), ProgramError>(
            (value, S::encoded(value).len()),
        )
}

/// The encoding of the Borsh format.
pub struct BorshSerializer;

/// An account that keeps a decoded copy of its data. It holds a borrow of the data, a
/// shared one where it was loaded for reading, an exclusive one where it was loaded for
/// writing, until the borrow is released.
pub struct SerializedAccount<T, S> {
    pub view: AccountView,
    pub data: T,
    pub mutable: bool,
    pub borrowed: bool,
    pub payload_len: usize,
    pub codec: PhantomData<S>,
}

/// An account in the Borsh format.
pub type BorshAccount<T> = SerializedAccount<T, BorshSerializer>;

/// Whether the account was closed: it has no balance, no data, and belongs to the
/// System program.
pub open spec fn closed(account: AccountModel) -> bool {
    &&& account.lamports == 0
    &&& account.data.len() == 0
    &&& account.owner == system_program_id()
}

fn is_closed(memory: &AccountMemory, view: AccountView) -> (yes: bool)
    requires
        view.slot < memory@.len(),
    ensures
        yes == closed(memory@[view.slot as int]),
{
    view.lamports(memory) == 0 && view.data_is_empty(memory) && view.owned_by(memory, &System::id())
}

impl<T: Owner + Discriminator, S: AnchorAccountSerialize<T>> SerializedAccount<T, S> {
    /// Where the encoded value begins: after the discriminator.
    pub open spec fn payload_offset() -> nat {
        T::spec_discriminator().len()
    }

    /// The account's data with `value` encoded into it. Where the value takes fewer bytes
    /// than the one before, the bytes that it frees are zero; the bytes after those are
    /// as they were.
    pub open spec fn committed(data: Seq<u8>, value: T, payload_len: nat) -> Seq<u8> {
        let at = Self::payload_offset();
        let end = at + S::encoded(value).len();
        let old_end = if at + payload_len < data.len() {
            (at + payload_len) as int
        } else {
            data.len() as int
        };
        let gap = if end < old_end {
            old_end - end
        } else {
            0
        };
        overwrite(data, at as int, S::encoded(value) + zeros(gap))
    }

    /// What reading the account anew gives: a check of owner, length and discriminator,
    /// then the decoded value and the length of its encoding.
    pub open spec fn decoded(account: AccountModel) -> Result<(T, nat), ProgramError> {
        match checked_header(
            account,
            T::spec_owner(),
            T::spec_discriminator(),
            T::spec_discriminator().len(),
        ) {
            Err(e) => Err(e),
            Ok(_) => S::decoded(account.data.skip(Self::payload_offset() as int)),
        }
    }

    /// The least data that such an account has: the discriminator.
    pub fn min_data_len() -> (n: usize)
        ensures
            n == Self::payload_offset(),
    {
        T::discriminator().len()
    }

    fn decode(memory: &AccountMemory, view: AccountView) -> (r: Result<(T, usize), ProgramError>)
        requires
            view.slot < memory@.len(),
        ensures
            match Self::decoded(memory@[view.slot as int]) {
                Ok((value, n)) => r matches Ok(found) && found.0 == value && found.1 == n,
                Err(e) => r == Err::<(T, usize), ProgramError>(e),
            },
    {
        let discriminator = T::discriminator();
        let at: usize = discriminator.len();
        match check_header(memory, view, &T::owner(), &discriminator, at) {
            Err(e) => {
                return Err(e);
            },
            Ok(_) => {},
        }
        match S::deserialize(memory.account(view).data.as_slice(), at) {
            Ok((value, end)) => Ok((value, end - at)),
            Err(e) => Err(e),
        }
    }

    /// The decoded value. The account holds its borrow.
    pub fn get(&self) -> (value: &T)
        requires
            self.borrowed,
        ensures
            *value == self.data,
    {
        &self.data
    }

    /// Replaces the decoded value. The account was loaded for writing and holds its
    /// borrow.
    pub fn set(&mut self, value: T)
        requires
            old(self).mutable,
            old(self).borrowed,
        ensures
            *final(self) == (SerializedAccount { data: value, ..*old(self) }),
    {
        self.data = value;
    }

    /// Encodes the value into the account's data. Nothing is written for an account that
    /// was loaded for reading, that holds no borrow, or that was closed; where the data has
    /// become too short for the discriminator, that is an error, and the borrow is given
    /// back.
    pub open spec fn written_back(&self, m: Memory) -> Exit<Self> {
        let account = m[self.view.slot as int];
        let at = Self::payload_offset();
        if !self.mutable || !self.borrowed || closed(account) {
            Exit { result: Ok(()), account: *self, memory: m }
        } else if account.data.len() < at {
            Exit {
                result: Err(ProgramError::AccountDataTooSmall),
                account: SerializedAccount { borrowed: false, ..*self },
                memory: freed(m, exclusive_hold(self.view)),
            }
        } else {
            match S::encode_error(self.data, (account.data.len() - at) as nat) {
                Some(e) => Exit { result: Err(e), account: *self, memory: m },
                None => if account.data.len() < at + S::encoded(self.data).len() {
                    Exit {
                        result: Err(ProgramError::AccountDataTooSmall),
                        account: *self,
                        memory: m,
                    }
                } else {
                    Exit {
                        result: Ok(()),
                        account: SerializedAccount {
                            payload_len: S::encoded(self.data).len() as usize,
                            ..*self
                        },
                        memory: with_data(
                            m,
                            self.view.slot as int,
                            Self::committed(account.data, self.data, self.payload_len as nat),
                        ),
                    }
                },
            }
        }
    }

    fn write_back(&mut self, memory: &mut AccountMemory) -> (r: Result<(), ProgramError>)
        requires
            old(self).live(old(memory)@),
            held(old(memory)@, old(self).holds()),
        ensures
            r == old(self).written_back(old(memory)@).result,
            *final(self) == old(self).written_back(old(memory)@).account,
            final(memory)@ == old(self).written_back(old(memory)@).memory,
            ({
                let slot = old(self).view.slot as int;
                let a = old(memory)@[slot];
                let at = T::spec_discriminator().len() as int;
                let enc = S::encoded(old(self).data);
                let b = final(memory)@[slot].data;
                old(self).mutable && old(self).borrowed && (a.lamports != 0 || a.data.len() != 0
                    || a.owner != Seq::new(32, |i: int| 0u8)) && a.data.len() >= at
                    && S::encode_error(old(self).data, (a.data.len() - at) as nat) is None ==> {
                    &&& r is Ok
                    &&& at + enc.len() <= a.data.len()
                    &&& b.len() == a.data.len()
                    &&& forall|i: int| 0 <= i < at ==> #[trigger] b[i] == a.data[i]
                    &&& b.subrange(at, at + enc.len()) == enc
                    &&& forall|i: int|
                        at + enc.len() <= i < b.len() ==> #[trigger] b[i] == if i < at + old(
                            self,
                        ).payload_len {
                            0
                        } else {
                            a.data[i]
                        }
                }
            }),
    {
        proof {
            law_which_account_is_closed(memory@[self.view.slot as int]);
        }
        let ghost before_writing = *self;
        if !self.mutable || !self.borrowed || is_closed(memory, self.view) {
            return Ok(());
        }
        let at: usize = T::discriminator().len();
        let len: usize = self.view.data_len(memory);
        if len < at {
            RefMut { view: self.view }.release(memory);
            self.borrowed = false;
            return Err(ProgramError::AccountDataTooSmall);
        }
        let ghost m = memory@;
        let ghost before = memory@[self.view.slot as int].data;
        let old_end: usize = if self.payload_len < len - at {
            at + self.payload_len
        } else {
            len
        };
        let ghost enc = S::encoded(self.data);
        let data = memory.data_mut(self.view);
        let end: usize = match S::serialize(&self.data, data, at) {
            Ok(end) => end,
            Err(e) => {
                assert(with_data(m, self.view.slot as int, before) =~= m);
                return Err(e);
            },
        };
        let mut i: usize = end;
        let ghost once = data@;
        proof {
            law_overwrite(before, at as int, enc);
        }
        #[verifier::loop_isolation(false)]
        while i < old_end
            invariant
                end <= i,
                i <= old_end || i == end,
                old_end <= data@.len(),
                data@.len() == once.len(),
                forall|k: int| end <= k < i ==> data@[k] == 0,
                forall|k: int|
                    0 <= k < once.len() && !(end <= k < i) ==> #[trigger] data@[k] == once[k],
            decreases old_end - i,
        {
            data.set(i, 0);
            i = i + 1;
        }
        assert(data@ =~= overwrite(before, at as int, enc + zeros((i - end) as int)));
        assert(data@ =~= Self::committed(before, self.data, self.payload_len as nat));
        self.payload_len = end - at;
        proof {
            law_value_that_fits_is_written_back(before_writing, m);
        }
        Ok(())
    }

    /// Encodes the value into the account's data and gives the borrow back, so that
    /// another program sees the value and may change the account.
    pub fn release_borrow(&mut self, memory: &mut AccountMemory) -> (r: Result<(), ProgramError>)
        requires
            old(self).live(old(memory)@),
            held(old(memory)@, old(self).holds()),
        ensures
            ({
                let w = old(self).written_back(old(memory)@);
                &&& r == w.result
                &&& r is Ok ==> {
                    &&& *final(self) == (SerializedAccount { borrowed: false, ..w.account })
                    &&& final(memory)@ == freed(w.memory, w.account.holds())
                }
                &&& r is Err ==> *final(self) == w.account && final(memory)@ == w.memory
            }),
            ({
                let slot = old(self).view.slot as int;
                let a = old(memory)@[slot];
                let at = T::spec_discriminator().len() as int;
                let enc = S::encoded(old(self).data);
                let b = final(memory)@[slot].data;
                old(self).mutable && old(self).borrowed && (a.lamports != 0 || a.data.len() != 0
                    || a.owner != Seq::new(32, |i: int| 0u8)) && a.data.len() >= at
                    && S::encode_error(old(self).data, (a.data.len() - at) as nat) is None ==> {
                    &&& r is Ok
                    &&& at + enc.len() <= a.data.len()
                    &&& b.len() == a.data.len()
                    &&& forall|i: int| 0 <= i < at ==> #[trigger] b[i] == a.data[i]
                    &&& b.subrange(at, at + enc.len()) == enc
                    &&& forall|i: int|
                        at + enc.len() <= i < b.len() ==> #[trigger] b[i] == if i < at + old(
                            self,
                        ).payload_len {
                            0
                        } else {
                            a.data[i]
                        }
                }
            }),
    {
        proof {
            old(self).lemma_exited(memory@);
        }
        let ghost m = memory@;
        match self.write_back(memory) {
            Err(e) => {
                return Err(e);
            },
            Ok(_) => {},
        }
        proof {
            lemma_same_states(m, memory@, self.holds());
            lemma_no_holds(memory@);
        }
        if self.borrowed {
            if self.mutable {
                RefMut { view: self.view }.release(memory);
            } else {
                Ref { view: self.view }.release(memory);
            }
            self.borrowed = false;
        }
        Ok(())
    }

    /// What taking the borrow back for writing gives, once another program may have
    /// changed the account: it is checked as loading it did, and decoded anew.
    pub open spec fn reacquired(&self, m: Memory) -> Result<Self, ProgramError> {
        if !can_take(m, exclusive_hold(self.view)) {
            Err(ProgramError::AccountBorrowFailed)
        } else {
            match Self::decoded(m[self.view.slot as int]) {
                Ok((value, n)) => Ok(
                    SerializedAccount {
                        data: value,
                        borrowed: true,
                        payload_len: n as usize,
                        ..*self
                    },
                ),
                Err(e) => Err(e),
            }
        }
    }

    /// Takes the borrow back for writing. The account was loaded for writing and its
    /// borrow released.
    pub fn reacquire_borrow_mut(&mut self, memory: &mut AccountMemory) -> (r: Result<
        (),
        ProgramError,
    >)
        requires
            old(self).mutable,
            !old(self).borrowed,
            old(self).live(old(memory)@),
        ensures
            match old(self).reacquired(old(memory)@) {
                Ok(account) => {
                    &&& r == Ok::<(), ProgramError>(())
                    &&& *final(self) == account
                    &&& final(memory)@ == taken(old(memory)@, account.holds())
                },
                Err(e) => {
                    &&& r == Err::<(), ProgramError>(e)
                    &&& *final(self) == *old(self)
                    &&& final(memory)@ == old(memory)@
                },
            },
    {
        let ghost m = memory@;
        let guard = match self.view.try_borrow_mut(memory) {
            Ok(guard) => guard,
            Err(e) => {
                return Err(e);
            },
        };
        proof {
            law_release_undoes_borrow(m, exclusive_hold(self.view));
        }
        match Self::decode(memory, self.view) {
            Ok((value, n)) => {
                self.data = value;
                self.payload_len = n;
                self.borrowed = true;
                Ok(())
            },
            Err(e) => {
                guard.release(memory);
                Err(e)
            },
        }
    }

    /// Takes the borrow back for writing and keeps the decoded value as it is. Data that
    /// has become too short for the discriminator is refused.
    pub fn reacquire_guard_only(&mut self, memory: &mut AccountMemory) -> (r: Result<
        (),
        ProgramError,
    >)
        requires
            old(self).mutable,
            !old(self).borrowed,
            old(self).live(old(memory)@),
        ensures
            r == if !can_take(old(memory)@, exclusive_hold(old(self).view)) {
                Err::<(), ProgramError>(ProgramError::AccountBorrowFailed)
            } else if old(memory)@[old(self).view.slot as int].data.len() < Self::payload_offset() {
                Err(ProgramError::AccountDataTooSmall)
            } else {
                Ok(())
            },
            match r {
                Ok(_) => {
                    &&& *final(self) == (SerializedAccount { borrowed: true, ..*old(self) })
                    &&& final(memory)@ == taken(old(memory)@, exclusive_hold(old(self).view))
                },
                Err(_) => *final(self) == *old(self) && final(memory)@ == old(memory)@,
            },
    {
        let ghost m = memory@;
        let guard = match self.view.try_borrow_mut(memory) {
            Ok(guard) => guard,
            Err(e) => {
                return Err(e);
            },
        };
        proof {
            law_release_undoes_borrow(m, exclusive_hold(self.view));
        }
        if self.view.data_len(memory) < T::discriminator().len() {
            guard.release(memory);
            return Err(ProgramError::AccountDataTooSmall);
        }
        self.borrowed = true;
        Ok(())
    }
}

/// What an account wrote back is what is decoded from it, by whoever loads it next.
pub proof fn law_written_value_is_read_back<T: Owner + Discriminator, S: AnchorAccountSerialize<T>>(
    account: SerializedAccount<T, S>,
    m: Memory,
)
    requires
        account.mutable,
        account.borrowed,
        account.live(m),
        held(m, account.holds()),
        !closed(m[account.view.slot as int]),
        SerializedAccount::<T, S>::decoded(m[account.view.slot as int]) is Ok,
        account.written_back(m).result is Ok,
        readable::<T, S>(account.data),
    ensures
        ({
            let w = account.written_back(m);
            let after = freed(w.memory, w.account.holds());
            &&& SerializedAccount::<T, S>::decoded(after[account.view.slot as int]) == Ok::<
                (T, nat),
                ProgramError,
            >((account.data, S::encoded(account.data).len()))
            &&& SerializedAccount::<T, S>::loaded(after, account.view, false) is Ok
            &&& SerializedAccount::<T, S>::loaded(after, account.view, false)->Ok_0.data
                == account.data
            &&& (SerializedAccount { borrowed: false, ..w.account }).reacquired(after) is Ok
            &&& (SerializedAccount { borrowed: false, ..w.account }).reacquired(after)->Ok_0.data
                == account.data
        }),
{
    let at = SerializedAccount::<T, S>::payload_offset() as int;
    let slot = account.view.slot as int;
    let before = m[slot].data;
    let w = account.written_back(m);
    let after = freed(w.memory, w.account.holds());
    let enc = S::encoded(account.data);
    let data = SerializedAccount::<T, S>::committed(
        before,
        account.data,
        account.payload_len as nat,
    );
    assert(data.len() == before.len());
    assert(data.take(at) =~= before.take(at));
    let rest = data.skip(at + enc.len());
    assert(data.skip(at) =~= enc + rest);
    assert(S::decoded(enc + rest) is Ok);
    lemma_exclusive_hold(w.memory, account.view);
    assert(after[slot].data == data);
    lemma_shared_hold(after, account.view);
    lemma_exclusive_hold(after, account.view);
}

impl<T: Owner + Discriminator, S: AnchorAccountSerialize<T>> Held for SerializedAccount<T, S> {
    open spec fn holds(&self) -> Multiset<Hold> {
        if self.borrowed {
            data_hold(self.view, self.mutable)
        } else {
            Multiset::empty()
        }
    }

    open spec fn live(&self, m: Memory) -> bool {
        self.view.slot < m.len()
    }

    proof fn lemma_live_stays(&self, m: Memory, n: Memory) {
    }
}

impl<T: Owner + Discriminator, S: AnchorAccountSerialize<T>> Release for SerializedAccount<T, S> {
    fn release(self, memory: &mut AccountMemory) {
        if !self.borrowed {
            proof {
                lemma_no_holds(memory@);
            }
        } else if self.mutable {
            RefMut { view: self.view }.release(memory);
        } else {
            Ref { view: self.view }.release(memory);
        }
    }
}

impl<T: Owner + Discriminator, S: AnchorAccountSerialize<T>> Wrapper for SerializedAccount<
    T,
    S,
> {
    open spec fn target(&self) -> AccountView {
        self.view
    }

    open spec fn loaded(m: Memory, view: AccountView, mutable: bool) -> Result<Self, ProgramError> {
        if mutable && !m[view.slot as int].is_writable {
            Err(ErrorCode::ConstraintMut.program_error())
        } else if !can_take(m, data_hold(view, mutable)) {
            Err(ProgramError::AccountBorrowFailed)
        } else {
            match Self::decoded(m[view.slot as int]) {
                Ok((value, n)) => Ok(
                    SerializedAccount {
                        view,
                        data: value,
                        mutable,
                        borrowed: true,
                        payload_len: n as usize,
                        codec: PhantomData,
                    },
                ),
                Err(e) => Err(e),
            }
        }
    }

    open spec fn exited(&self, m: Memory) -> Exit<Self> {
        self.written_back(m)
    }

    open spec fn keeps_data() -> bool {
        true
    }

    open spec fn ignores_borrows() -> bool {
        true
    }

    proof fn lemma_loaded(m: Memory, view: AccountView, mutable: bool) {
    }

    proof fn lemma_loaded_beside(m: Memory, k: Multiset<Hold>, view: AccountView, mutable: bool) {
    }

    proof fn lemma_exited(&self, m: Memory) {
        let w = self.written_back(m);
        let account = m[self.view.slot as int];
        if self.mutable && self.borrowed && !closed(account) && account.data.len()
            >= Self::payload_offset() + S::encoded(self.data).len() {
            let data = Self::committed(account.data, self.data, self.payload_len as nat);
            assert(data.len() == account.data.len());
            assert(borrow_states(with_data(m, self.view.slot as int, data)) =~= borrow_states(m));
        }
    }
}

impl<T: Owner + Discriminator, S: AnchorAccountSerialize<T>> AnchorAccount for SerializedAccount<
    T,
    S,
> {
    fn load(memory: &mut AccountMemory, view: AccountView) -> (r: Result<Self, ProgramError>) {
        let ghost m = memory@;
        let guard = match view.try_borrow(memory) {
            Ok(guard) => guard,
            Err(e) => {
                return Err(e);
            },
        };
        proof {
            law_release_undoes_borrow(m, shared_hold(view));
        }
        match Self::decode(memory, view) {
            Ok((data, payload_len)) => Ok(
                SerializedAccount {
                    view,
                    data,
                    mutable: false,
                    borrowed: true,
                    payload_len,
                    codec: PhantomData,
                },
            ),
            Err(e) => {
                guard.release(memory);
                Err(e)
            },
        }
    }

    fn load_mut(memory: &mut AccountMemory, view: AccountView) -> (r: Result<Self, ProgramError>) {
        let ghost m = memory@;
        match check_writable(memory, view) {
            Ok(_) => {},
            Err(e) => {
                return Err(e);
            },
        }
        let guard = match view.try_borrow_mut(memory) {
            Ok(guard) => guard,
            Err(e) => {
                return Err(e);
            },
        };
        proof {
            law_release_undoes_borrow(m, exclusive_hold(view));
        }
        match Self::decode(memory, view) {
            Ok((data, payload_len)) => Ok(
                SerializedAccount {
                    view,
                    data,
                    mutable: true,
                    borrowed: true,
                    payload_len,
                    codec: PhantomData,
                },
            ),
            Err(e) => {
                guard.release(memory);
                Err(e)
            },
        }
    }

    fn account(&self) -> (view: AccountView) {
        self.view
    }

    fn exit(&mut self, memory: &mut AccountMemory) -> (r: Result<(), ProgramError>)
        ensures
            ({
                let slot = old(self).view.slot as int;
                let a = old(memory)@[slot];
                let at = T::spec_discriminator().len() as int;
                let enc = S::encoded(old(self).data);
                let b = final(memory)@[slot].data;
                old(self).mutable && old(self).borrowed && (a.lamports != 0 || a.data.len() != 0
                    || a.owner != Seq::new(32, |i: int| 0u8)) && a.data.len() >= at
                    && S::encode_error(old(self).data, (a.data.len() - at) as nat) is None ==> {
                    &&& r is Ok
                    &&& at + enc.len() <= a.data.len()
                    &&& b.len() == a.data.len()
                    &&& forall|i: int| 0 <= i < at ==> #[trigger] b[i] == a.data[i]
                    &&& b.subrange(at, at + enc.len()) == enc
                    &&& forall|i: int|
                        at + enc.len() <= i < b.len() ==> #[trigger] b[i] == if i < at + old(
                            self,
                        ).payload_len {
                            0
                        } else {
                            a.data[i]
                        }
                }
            }),
    {
        self.write_back(memory)
    }
}

} // verus!
