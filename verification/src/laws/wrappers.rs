//! Which accounts the wrappers take, told by flags, owners, bytes and borrow states.

use crate::accounts::compose::{next_loaded, optional_loaded, pair_exited, pair_loaded};
use crate::accounts::nested::Nested;
use crate::accounts::program::{system_program_id, Id, Program, System};
use crate::accounts::serialized::{closed, AnchorAccountSerialize, SerializedAccount};
use crate::accounts::signer::Signer;
use crate::accounts::slab::{
    item_capacity, item_count, items_offset, len_offset, Account, HeaderOnly, Slab, SlabTail,
};
use crate::accounts::system_account::SystemAccount;
use crate::accounts::unchecked_account::UncheckedAccount;
use crate::accounts::Wrapper;
use crate::error::ErrorCode;
use crate::laws::borrows::{
    law_exclusive_borrow_empties_the_state, law_shared_borrow_counts_down,
};
use crate::laws::bytes::law_four_bytes_make_a_number;
use crate::memory::{taken, AccountModel, AccountView, Held, Hold, Memory};
use crate::schema::{checked_header, Discriminator, Owner, Pod, SlabSchema};
use solana_program_error::ProgramError;
use vstd::multiset::Multiset;
use vstd::prelude::*;

verus! {

/// The address of the System program is 32 zero bytes.
pub proof fn law_system_program_address(i: int)
    requires
        0 <= i < 32,
    ensures
        system_program_id().len() == 32,
        system_program_id()[i] == 0,
        System::spec_id() == system_program_id(),
{
}

/// A signer is an account that signed and, where it is to be written, is writable; any
/// other is refused for the missing signature. It wraps its own account and borrows
/// nothing.
pub proof fn law_who_is_a_signer(m: Memory, view: AccountView, mutable: bool)
    ensures
        ({
            let a = m[view.slot as int];
            let r = Signer::loaded(m, view, mutable);
            &&& r is Ok <==> a.is_signer && (mutable ==> a.is_writable)
            &&& r matches Ok(signer) ==> signer.view == view && signer.holds() == Multiset::<
                Hold,
            >::empty()
            &&& r matches Err(e) ==> e == ProgramError::MissingRequiredSignature
        }),
{
}

/// A program is an executable account at the program's address that, where it is to be
/// written, is writable. It wraps its own account and borrows nothing.
pub proof fn law_which_account_is_the_program<T: Id>(m: Memory, view: AccountView, mutable: bool)
    ensures
        ({
            let a = m[view.slot as int];
            let r = Program::<T>::loaded(m, view, mutable);
            &&& r is Ok <==> (mutable ==> a.is_writable) && a.address == T::spec_id()
                && a.executable
            &&& r matches Ok(program) ==> program.view == view && program.holds() == Multiset::<
                Hold,
            >::empty()
            &&& r matches Err(e) ==> if mutable && !a.is_writable {
                e == ProgramError::Custom(2000)
            } else if a.address != T::spec_id() {
                e == ProgramError::IncorrectProgramId
            } else {
                e == ProgramError::Custom(2007)
            }
        }),
{
}

/// A system account is one that the System program owns and that, where it is to be
/// written, is writable. It wraps its own account and borrows nothing.
pub proof fn law_which_account_is_a_system_account(m: Memory, view: AccountView, mutable: bool)
    ensures
        ({
            let a = m[view.slot as int];
            let r = SystemAccount::loaded(m, view, mutable);
            &&& r is Ok <==> (mutable ==> a.is_writable) && a.owner == Seq::new(32, |i: int| 0u8)
            &&& r matches Ok(account) ==> account.view == view && account.holds() == Multiset::<
                Hold,
            >::empty()
            &&& r matches Err(e) ==> if mutable && !a.is_writable {
                e == ProgramError::Custom(2000)
            } else {
                e == ProgramError::IllegalOwner
            }
        }),
{
    assert(system_program_id() =~= Seq::new(32, |i: int| 0u8));
}

/// An unchecked account is any account that, where it is to be written, is writable. It
/// wraps its own account and borrows nothing.
pub proof fn law_any_account_is_unchecked(m: Memory, view: AccountView, mutable: bool)
    ensures
        ({
            let a = m[view.slot as int];
            let r = UncheckedAccount::loaded(m, view, mutable);
            &&& r is Ok <==> (mutable ==> a.is_writable)
            &&& r matches Ok(account) ==> account.view == view && account.holds() == Multiset::<
                Hold,
            >::empty()
            &&& r matches Err(e) ==> e == ProgramError::Custom(2000)
        }),
{
}

/// A header is accepted exactly where the owner is the one asked for, the data is long
/// enough, and it begins with the discriminator; the first of these that fails gives the
/// error.
pub proof fn law_header_check(
    a: AccountModel,
    owner: Seq<u8>,
    discriminator: Seq<u8>,
    min_len: nat,
)
    requires
        discriminator.len() <= min_len,
    ensures
        ({
            let r = checked_header(a, owner, discriminator, min_len);
            &&& r is Ok <==> a.owner == owner && a.data.len() >= min_len && (forall|i: int|
                0 <= i < discriminator.len() ==> #[trigger] a.data[i] == discriminator[i])
            &&& r matches Err(e) ==> if a.owner != owner {
                e == ProgramError::IllegalOwner
            } else if a.data.len() < min_len {
                e == ProgramError::AccountDataTooSmall
            } else {
                e == ProgramError::InvalidAccountData
            }
        }),
{
    let n = discriminator.len() as int;
    if a.data.len() >= min_len {
        if a.data.take(n) == discriminator {
            assert forall|i: int| 0 <= i < n implies #[trigger] a.data[i] == discriminator[i] by {
                assert(a.data.take(n)[i] == discriminator[i]);
            }
        } else if forall|i: int| 0 <= i < n ==> #[trigger] a.data[i] == discriminator[i] {
            assert(a.data.take(n) =~= discriminator);
        }
    }
}

/// The header of a type with an owner and a discriminator lies right after the
/// discriminator, and its check asks for the owner, the discriminator and room for both.
pub proof fn law_where_a_header_lies<T: Owner + Discriminator + Pod>(a: AccountModel)
    ensures
        <T as SlabSchema>::spec_data_offset() == T::spec_discriminator().len(),
        <T as SlabSchema>::spec_min_data_len() == T::spec_discriminator().len() + T::size(),
        <T as SlabSchema>::validated(a) == checked_header(
            a,
            T::spec_owner(),
            T::spec_discriminator(),
            T::spec_discriminator().len() + T::size(),
        ),
        len_offset::<T>() == T::spec_discriminator().len() + T::size(),
        items_offset::<T>() == T::spec_discriminator().len() + T::size() + 4,
{
}

/// The count of items is the number of four bytes after the header, and the items after it
/// have room for as many as fit whole; items without bytes take no room. Nothing follows a
/// header alone.
pub proof fn law_items_of_a_slab<H: SlabSchema, T: Pod>(data: Seq<u8>)
    requires
        data.len() >= H::spec_data_offset() + H::size() + 4,
    ensures
        ({
            let at = (H::spec_data_offset() + H::size()) as int;
            let room = data.len() - at - 4;
            let size = T::size() as int;
            &&& item_count::<H>(data) == data[at] + data[at + 1] * 0x100 + data[at + 2] * 0x1_0000
                + data[at + 3] * 0x100_0000
            &&& size == 0 ==> item_capacity::<H, T>(data) == 0xffff_ffff
            &&& size > 0 ==> item_capacity::<H, T>(data) * size <= room < (item_capacity::<H, T>(
                data,
            ) + 1) * size
            &&& <T as SlabTail>::spec_has_items()
            &&& <T as SlabTail>::spec_item_size() == T::size()
            &&& !HeaderOnly::spec_has_items()
        }),
{
    let at = (H::spec_data_offset() + H::size()) as int;
    law_four_bytes_make_a_number(data.subrange(at, at + 4));
    let room = data.len() - at - 4;
    let size = T::size() as int;
    if size > 0 {
        let q = room / size;
        assert(q * size <= room < (q + 1) * size && q >= 0) by (nonlinear_arith)
            requires
                q == room / size,
                size > 0,
                room >= 0,
        ;
    }
}

/// A slab is accepted by its header's check, and where its header, count and items fit the
/// data; it is too small where the header or the count does not, and invalid where more
/// items are counted than there is room for.
pub proof fn law_which_account_is_a_slab<H: SlabSchema, T: SlabTail>(a: AccountModel)
    ensures
        ({
            let r = Slab::<H, T>::validated(a);
            let header = H::spec_data_offset() + H::size();
            let items = T::spec_has_items();
            &&& H::validated(a) matches Err(e) ==> r == Err::<(), ProgramError>(e)
            &&& H::validated(a) is Ok ==> {
                &&& a.data.len() < header ==> r == Err::<(), ProgramError>(
                    ProgramError::AccountDataTooSmall,
                )
                &&& a.data.len() >= header && !items ==> r is Ok
                &&& header <= a.data.len() < header + 4 && items ==> r == Err::<(), ProgramError>(
                    ProgramError::AccountDataTooSmall,
                )
                &&& a.data.len() >= header + 4 && items ==> {
                    &&& r is Ok <==> item_count::<H>(a.data) <= item_capacity::<H, T>(a.data)
                    &&& r matches Err(e) ==> e == ProgramError::InvalidAccountData
                }
            }
        }),
{
}

/// A slab loads where it may be written if it is to be, its data can be borrowed, and the
/// account, so borrowed, is accepted. It wraps its own account, and its borrow is
/// exclusive exactly where it is to write.
pub proof fn law_which_slab_loads<H: SlabSchema, T: SlabTail>(
    m: Memory,
    view: AccountView,
    mutable: bool,
)
    requires
        view.slot < m.len(),
    ensures
        ({
            let a = m[view.slot as int];
            let r = Slab::<H, T>::loaded(m, view, mutable);
            let state = if mutable {
                0u8
            } else {
                (a.borrow_state - 1) as u8
            };
            let free = if mutable {
                a.borrow_state == 255
            } else {
                a.borrow_state >= 2
            };
            let accepted = Slab::<H, T>::validated(AccountModel { borrow_state: state, ..a });
            &&& mutable && !a.is_writable ==> r == Err::<Slab<H, T>, ProgramError>(
                ProgramError::Custom(2000),
            )
            &&& (mutable ==> a.is_writable) && !free ==> r == Err::<Slab<H, T>, ProgramError>(
                ProgramError::AccountBorrowFailed,
            )
            &&& (mutable ==> a.is_writable) && free ==> {
                &&& r is Ok <==> accepted is Ok
                &&& accepted matches Err(e) ==> r == Err::<Slab<H, T>, ProgramError>(e)
            }
            &&& r matches Ok(slab) ==> {
                &&& slab.view == view
                &&& slab.mutable == mutable
                &&& slab.holds() == Multiset::singleton(
                    Hold { slot: view.slot as int, exclusive: mutable },
                )
            }
        }),
{
    law_shared_borrow_counts_down(m, view);
    law_exclusive_borrow_empties_the_state(m, view);
}

/// An account of a type with an owner and a discriminator loads exactly where it may be
/// written if it is to be, its data can be borrowed, the owner is the type's, and the data
/// begins with the discriminator and has room for the value; the first of these that
/// fails gives the error.
pub proof fn law_which_typed_account_loads<T: Owner + Discriminator + Pod>(
    m: Memory,
    view: AccountView,
    mutable: bool,
)
    requires
        view.slot < m.len(),
    ensures
        ({
            let a = m[view.slot as int];
            let d = T::spec_discriminator();
            let r = Account::<T>::loaded(m, view, mutable);
            let free = if mutable {
                a.borrow_state == 255
            } else {
                a.borrow_state >= 2
            };
            &&& r is Ok <==> (mutable ==> a.is_writable) && free && a.owner == T::spec_owner()
                && a.data.len() >= d.len() + T::size() && (forall|i: int|
                0 <= i < d.len() ==> #[trigger] a.data[i] == d[i])
            &&& r matches Err(e) ==> if mutable && !a.is_writable {
                e == ProgramError::Custom(2000)
            } else if !free {
                e == ProgramError::AccountBorrowFailed
            } else if a.owner != T::spec_owner() {
                e == ProgramError::IllegalOwner
            } else if a.data.len() < d.len() + T::size() {
                e == ProgramError::AccountDataTooSmall
            } else {
                e == ProgramError::InvalidAccountData
            }
            &&& r matches Ok(account) ==> account.view == view && account.mutable == mutable
        }),
{
    let a = m[view.slot as int];
    law_which_slab_loads::<T, HeaderOnly>(m, view, mutable);
    law_header_check(
        a,
        T::spec_owner(),
        T::spec_discriminator(),
        T::spec_discriminator().len() + T::size(),
    );
}

/// The least data of a slab, and the data for so many items: what the layout takes, but
/// not less than the header asks for.
pub proof fn law_data_that_a_slab_takes<H: SlabSchema, T: SlabTail>(capacity: u32)
    ensures
        ({
            let least = H::spec_min_data_len() as int;
            let header = (H::spec_data_offset() + H::size()) as int;
            let alone = if T::spec_has_items() {
                header + 4
            } else {
                header
            };
            let full = header + 4 + capacity * T::spec_item_size();
            &&& Slab::<H, T>::spec_min_data_len() >= alone
            &&& Slab::<H, T>::spec_min_data_len() >= least
            &&& Slab::<H, T>::spec_min_data_len() == alone || Slab::<H, T>::spec_min_data_len()
                == least
            &&& Slab::<H, T>::spec_space_for(capacity) >= full
            &&& Slab::<H, T>::spec_space_for(capacity) >= least
            &&& Slab::<H, T>::spec_space_for(capacity) == full || Slab::<H, T>::spec_space_for(
                capacity,
            ) == least
        }),
{
}

/// What a slab reads and writes: the bytes of its header, in place. No other byte of the
/// account, nothing else of it, and no other account changes.
pub proof fn law_slab_writes_its_header_alone<H: SlabSchema, T: SlabTail>(
    slab: Slab<H, T>,
    m: Memory,
    value: H,
)
    requires
        slab.view.slot < m.len(),
        H::spec_data_offset() + H::size() <= m[slab.view.slot as int].data.len(),
        value.encoded().len() == H::size(),
    ensures
        ({
            let at = slab.view.slot as int;
            let lo = H::spec_data_offset() as int;
            let hi = (H::spec_data_offset() + H::size()) as int;
            let n = slab.stored(m, value);
            &&& slab.read(m) == H::decoded(m[at].data.subrange(lo, hi))
            &&& n.len() == m.len()
            &&& forall|i: int| 0 <= i < m.len() && i != at ==> #[trigger] n[i] == m[i]
            &&& n[at] == (AccountModel { data: n[at].data, ..m[at] })
            &&& n[at].data.len() == m[at].data.len()
            &&& n[at].data.subrange(lo, hi) == value.encoded()
            &&& forall|i: int|
                0 <= i < m[at].data.len() && !(lo <= i < hi) ==> #[trigger] n[at].data[i]
                    == m[at].data[i]
        }),
{
    let at = slab.view.slot as int;
    let lo = H::spec_data_offset() as int;
    let hi = (H::spec_data_offset() + H::size()) as int;
    assert(slab.stored(m, value)[at].data.subrange(lo, hi) =~= value.encoded());
}

/// A boxed wrapper is the wrapper in a box, and so is what becomes of it.
pub proof fn law_box_wraps_what_it_holds<A: Wrapper>(m: Memory, view: AccountView, mutable: bool)
    ensures
        ({
            let r = Box::<A>::loaded(m, view, mutable);
            let plain = A::loaded(m, view, mutable);
            &&& r is Ok <==> plain is Ok
            &&& r matches Ok(boxed) ==> *boxed == plain->Ok_0 && boxed.holds()
                == plain->Ok_0.holds() && boxed.target() == plain->Ok_0.target()
                && boxed.exited(m).result == plain->Ok_0.exited(m).result && boxed.exited(m).memory
                == plain->Ok_0.exited(m).memory && *boxed.exited(m).account
                == plain->Ok_0.exited(m).account
            &&& r matches Err(e) ==> plain == Err::<A, ProgramError>(e)
        }),
{
}

/// An optional account is absent exactly where the view is of the program itself, whatever
/// that account is like; otherwise it is what the wrapper makes of it. An absent one
/// borrows nothing.
pub proof fn law_absent_is_the_program_itself<A: Wrapper>(
    program_id: Seq<u8>,
    m: Memory,
    view: AccountView,
    mutable: bool,
)
    ensures
        ({
            let r = optional_loaded::<A>(program_id, m, view, mutable);
            let plain = A::loaded(m, view, mutable);
            let absent = m[view.slot as int].address == program_id;
            &&& absent ==> r == Ok::<Option<A>, ProgramError>(None)
            &&& !absent ==> match plain {
                Ok(a) => r == Ok::<Option<A>, ProgramError>(Some(a)),
                Err(e) => r == Err::<Option<A>, ProgramError>(e),
            }
            &&& r matches Ok(Some(a)) ==> r->Ok_0.holds() == a.holds()
            &&& r matches Ok(None) ==> r->Ok_0.holds() == Multiset::<Hold>::empty()
        }),
{
}

/// Of two accounts that are loaded together, the first loads as it does alone, the second
/// as it does once the first has its borrows; the first refusal decides.
pub proof fn law_two_load_one_after_the_other<A: Wrapper, B: Wrapper>(
    m: Memory,
    first: (AccountView, bool),
    second: (AccountView, bool),
)
    ensures
        ({
            let r = pair_loaded::<A, B>(m, first, second);
            let a = A::loaded(m, first.0, first.1);
            let b = B::loaded(taken(m, a->Ok_0.holds()), second.0, second.1);
            &&& r is Ok <==> a is Ok && b is Ok
            &&& r matches Ok((x, y)) ==> x == a->Ok_0 && y == b->Ok_0 && r->Ok_0.holds()
                == x.holds().add(y.holds())
            &&& a matches Err(e) ==> r == Err::<(A, B), ProgramError>(e)
            &&& a is Ok ==> (b matches Err(e) ==> r == Err::<(A, B), ProgramError>(e))
        }),
{
}

/// One more account loads as it does once those before it have their borrows.
pub proof fn law_one_more_loads_after_the_others<P: Held, A: Wrapper>(
    m: Memory,
    prior: Result<P, ProgramError>,
    view: AccountView,
    mutable: bool,
)
    ensures
        ({
            let r = next_loaded::<P, A>(m, prior, view, mutable);
            let a = A::loaded(taken(m, prior->Ok_0.holds()), view, mutable);
            &&& r is Ok <==> prior is Ok && a is Ok
            &&& r matches Ok((x, y)) ==> x == prior->Ok_0 && y == a->Ok_0
            &&& prior matches Err(e) ==> r == Err::<(P, A), ProgramError>(e)
            &&& prior is Ok ==> (a matches Err(e) ==> r == Err::<(P, A), ProgramError>(e))
        }),
{
}

/// Of two accounts that are written back, the second is so where the first succeeded, into
/// the memory that the first left; the first failure decides.
pub proof fn law_two_exit_one_after_the_other<A: Wrapper, B: Wrapper>(a: A, b: B, m: Memory)
    ensures
        ({
            let r = pair_exited(a, b, m);
            let x = a.exited(m);
            let y = b.exited(x.memory);
            &&& x.result is Err ==> r.result == x.result && r.account.0 == x.account && r.account.1
                == b && r.memory == x.memory
            &&& x.result is Ok ==> r.result == y.result && r.account.0 == x.account && r.account.1
                == y.account && r.memory == y.memory
        }),
{
}

/// Wrappers whose data is in place, or that expose none, have nothing to write back.
pub proof fn law_nothing_to_write_back<H: SlabSchema, T: SlabTail, P: Id>(
    slab: Slab<H, T>,
    signer: Signer,
    program: Program<P>,
    system_account: SystemAccount,
    unchecked: UncheckedAccount,
    m: Memory,
)
    ensures
        slab.exited(m).result is Ok && slab.exited(m).account == slab && slab.exited(m).memory == m,
        signer.exited(m).result is Ok && signer.exited(m).account == signer && signer.exited(
            m,
        ).memory == m,
        program.exited(m).result is Ok && program.exited(m).account == program && program.exited(
            m,
        ).memory == m,
        system_account.exited(m).result is Ok && system_account.exited(m).account == system_account
            && system_account.exited(m).memory == m,
        unchecked.exited(m).result is Ok && unchecked.exited(m).account == unchecked
            && unchecked.exited(m).memory == m,
        slab.target() == slab.view,
        signer.target() == signer.view,
        program.target() == program.view,
        system_account.target() == system_account.view,
        unchecked.target() == unchecked.view,
{
}

/// A nested struct borrows what it holds, and nothing else.
pub proof fn law_nested_borrows_what_it_holds<T: Held>(nested: Nested<T>)
    ensures
        nested.holds() == nested.inner.holds(),
{
}

/// The errors that clients see for the framework's codes.
pub proof fn law_errors_of_the_codes()
    ensures
        ErrorCode::AccountNotEnoughKeys.program_error() == ProgramError::NotEnoughAccountKeys,
        ErrorCode::ConstraintMut.program_error() == ProgramError::Custom(2000),
        ErrorCode::ConstraintHasOne.program_error() == ProgramError::Custom(2001),
        ErrorCode::ConstraintRaw.program_error() == ProgramError::Custom(2003),
        ErrorCode::ConstraintRentExempt.program_error() == ProgramError::Custom(2005),
        ErrorCode::ConstraintExecutable.program_error() == ProgramError::Custom(2007),
        ErrorCode::ConstraintClose.program_error() == ProgramError::Custom(2011),
        ErrorCode::ConstraintAddress.program_error() == ProgramError::Custom(2012),
        ErrorCode::ConstraintZero.program_error() == ProgramError::Custom(2013),
        ErrorCode::ConstraintSpace.program_error() == ProgramError::Custom(2019),
        ErrorCode::ConstraintAccountIsNone.program_error() == ProgramError::Custom(2020),
        ErrorCode::ConstraintSigner.program_error() == ProgramError::MissingRequiredSignature,
        ErrorCode::ConstraintSeeds.program_error() == ProgramError::InvalidSeeds,
        ErrorCode::ConstraintOwner.program_error() == ProgramError::IllegalOwner,
        ErrorCode::InstructionDidNotDeserialize.program_error()
            == ProgramError::InvalidInstructionData,
        ErrorCode::InstructionFallbackNotFound.program_error()
            == ProgramError::InvalidInstructionData,
        ErrorCode::DeclaredProgramIdMismatch.program_error() == ProgramError::IncorrectProgramId,
        ErrorCode::RequireViolated.program_error() == ProgramError::Custom(2500),
        ErrorCode::RequireEqViolated.program_error() == ProgramError::Custom(2501),
        ErrorCode::RequireKeysEqViolated.program_error() == ProgramError::Custom(2502),
        ErrorCode::RequireNeqViolated.program_error() == ProgramError::Custom(2503),
        ErrorCode::RequireKeysNeqViolated.program_error() == ProgramError::Custom(2504),
        ErrorCode::RequireGtViolated.program_error() == ProgramError::Custom(2505),
        ErrorCode::RequireGteViolated.program_error() == ProgramError::Custom(2506),
{
}

/// An account is closed exactly where it has no balance, no data, and belongs to the System
/// program.
pub proof fn law_which_account_is_closed(a: AccountModel)
    ensures
        closed(a) <==> a.lamports == 0 && a.data.len() == 0 && a.owner == Seq::new(
            32,
            |i: int| 0u8,
        ),
{
    assert(system_program_id() =~= Seq::new(32, |i: int| 0u8));
}

/// A serialized account loads exactly where it may be written if it is to be, its data can
/// be borrowed, the owner is the type's, the data begins with the discriminator, and the
/// codec decodes what follows; the first of these that fails gives the error. It holds the
/// decoded value, and a borrow of its own account, exclusive where it is to write.
pub proof fn law_which_serialized_account_loads<
    T: Owner + Discriminator,
    S: AnchorAccountSerialize<T>,
>(m: Memory, view: AccountView, mutable: bool)
    requires
        view.slot < m.len(),
    ensures
        ({
            let a = m[view.slot as int];
            let d = T::spec_discriminator();
            let r = SerializedAccount::<T, S>::loaded(m, view, mutable);
            let free = if mutable {
                a.borrow_state == 255
            } else {
                a.borrow_state >= 2
            };
            let header = a.owner == T::spec_owner() && a.data.len() >= d.len() && (forall|i: int|
                0 <= i < d.len() ==> #[trigger] a.data[i] == d[i]);
            let value = S::decoded(a.data.skip(d.len() as int));
            &&& r is Ok <==> (mutable ==> a.is_writable) && free && header && value is Ok
            &&& r matches Ok(account) ==> {
                &&& account.view == view
                &&& account.mutable == mutable
                &&& account.borrowed
                &&& account.data == value->Ok_0.0
                &&& account.payload_len == value->Ok_0.1 as usize
                &&& account.holds() == Multiset::singleton(
                    Hold { slot: view.slot as int, exclusive: mutable },
                )
            }
            &&& r matches Err(e) ==> if mutable && !a.is_writable {
                e == ProgramError::Custom(2000)
            } else if !free {
                e == ProgramError::AccountBorrowFailed
            } else if a.owner != T::spec_owner() {
                e == ProgramError::IllegalOwner
            } else if a.data.len() < d.len() {
                e == ProgramError::AccountDataTooSmall
            } else if !header {
                e == ProgramError::InvalidAccountData
            } else {
                value == Err::<(T, nat), ProgramError>(e)
            }
        }),
{
    let a = m[view.slot as int];
    law_shared_borrow_counts_down(m, view);
    law_exclusive_borrow_empties_the_state(m, view);
    law_header_check(
        a,
        T::spec_owner(),
        T::spec_discriminator(),
        T::spec_discriminator().len(),
    );
}

} // verus!
