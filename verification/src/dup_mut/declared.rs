//! The fields of the program's structs of accounts.

use crate::accounts::compose::{optional_loaded, pair_loaded, triple_loaded};
use crate::accounts::fields::{
    field, lemma_field, lemma_fields_append, lemma_fields_next, lemma_fields_one,
    lemma_fields_pair, lemma_optional_field, optional_field, Declared, Field,
};
use crate::accounts::nested::Nested;
use crate::accounts::program::{Program, System};
use crate::accounts::serialized::BorshAccount;
use crate::accounts::signer::Signer;
use crate::accounts::slab::Account;
use crate::accounts::system_account::SystemAccount;
use crate::accounts::unchecked_account::UncheckedAccount;
use crate::accounts::Wrapper;
use crate::dup_mut::accounts::{
    InnerMutReadonly, InnerTwoMut, ReadTwo, SignerRoles, TouchBorshMutAndReadonly,
    TouchBoxedMutAndReadonly, TouchDataAndRaw, TouchMutAndReadonly, TouchNestedMutReadonly,
    TouchNestedTwoMut, TouchOptionalMutAndMut, TouchOuterMutPlusNested, TouchReadonlyAndMut,
    TouchThreeMut, TouchTwoMut, TransferToRawAlias, TransferToRecipient,
};
use crate::dup_mut::state::{BorshData, Data};
use crate::memory::{taken, AccountView, Held, Memory};
use crate::schema::law_header_check_ignores_borrows;
use solana_program_error::ProgramError;
use vstd::prelude::*;

verus! {

impl Declared for TouchTwoMut {
    open spec fn width() -> nat {
        2
    }

    open spec fn fields(program_id: Seq<u8>, views: Seq<AccountView>) -> Seq<Field> {
        seq![
            field::<Account<Data>>(views[0], true),
            field::<Account<Data>>(views[1], true),
        ]
    }

    open spec fn declared(program_id: Seq<u8>, m: Memory, views: Seq<AccountView>) -> Result<
        Self,
        ProgramError,
    > {
        Self::loaded(m, views)
    }

    proof fn lemma_fields(program_id: Seq<u8>, m: Memory, views: Seq<AccountView>) {
        law_header_check_ignores_borrows::<Data>();
        lemma_field::<Account<Data>>(m, views[0], true);
        lemma_field::<Account<Data>>(m, views[1], true);
        lemma_fields_pair::<Account<Data>, Account<Data>>(
            m,
            (views[0], true),
            (views[1], true),
        );
    }
}

impl Declared for TouchThreeMut {
    open spec fn width() -> nat {
        3
    }

    open spec fn fields(program_id: Seq<u8>, views: Seq<AccountView>) -> Seq<Field> {
        seq![
            field::<Account<Data>>(views[0], true),
            field::<Account<Data>>(views[1], true),
            field::<Account<Data>>(views[2], true),
        ]
    }

    open spec fn declared(program_id: Seq<u8>, m: Memory, views: Seq<AccountView>) -> Result<
        Self,
        ProgramError,
    > {
        Self::loaded(m, views)
    }

    proof fn lemma_fields(program_id: Seq<u8>, m: Memory, views: Seq<AccountView>) {
        law_header_check_ignores_borrows::<Data>();
        lemma_field::<Account<Data>>(m, views[0], true);
        lemma_field::<Account<Data>>(m, views[1], true);
        lemma_field::<Account<Data>>(m, views[2], true);
        lemma_fields_pair::<Account<Data>, Account<Data>>(
            m,
            (views[0], true),
            (views[1], true),
        );
        let fields = Self::fields(program_id, views);
        let pair = pair_loaded::<Account<Data>, Account<Data>>(
            m,
            (views[0], true),
            (views[1], true),
        );
        assert(seq![fields[0], fields[1]] =~= fields.take(2));
        lemma_fields_next::<(Account<Data>, Account<Data>), Account<Data>>(
            m,
            fields.take(2),
            pair,
            views[2],
            true,
        );
        assert(fields.take(2).push(fields[2]) =~= fields.take(3));
        assert(fields.take(3) =~= fields);
    }
}

impl Declared for TouchMutAndReadonly {
    open spec fn width() -> nat {
        2
    }

    open spec fn fields(program_id: Seq<u8>, views: Seq<AccountView>) -> Seq<Field> {
        seq![
            field::<Account<Data>>(views[0], true),
            field::<Account<Data>>(views[1], false),
        ]
    }

    open spec fn declared(program_id: Seq<u8>, m: Memory, views: Seq<AccountView>) -> Result<
        Self,
        ProgramError,
    > {
        Self::loaded(m, views)
    }

    proof fn lemma_fields(program_id: Seq<u8>, m: Memory, views: Seq<AccountView>) {
        law_header_check_ignores_borrows::<Data>();
        lemma_field::<Account<Data>>(m, views[0], true);
        lemma_field::<Account<Data>>(m, views[1], false);
        lemma_fields_pair::<Account<Data>, Account<Data>>(
            m,
            (views[0], true),
            (views[1], false),
        );
    }
}

impl Declared for TouchReadonlyAndMut {
    open spec fn width() -> nat {
        2
    }

    open spec fn fields(program_id: Seq<u8>, views: Seq<AccountView>) -> Seq<Field> {
        seq![
            field::<Account<Data>>(views[0], false),
            field::<Account<Data>>(views[1], true),
        ]
    }

    open spec fn declared(program_id: Seq<u8>, m: Memory, views: Seq<AccountView>) -> Result<
        Self,
        ProgramError,
    > {
        Self::loaded(m, views)
    }

    proof fn lemma_fields(program_id: Seq<u8>, m: Memory, views: Seq<AccountView>) {
        law_header_check_ignores_borrows::<Data>();
        lemma_field::<Account<Data>>(m, views[0], false);
        lemma_field::<Account<Data>>(m, views[1], true);
        lemma_fields_pair::<Account<Data>, Account<Data>>(
            m,
            (views[0], false),
            (views[1], true),
        );
    }
}

impl Declared for ReadTwo {
    open spec fn width() -> nat {
        2
    }

    open spec fn fields(program_id: Seq<u8>, views: Seq<AccountView>) -> Seq<Field> {
        seq![
            field::<Account<Data>>(views[0], false),
            field::<Account<Data>>(views[1], false),
        ]
    }

    open spec fn declared(program_id: Seq<u8>, m: Memory, views: Seq<AccountView>) -> Result<
        Self,
        ProgramError,
    > {
        Self::loaded(m, views)
    }

    proof fn lemma_fields(program_id: Seq<u8>, m: Memory, views: Seq<AccountView>) {
        law_header_check_ignores_borrows::<Data>();
        lemma_field::<Account<Data>>(m, views[0], false);
        lemma_field::<Account<Data>>(m, views[1], false);
        lemma_fields_pair::<Account<Data>, Account<Data>>(
            m,
            (views[0], false),
            (views[1], false),
        );
    }
}

impl Declared for TouchBorshMutAndReadonly {
    open spec fn width() -> nat {
        2
    }

    open spec fn fields(program_id: Seq<u8>, views: Seq<AccountView>) -> Seq<Field> {
        seq![
            field::<BorshAccount<BorshData>>(views[0], true),
            field::<BorshAccount<BorshData>>(views[1], false),
        ]
    }

    open spec fn declared(program_id: Seq<u8>, m: Memory, views: Seq<AccountView>) -> Result<
        Self,
        ProgramError,
    > {
        Self::loaded(m, views)
    }

    proof fn lemma_fields(program_id: Seq<u8>, m: Memory, views: Seq<AccountView>) {
        lemma_field::<BorshAccount<BorshData>>(m, views[0], true);
        lemma_field::<BorshAccount<BorshData>>(m, views[1], false);
        lemma_fields_pair::<BorshAccount<BorshData>, BorshAccount<BorshData>>(
            m,
            (views[0], true),
            (views[1], false),
        );
    }
}

impl Declared for TouchBoxedMutAndReadonly {
    open spec fn width() -> nat {
        2
    }

    open spec fn fields(program_id: Seq<u8>, views: Seq<AccountView>) -> Seq<Field> {
        seq![
            field::<Box<Account<Data>>>(views[0], true),
            field::<Account<Data>>(views[1], false),
        ]
    }

    open spec fn declared(program_id: Seq<u8>, m: Memory, views: Seq<AccountView>) -> Result<
        Self,
        ProgramError,
    > {
        Self::loaded(m, views)
    }

    proof fn lemma_fields(program_id: Seq<u8>, m: Memory, views: Seq<AccountView>) {
        law_header_check_ignores_borrows::<Data>();
        lemma_field::<Box<Account<Data>>>(m, views[0], true);
        lemma_field::<Account<Data>>(m, views[1], false);
        lemma_fields_pair::<Box<Account<Data>>, Account<Data>>(
            m,
            (views[0], true),
            (views[1], false),
        );
    }
}

impl Declared for InnerTwoMut {
    open spec fn width() -> nat {
        2
    }

    open spec fn fields(program_id: Seq<u8>, views: Seq<AccountView>) -> Seq<Field> {
        seq![
            field::<Account<Data>>(views[0], true),
            field::<Account<Data>>(views[1], true),
        ]
    }

    open spec fn declared(program_id: Seq<u8>, m: Memory, views: Seq<AccountView>) -> Result<
        Self,
        ProgramError,
    > {
        Self::loaded(m, views)
    }

    proof fn lemma_fields(program_id: Seq<u8>, m: Memory, views: Seq<AccountView>) {
        law_header_check_ignores_borrows::<Data>();
        lemma_field::<Account<Data>>(m, views[0], true);
        lemma_field::<Account<Data>>(m, views[1], true);
        lemma_fields_pair::<Account<Data>, Account<Data>>(
            m,
            (views[0], true),
            (views[1], true),
        );
    }
}

impl Declared for InnerMutReadonly {
    open spec fn width() -> nat {
        2
    }

    open spec fn fields(program_id: Seq<u8>, views: Seq<AccountView>) -> Seq<Field> {
        seq![
            field::<Account<Data>>(views[0], true),
            field::<Account<Data>>(views[1], false),
        ]
    }

    open spec fn declared(program_id: Seq<u8>, m: Memory, views: Seq<AccountView>) -> Result<
        Self,
        ProgramError,
    > {
        Self::loaded(m, views)
    }

    proof fn lemma_fields(program_id: Seq<u8>, m: Memory, views: Seq<AccountView>) {
        law_header_check_ignores_borrows::<Data>();
        lemma_field::<Account<Data>>(m, views[0], true);
        lemma_field::<Account<Data>>(m, views[1], false);
        lemma_fields_pair::<Account<Data>, Account<Data>>(
            m,
            (views[0], true),
            (views[1], false),
        );
    }
}

impl Declared for SignerRoles {
    open spec fn width() -> nat {
        2
    }

    open spec fn fields(program_id: Seq<u8>, views: Seq<AccountView>) -> Seq<Field> {
        seq![
            field::<Signer>(views[0], true),
            field::<Signer>(views[1], false),
        ]
    }

    open spec fn declared(program_id: Seq<u8>, m: Memory, views: Seq<AccountView>) -> Result<
        Self,
        ProgramError,
    > {
        Self::loaded(m, views)
    }

    proof fn lemma_fields(program_id: Seq<u8>, m: Memory, views: Seq<AccountView>) {
        lemma_field::<Signer>(m, views[0], true);
        lemma_field::<Signer>(m, views[1], false);
        lemma_fields_pair::<Signer, Signer>(
            m,
            (views[0], true),
            (views[1], false),
        );
    }
}

impl Declared for TransferToRecipient {
    open spec fn width() -> nat {
        3
    }

    open spec fn fields(program_id: Seq<u8>, views: Seq<AccountView>) -> Seq<Field> {
        seq![
            field::<Signer>(views[0], true),
            field::<SystemAccount>(views[1], true),
            field::<Program<System>>(views[2], false),
        ]
    }

    open spec fn declared(program_id: Seq<u8>, m: Memory, views: Seq<AccountView>) -> Result<
        Self,
        ProgramError,
    > {
        Self::loaded(m, views)
    }

    proof fn lemma_fields(program_id: Seq<u8>, m: Memory, views: Seq<AccountView>) {
        lemma_field::<Signer>(m, views[0], true);
        lemma_field::<SystemAccount>(m, views[1], true);
        lemma_field::<Program<System>>(m, views[2], false);
        lemma_fields_pair::<Signer, SystemAccount>(
            m,
            (views[0], true),
            (views[1], true),
        );
        let fields = Self::fields(program_id, views);
        let pair = pair_loaded::<Signer, SystemAccount>(
            m,
            (views[0], true),
            (views[1], true),
        );
        assert(seq![fields[0], fields[1]] =~= fields.take(2));
        lemma_fields_next::<(Signer, SystemAccount), Program<System>>(
            m,
            fields.take(2),
            pair,
            views[2],
            false,
        );
        assert(fields.take(2).push(fields[2]) =~= fields.take(3));
        assert(fields.take(3) =~= fields);
    }
}

impl Declared for TouchDataAndRaw {
    open spec fn width() -> nat {
        2
    }

    open spec fn fields(program_id: Seq<u8>, views: Seq<AccountView>) -> Seq<Field> {
        seq![
            field::<Account<Data>>(views[0], true),
            field::<UncheckedAccount>(views[1], false),
        ]
    }

    open spec fn declared(program_id: Seq<u8>, m: Memory, views: Seq<AccountView>) -> Result<
        Self,
        ProgramError,
    > {
        Self::loaded(m, views)
    }

    proof fn lemma_fields(program_id: Seq<u8>, m: Memory, views: Seq<AccountView>) {
        law_header_check_ignores_borrows::<Data>();
        lemma_field::<Account<Data>>(m, views[0], true);
        lemma_field::<UncheckedAccount>(m, views[1], false);
        lemma_fields_pair::<Account<Data>, UncheckedAccount>(
            m,
            (views[0], true),
            (views[1], false),
        );
    }
}

impl Declared for TransferToRawAlias {
    open spec fn width() -> nat {
        4
    }

    open spec fn fields(program_id: Seq<u8>, views: Seq<AccountView>) -> Seq<Field> {
        seq![
            field::<Signer>(views[0], true),
            field::<Account<Data>>(views[1], true),
            field::<UncheckedAccount>(views[2], true),
            field::<Program<System>>(views[3], false),
        ]
    }

    open spec fn declared(program_id: Seq<u8>, m: Memory, views: Seq<AccountView>) -> Result<
        Self,
        ProgramError,
    > {
        Self::loaded(m, views)
    }

    proof fn lemma_fields(program_id: Seq<u8>, m: Memory, views: Seq<AccountView>) {
        law_header_check_ignores_borrows::<Data>();
        lemma_field::<Signer>(m, views[0], true);
        lemma_field::<Account<Data>>(m, views[1], true);
        lemma_field::<UncheckedAccount>(m, views[2], true);
        lemma_field::<Program<System>>(m, views[3], false);
        lemma_fields_pair::<Signer, Account<Data>>(
            m,
            (views[0], true),
            (views[1], true),
        );
        let fields = Self::fields(program_id, views);
        let pair = pair_loaded::<Signer, Account<Data>>(
            m,
            (views[0], true),
            (views[1], true),
        );
        assert(seq![fields[0], fields[1]] =~= fields.take(2));
        lemma_fields_next::<(Signer, Account<Data>), UncheckedAccount>(
            m,
            fields.take(2),
            pair,
            views[2],
            true,
        );
        assert(fields.take(2).push(fields[2]) =~= fields.take(3));
        let triple = triple_loaded::<Signer, Account<Data>, UncheckedAccount>(
            m,
            (views[0], true),
            (views[1], true),
            (views[2], true),
        );
        lemma_fields_next::<((Signer, Account<Data>), UncheckedAccount), Program<System>>(
            m,
            fields.take(3),
            triple,
            views[3],
            false,
        );
        assert(fields.take(3).push(fields[3]) =~= fields);
    }
}

impl Declared for TouchOptionalMutAndMut {
    open spec fn width() -> nat {
        2
    }

    open spec fn fields(program_id: Seq<u8>, views: Seq<AccountView>) -> Seq<Field> {
        seq![
            optional_field::<Account<Data>>(program_id, views[0], true),
            field::<Account<Data>>(views[1], true),
        ]
    }

    open spec fn declared(program_id: Seq<u8>, m: Memory, views: Seq<AccountView>) -> Result<
        Self,
        ProgramError,
    > {
        Self::loaded(program_id, m, views)
    }

    proof fn lemma_fields(program_id: Seq<u8>, m: Memory, views: Seq<AccountView>) {
        law_header_check_ignores_borrows::<Data>();
        lemma_optional_field::<Account<Data>>(program_id, m, views[0], true);
        lemma_field::<Account<Data>>(m, views[1], true);
        let fields = Self::fields(program_id, views);
        lemma_fields_one(m, fields[0]);
        lemma_fields_next::<Option<Account<Data>>, Account<Data>>(
            m,
            seq![fields[0]],
            optional_loaded::<Account<Data>>(program_id, m, views[0], true),
            views[1],
            true,
        );
        assert(seq![fields[0]].push(fields[1]) =~= fields);
    }
}

impl Declared for TouchNestedTwoMut {
    open spec fn width() -> nat {
        Nested::<InnerTwoMut>::width()
    }

    open spec fn fields(program_id: Seq<u8>, views: Seq<AccountView>) -> Seq<Field> {
        Nested::<InnerTwoMut>::fields(program_id, views)
    }

    open spec fn declared(program_id: Seq<u8>, m: Memory, views: Seq<AccountView>) -> Result<
        Self,
        ProgramError,
    > {
        Self::loaded(m, views)
    }

    proof fn lemma_fields(program_id: Seq<u8>, m: Memory, views: Seq<AccountView>) {
        Nested::<InnerTwoMut>::lemma_fields(program_id, m, views);
    }
}

impl Declared for TouchNestedMutReadonly {
    open spec fn width() -> nat {
        Nested::<InnerMutReadonly>::width()
    }

    open spec fn fields(program_id: Seq<u8>, views: Seq<AccountView>) -> Seq<Field> {
        Nested::<InnerMutReadonly>::fields(program_id, views)
    }

    open spec fn declared(program_id: Seq<u8>, m: Memory, views: Seq<AccountView>) -> Result<
        Self,
        ProgramError,
    > {
        Self::loaded(m, views)
    }

    proof fn lemma_fields(program_id: Seq<u8>, m: Memory, views: Seq<AccountView>) {
        Nested::<InnerMutReadonly>::lemma_fields(program_id, m, views);
    }
}

impl Declared for TouchOuterMutPlusNested {
    open spec fn width() -> nat {
        1 + Nested::<InnerTwoMut>::width()
    }

    open spec fn fields(program_id: Seq<u8>, views: Seq<AccountView>) -> Seq<Field> {
        seq![field::<Account<Data>>(views[0], true)] + Nested::<InnerTwoMut>::fields(
            program_id,
            views.subrange(1, 3),
        )
    }

    open spec fn declared(program_id: Seq<u8>, m: Memory, views: Seq<AccountView>) -> Result<
        Self,
        ProgramError,
    > {
        Self::loaded(m, views)
    }

    proof fn lemma_fields(program_id: Seq<u8>, m: Memory, views: Seq<AccountView>) {
        law_header_check_ignores_borrows::<Data>();
        let outer = field::<Account<Data>>(views[0], true);
        let inner = views.subrange(1, 3);
        let rest = Nested::<InnerTwoMut>::fields(program_id, inner);
        lemma_field::<Account<Data>>(m, views[0], true);
        lemma_fields_one(m, outer);
        Nested::<InnerTwoMut>::lemma_fields(program_id, m, inner);
        lemma_fields_append(m, seq![outer], rest);
        if let Ok(a) = Account::<Data>::loaded(m, views[0], true) {
            Nested::<InnerTwoMut>::lemma_fields(program_id, taken(m, a.holds()), inner);
        }
    }
}

} // verus!
