//! The fields of the program's structs of accounts.

use crate::accounts::compose::pair_loaded;
use crate::accounts::fields::{
    field, lemma_field, lemma_fields_next, lemma_fields_one, lemma_fields_pair, Declared, Field,
};
use crate::accounts::nested::Nested;
use crate::accounts::serialized::BorshAccount;
use crate::accounts::signer::Signer;
use crate::accounts::unchecked_account::UncheckedAccount;
use crate::accounts::Wrapper;
use crate::dispatch::ValidatedByFields;
use crate::error::ErrorCode;
use crate::memory::{AccountView, Memory};
use crate::updates::accounts::{
    law_updated_header_sizes, InnerIncrement, OuterNestedGate, OuterNestedIncrement,
    RotateAuthority,
};
use crate::updates::state::{StepCounter, Vault};
use solana_program_error::ProgramError;
use vstd::prelude::*;

verus! {

impl Declared for RotateAuthority {
    open spec fn width() -> nat {
        3
    }

    open spec fn fields(program_id: Seq<u8>, views: Seq<AccountView>) -> Seq<Field> {
        seq![
            field::<BorshAccount<Vault>>(views[0], true),
            field::<Signer>(views[1], false),
            field::<UncheckedAccount>(views[2], false),
        ]
    }

    /// The vault names who signs.
    open spec fn constrained(program_id: Seq<u8>, m: Memory, views: Seq<AccountView>) -> Result<
        (),
        ProgramError,
    > {
        match BorshAccount::<Vault>::loaded(m, views[0], true) {
            Err(e) => Err(e),
            Ok(vault) => if vault.data.current_authority@ != m[views[1].slot as int].address {
                Err(ErrorCode::ConstraintHasOne.program_error())
            } else {
                Ok(())
            },
        }
    }

    open spec fn declared(program_id: Seq<u8>, m: Memory, views: Seq<AccountView>) -> Result<
        Self,
        ProgramError,
    > {
        Self::validated(m, views)
    }

    proof fn lemma_fields(program_id: Seq<u8>, m: Memory, views: Seq<AccountView>) {
        lemma_field::<BorshAccount<Vault>>(m, views[0], true);
        lemma_field::<Signer>(m, views[1], false);
        lemma_field::<UncheckedAccount>(m, views[2], false);
        lemma_fields_pair::<BorshAccount<Vault>, Signer>(m, (views[0], true), (views[1], false));
        let fields = Self::fields(program_id, views);
        assert(seq![fields[0], fields[1]] =~= fields.take(2));
        lemma_fields_next::<(BorshAccount<Vault>, Signer), UncheckedAccount>(
            m,
            fields.take(2),
            pair_loaded::<BorshAccount<Vault>, Signer>(m, (views[0], true), (views[1], false)),
            views[2],
            false,
        );
        assert(fields.take(2).push(fields[2]) =~= fields);
    }
}

impl Declared for InnerIncrement {
    open spec fn width() -> nat {
        1
    }

    open spec fn fields(program_id: Seq<u8>, views: Seq<AccountView>) -> Seq<Field> {
        seq![field::<BorshAccount<StepCounter>>(views[0], true)]
    }

    open spec fn declared(program_id: Seq<u8>, m: Memory, views: Seq<AccountView>) -> Result<
        Self,
        ProgramError,
    > {
        Self::validated(m, views)
    }

    proof fn lemma_fields(program_id: Seq<u8>, m: Memory, views: Seq<AccountView>) {
        lemma_field::<BorshAccount<StepCounter>>(m, views[0], true);
        lemma_fields_one(m, field::<BorshAccount<StepCounter>>(views[0], true));
    }
}

impl Declared for OuterNestedIncrement {
    open spec fn width() -> nat {
        Nested::<InnerIncrement>::width()
    }

    open spec fn fields(program_id: Seq<u8>, views: Seq<AccountView>) -> Seq<Field> {
        Nested::<InnerIncrement>::fields(program_id, views)
    }

    open spec fn declared(program_id: Seq<u8>, m: Memory, views: Seq<AccountView>) -> Result<
        Self,
        ProgramError,
    > {
        Self::validated(m, views)
    }

    proof fn lemma_fields(program_id: Seq<u8>, m: Memory, views: Seq<AccountView>) {
        Nested::<InnerIncrement>::lemma_fields(program_id, m, views);
    }
}

impl Declared for OuterNestedGate {
    open spec fn width() -> nat {
        Nested::<InnerIncrement>::width() + 1
    }

    open spec fn fields(program_id: Seq<u8>, views: Seq<AccountView>) -> Seq<Field> {
        Nested::<InnerIncrement>::fields(program_id, views.subrange(0, 1)).push(
            field::<UncheckedAccount>(views[1], false),
        )
    }

    /// The counter stands at one.
    open spec fn constrained(program_id: Seq<u8>, m: Memory, views: Seq<AccountView>) -> Result<
        (),
        ProgramError,
    > {
        match BorshAccount::<StepCounter>::loaded(m, views[0], true) {
            Err(e) => Err(e),
            Ok(counter) => if counter.data.value != 1 {
                Err(ErrorCode::ConstraintRaw.program_error())
            } else {
                Ok(())
            },
        }
    }

    open spec fn declared(program_id: Seq<u8>, m: Memory, views: Seq<AccountView>) -> Result<
        Self,
        ProgramError,
    > {
        Self::validated(m, views)
    }

    proof fn lemma_fields(program_id: Seq<u8>, m: Memory, views: Seq<AccountView>) {
        let own = views.subrange(0, 1);
        let inner = Nested::<InnerIncrement>::fields(program_id, own);
        Nested::<InnerIncrement>::lemma_fields(program_id, m, own);
        lemma_field::<UncheckedAccount>(m, views[1], false);
        lemma_fields_next::<InnerIncrement, UncheckedAccount>(
            m,
            inner,
            InnerIncrement::validated(m, own),
            views[1],
            false,
        );
    }
}

impl ValidatedByFields for RotateAuthority {
    proof fn lemma_validated_by_fields<'ix>() {
        law_updated_header_sizes();
    }
}

impl ValidatedByFields for InnerIncrement {
    proof fn lemma_validated_by_fields<'ix>() {
        law_updated_header_sizes();
    }
}

impl ValidatedByFields for OuterNestedIncrement {
    proof fn lemma_validated_by_fields<'ix>() {
        law_updated_header_sizes();
    }
}

impl ValidatedByFields for OuterNestedGate {
    proof fn lemma_validated_by_fields<'ix>() {
        law_updated_header_sizes();
    }
}

} // verus!
