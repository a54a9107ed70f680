//! How the program's accounts are validated, tried and updated: no struct asks for an
//! update, so all are validated by being tried.

use crate::dispatch::{TriedByValidating, ValidatedByFields, ValidatedByTrying};
use crate::dup_mut::accounts::{
    law_header_sizes, InnerMutReadonly, InnerTwoMut, ReadTwo, SignerRoles, TouchBorshMutAndReadonly,
    TouchBoxedMutAndReadonly, TouchDataAndRaw, TouchMutAndReadonly, TouchNestedMutReadonly,
    TouchNestedTwoMut, TouchOptionalMutAndMut, TouchOuterMutPlusNested, TouchReadonlyAndMut,
    TouchThreeMut, TouchTwoMut, TransferToRawAlias, TransferToRecipient,
};
use crate::dup_mut::init::{Initialize, InitializeBorsh};
use vstd::prelude::*;

verus! {

impl ValidatedByTrying for TouchTwoMut {
    proof fn law_validating_is_trying<'ix>() {
    }
}

impl TriedByValidating for TouchTwoMut {
    proof fn law_trying_is_validating_and_updating<'ix>() {
    }
}

impl ValidatedByTrying for TouchThreeMut {
    proof fn law_validating_is_trying<'ix>() {
    }
}

impl TriedByValidating for TouchThreeMut {
    proof fn law_trying_is_validating_and_updating<'ix>() {
    }
}

impl ValidatedByTrying for TouchMutAndReadonly {
    proof fn law_validating_is_trying<'ix>() {
    }
}

impl TriedByValidating for TouchMutAndReadonly {
    proof fn law_trying_is_validating_and_updating<'ix>() {
    }
}

impl ValidatedByTrying for TouchReadonlyAndMut {
    proof fn law_validating_is_trying<'ix>() {
    }
}

impl TriedByValidating for TouchReadonlyAndMut {
    proof fn law_trying_is_validating_and_updating<'ix>() {
    }
}

impl ValidatedByTrying for ReadTwo {
    proof fn law_validating_is_trying<'ix>() {
    }
}

impl TriedByValidating for ReadTwo {
    proof fn law_trying_is_validating_and_updating<'ix>() {
    }
}

impl ValidatedByTrying for TouchBorshMutAndReadonly {
    proof fn law_validating_is_trying<'ix>() {
    }
}

impl TriedByValidating for TouchBorshMutAndReadonly {
    proof fn law_trying_is_validating_and_updating<'ix>() {
    }
}

impl ValidatedByTrying for TouchBoxedMutAndReadonly {
    proof fn law_validating_is_trying<'ix>() {
    }
}

impl TriedByValidating for TouchBoxedMutAndReadonly {
    proof fn law_trying_is_validating_and_updating<'ix>() {
    }
}

impl ValidatedByTrying for TouchOptionalMutAndMut {
    proof fn law_validating_is_trying<'ix>() {
    }
}

impl TriedByValidating for TouchOptionalMutAndMut {
    proof fn law_trying_is_validating_and_updating<'ix>() {
    }
}

impl ValidatedByTrying for InnerTwoMut {
    proof fn law_validating_is_trying<'ix>() {
    }
}

impl TriedByValidating for InnerTwoMut {
    proof fn law_trying_is_validating_and_updating<'ix>() {
    }
}

impl ValidatedByTrying for InnerMutReadonly {
    proof fn law_validating_is_trying<'ix>() {
    }
}

impl TriedByValidating for InnerMutReadonly {
    proof fn law_trying_is_validating_and_updating<'ix>() {
    }
}

impl ValidatedByTrying for TouchNestedTwoMut {
    proof fn law_validating_is_trying<'ix>() {
    }
}

impl TriedByValidating for TouchNestedTwoMut {
    proof fn law_trying_is_validating_and_updating<'ix>() {
    }
}

impl ValidatedByTrying for TouchNestedMutReadonly {
    proof fn law_validating_is_trying<'ix>() {
    }
}

impl TriedByValidating for TouchNestedMutReadonly {
    proof fn law_trying_is_validating_and_updating<'ix>() {
    }
}

impl ValidatedByTrying for TouchOuterMutPlusNested {
    proof fn law_validating_is_trying<'ix>() {
    }
}

impl TriedByValidating for TouchOuterMutPlusNested {
    proof fn law_trying_is_validating_and_updating<'ix>() {
    }
}

impl ValidatedByTrying for SignerRoles {
    proof fn law_validating_is_trying<'ix>() {
    }
}

impl TriedByValidating for SignerRoles {
    proof fn law_trying_is_validating_and_updating<'ix>() {
    }
}

impl ValidatedByTrying for TransferToRecipient {
    proof fn law_validating_is_trying<'ix>() {
    }
}

impl TriedByValidating for TransferToRecipient {
    proof fn law_trying_is_validating_and_updating<'ix>() {
    }
}

impl ValidatedByTrying for TouchDataAndRaw {
    proof fn law_validating_is_trying<'ix>() {
    }
}

impl TriedByValidating for TouchDataAndRaw {
    proof fn law_trying_is_validating_and_updating<'ix>() {
    }
}

impl ValidatedByTrying for TransferToRawAlias {
    proof fn law_validating_is_trying<'ix>() {
    }
}

impl TriedByValidating for TransferToRawAlias {
    proof fn law_trying_is_validating_and_updating<'ix>() {
    }
}

impl ValidatedByTrying for Initialize {
    proof fn law_validating_is_trying<'ix>() {
    }
}

impl TriedByValidating for Initialize {
    proof fn law_trying_is_validating_and_updating<'ix>() {
    }
}

impl ValidatedByTrying for InitializeBorsh {
    proof fn law_validating_is_trying<'ix>() {
    }
}

impl TriedByValidating for InitializeBorsh {
    proof fn law_trying_is_validating_and_updating<'ix>() {
    }
}

impl ValidatedByFields for TouchTwoMut {
    proof fn lemma_validated_by_fields<'ix>() {
        law_header_sizes();
    }
}

impl ValidatedByFields for TouchThreeMut {
    proof fn lemma_validated_by_fields<'ix>() {
        law_header_sizes();
    }
}

impl ValidatedByFields for TouchMutAndReadonly {
    proof fn lemma_validated_by_fields<'ix>() {
        law_header_sizes();
    }
}

impl ValidatedByFields for TouchReadonlyAndMut {
    proof fn lemma_validated_by_fields<'ix>() {
        law_header_sizes();
    }
}

impl ValidatedByFields for ReadTwo {
    proof fn lemma_validated_by_fields<'ix>() {
        law_header_sizes();
    }
}

impl ValidatedByFields for TouchBorshMutAndReadonly {
    proof fn lemma_validated_by_fields<'ix>() {
        law_header_sizes();
    }
}

impl ValidatedByFields for TouchBoxedMutAndReadonly {
    proof fn lemma_validated_by_fields<'ix>() {
        law_header_sizes();
    }
}

impl ValidatedByFields for TouchOptionalMutAndMut {
    proof fn lemma_validated_by_fields<'ix>() {
        law_header_sizes();
    }
}

impl ValidatedByFields for InnerTwoMut {
    proof fn lemma_validated_by_fields<'ix>() {
        law_header_sizes();
    }
}

impl ValidatedByFields for InnerMutReadonly {
    proof fn lemma_validated_by_fields<'ix>() {
        law_header_sizes();
    }
}

impl ValidatedByFields for TouchNestedTwoMut {
    proof fn lemma_validated_by_fields<'ix>() {
        law_header_sizes();
    }
}

impl ValidatedByFields for TouchNestedMutReadonly {
    proof fn lemma_validated_by_fields<'ix>() {
        law_header_sizes();
    }
}

impl ValidatedByFields for TouchOuterMutPlusNested {
    proof fn lemma_validated_by_fields<'ix>() {
        law_header_sizes();
    }
}

impl ValidatedByFields for SignerRoles {
    proof fn lemma_validated_by_fields<'ix>() {
        law_header_sizes();
    }
}

impl ValidatedByFields for TransferToRecipient {
    proof fn lemma_validated_by_fields<'ix>() {
        law_header_sizes();
    }
}

impl ValidatedByFields for TouchDataAndRaw {
    proof fn lemma_validated_by_fields<'ix>() {
        law_header_sizes();
    }
}

impl ValidatedByFields for TransferToRawAlias {
    proof fn lemma_validated_by_fields<'ix>() {
        law_header_sizes();
    }
}

} // verus!
