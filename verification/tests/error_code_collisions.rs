//! Error codes and the program errors they surface as.

use anchor_lang::ErrorCode;
use solana_program_error::ProgramError;

fn all_labeled_variants() -> Vec<(&'static str, ErrorCode)> {
    vec![
        ("AccountNotEnoughKeys", ErrorCode::AccountNotEnoughKeys),
        ("ConstraintMut", ErrorCode::ConstraintMut),
        ("ConstraintSigner", ErrorCode::ConstraintSigner),
        ("ConstraintSeeds", ErrorCode::ConstraintSeeds),
        ("ConstraintHasOne", ErrorCode::ConstraintHasOne),
        ("ConstraintAddress", ErrorCode::ConstraintAddress),
        ("ConstraintAccountIsNone", ErrorCode::ConstraintAccountIsNone),
        ("ConstraintClose", ErrorCode::ConstraintClose),
        ("ConstraintOwner", ErrorCode::ConstraintOwner),
        ("ConstraintSpace", ErrorCode::ConstraintSpace),
        ("ConstraintRentExempt", ErrorCode::ConstraintRentExempt),
        ("ConstraintRaw", ErrorCode::ConstraintRaw),
        ("ConstraintExecutable", ErrorCode::ConstraintExecutable),
        ("ConstraintZero", ErrorCode::ConstraintZero),
        ("InstructionDidNotDeserialize", ErrorCode::InstructionDidNotDeserialize),
        ("DeclaredProgramIdMismatch", ErrorCode::DeclaredProgramIdMismatch),
        ("InstructionFallbackNotFound", ErrorCode::InstructionFallbackNotFound),
        ("RequireViolated", ErrorCode::RequireViolated),
        ("RequireEqViolated", ErrorCode::RequireEqViolated),
        ("RequireNeqViolated", ErrorCode::RequireNeqViolated),
        ("RequireKeysEqViolated", ErrorCode::RequireKeysEqViolated),
        ("RequireKeysNeqViolated", ErrorCode::RequireKeysNeqViolated),
        ("RequireGtViolated", ErrorCode::RequireGtViolated),
        ("RequireGteViolated", ErrorCode::RequireGteViolated),
    ]
}

#[test]
fn no_two_variants_share_a_custom_code() {
    let mut seen: Vec<(u32, &'static str)> = Vec::new();
    let mut custom_count = 0;
    for (label, code) in all_labeled_variants() {
        let err: ProgramError = code.into();
        if let ProgramError::Custom(n) = err {
            custom_count += 1;
            if let Some((_, prior)) = seen.iter().find(|(k, _)| *k == n) {
                panic!("{} maps to Custom({}), already claimed by {}", label, n, prior);
            }
            seen.push((n, label));
        }
    }
    assert_eq!(custom_count, 17);
}

#[test]
fn custom_codes_are_in_reserved_ranges() {
    for (label, code) in all_labeled_variants() {
        let err: ProgramError = code.into();
        if let ProgramError::Custom(n) = err {
            let in_constraints = (2000..=2499).contains(&n);
            let in_requires = (2500..=2999).contains(&n);
            assert!(in_constraints || in_requires, "ErrorCode::{} maps to Custom({})", label, n);
        }
    }
}

#[test]
fn builtin_groupings_are_stable() {
    fn check(code: ErrorCode, expected: ProgramError) {
        let actual: ProgramError = code.into();
        assert_eq!(actual, expected);
    }

    check(ErrorCode::AccountNotEnoughKeys, ProgramError::NotEnoughAccountKeys);
    check(ErrorCode::ConstraintSigner, ProgramError::MissingRequiredSignature);
    check(ErrorCode::ConstraintSeeds, ProgramError::InvalidSeeds);
    check(ErrorCode::ConstraintAccountIsNone, ProgramError::Custom(2020));
    check(ErrorCode::ConstraintOwner, ProgramError::IllegalOwner);
    check(ErrorCode::DeclaredProgramIdMismatch, ProgramError::IncorrectProgramId);
    check(ErrorCode::RequireViolated, ProgramError::Custom(2500));
    check(ErrorCode::RequireEqViolated, ProgramError::Custom(2501));
    check(ErrorCode::RequireKeysEqViolated, ProgramError::Custom(2502));
    check(ErrorCode::RequireNeqViolated, ProgramError::Custom(2503));
    check(ErrorCode::RequireKeysNeqViolated, ProgramError::Custom(2504));
    check(ErrorCode::RequireGtViolated, ProgramError::Custom(2505));
    check(ErrorCode::RequireGteViolated, ProgramError::Custom(2506));
    check(ErrorCode::ConstraintHasOne, ProgramError::Custom(2001));
    check(ErrorCode::ConstraintAddress, ProgramError::Custom(2012));
    check(ErrorCode::ConstraintClose, ProgramError::Custom(2011));
    check(ErrorCode::ConstraintSpace, ProgramError::Custom(2019));
    check(ErrorCode::InstructionDidNotDeserialize, ProgramError::InvalidInstructionData);
    check(ErrorCode::InstructionFallbackNotFound, ProgramError::InvalidInstructionData);
}
