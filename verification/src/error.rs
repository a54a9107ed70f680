//! Error codes of the framework and the program errors they surface as.

use solana_program_error::ProgramError;
use vstd::prelude::*;

verus! {

/// `solana_program_error::ProgramError`: an enum whose variants are all public,
/// which contracts name directly.
#[verifier::external_type_specification]
pub struct ExProgramError(ProgramError);

/// Failures that the framework itself reports.
#[derive(Clone, Copy, Debug, PartialEq, Eq, Structural)]
pub enum ErrorCode {
    AccountNotEnoughKeys,
    ConstraintMut,
    ConstraintSigner,
    ConstraintSeeds,
    ConstraintHasOne,
    ConstraintAddress,
    ConstraintAccountIsNone,
    ConstraintClose,
    ConstraintOwner,
    ConstraintSpace,
    ConstraintRentExempt,
    ConstraintRaw,
    ConstraintExecutable,
    ConstraintZero,
    InstructionDidNotDeserialize,
    DeclaredProgramIdMismatch,
    InstructionFallbackNotFound,
    RequireViolated,
    RequireEqViolated,
    RequireNeqViolated,
    RequireKeysEqViolated,
    RequireKeysNeqViolated,
    RequireGtViolated,
    RequireGteViolated,
}

impl ErrorCode {
    /// The program error that a client sees for this code.
    pub open spec fn program_error(self) -> ProgramError {
        match self {
            ErrorCode::AccountNotEnoughKeys => ProgramError::NotEnoughAccountKeys,
            ErrorCode::ConstraintMut => ProgramError::Custom(2000),
            ErrorCode::ConstraintSigner => ProgramError::MissingRequiredSignature,
            ErrorCode::ConstraintSeeds => ProgramError::InvalidSeeds,
            ErrorCode::ConstraintHasOne => ProgramError::Custom(2001),
            ErrorCode::ConstraintAddress => ProgramError::Custom(2012),
            ErrorCode::ConstraintAccountIsNone => ProgramError::Custom(2020),
            ErrorCode::ConstraintClose => ProgramError::Custom(2011),
            ErrorCode::ConstraintOwner => ProgramError::IllegalOwner,
            ErrorCode::ConstraintSpace => ProgramError::Custom(2019),
            ErrorCode::ConstraintRentExempt => ProgramError::Custom(2005),
            ErrorCode::ConstraintRaw => ProgramError::Custom(2003),
            ErrorCode::ConstraintExecutable => ProgramError::Custom(2007),
            ErrorCode::ConstraintZero => ProgramError::Custom(2013),
            ErrorCode::InstructionDidNotDeserialize => ProgramError::InvalidInstructionData,
            ErrorCode::DeclaredProgramIdMismatch => ProgramError::IncorrectProgramId,
            ErrorCode::InstructionFallbackNotFound => ProgramError::InvalidInstructionData,
            ErrorCode::RequireViolated => ProgramError::Custom(2500),
            ErrorCode::RequireEqViolated => ProgramError::Custom(2501),
            ErrorCode::RequireKeysEqViolated => ProgramError::Custom(2502),
            ErrorCode::RequireNeqViolated => ProgramError::Custom(2503),
            ErrorCode::RequireKeysNeqViolated => ProgramError::Custom(2504),
            ErrorCode::RequireGtViolated => ProgramError::Custom(2505),
            ErrorCode::RequireGteViolated => ProgramError::Custom(2506),
        }
    }
}

impl vstd::std_specs::convert::FromSpecImpl<ErrorCode> for ProgramError {
    open spec fn obeys_from_spec() -> bool {
        true
    }

    open spec fn from_spec(code: ErrorCode) -> ProgramError {
        code.program_error()
    }
}

impl From<ErrorCode> for ProgramError {
    fn from(code: ErrorCode) -> (e: ProgramError) {
        match code {
            ErrorCode::AccountNotEnoughKeys => ProgramError::NotEnoughAccountKeys,
            ErrorCode::ConstraintMut => ProgramError::Custom(2000),
            ErrorCode::ConstraintSigner => ProgramError::MissingRequiredSignature,
            ErrorCode::ConstraintSeeds => ProgramError::InvalidSeeds,
            ErrorCode::ConstraintHasOne => ProgramError::Custom(2001),
            ErrorCode::ConstraintAddress => ProgramError::Custom(2012),
            ErrorCode::ConstraintAccountIsNone => ProgramError::Custom(2020),
            ErrorCode::ConstraintClose => ProgramError::Custom(2011),
            ErrorCode::ConstraintOwner => ProgramError::IllegalOwner,
            ErrorCode::ConstraintSpace => ProgramError::Custom(2019),
            ErrorCode::ConstraintRentExempt => ProgramError::Custom(2005),
            ErrorCode::ConstraintRaw => ProgramError::Custom(2003),
            ErrorCode::ConstraintExecutable => ProgramError::Custom(2007),
            ErrorCode::ConstraintZero => ProgramError::Custom(2013),
            ErrorCode::InstructionDidNotDeserialize => ProgramError::InvalidInstructionData,
            ErrorCode::DeclaredProgramIdMismatch => ProgramError::IncorrectProgramId,
            ErrorCode::InstructionFallbackNotFound => ProgramError::InvalidInstructionData,
            ErrorCode::RequireViolated => ProgramError::Custom(2500),
            ErrorCode::RequireEqViolated => ProgramError::Custom(2501),
            ErrorCode::RequireKeysEqViolated => ProgramError::Custom(2502),
            ErrorCode::RequireNeqViolated => ProgramError::Custom(2503),
            ErrorCode::RequireKeysNeqViolated => ProgramError::Custom(2504),
            ErrorCode::RequireGtViolated => ProgramError::Custom(2505),
            ErrorCode::RequireGteViolated => ProgramError::Custom(2506),
        }
    }
}

/// No two codes surface as the same custom error, so a client that decodes a
/// custom number knows which check failed.
pub proof fn law_custom_codes_are_distinct(a: ErrorCode, b: ErrorCode)
    requires
        a.program_error() is Custom,
        a.program_error() == b.program_error(),
    ensures
        a == b,
{
}

/// Every custom number lies in one of the two reserved ranges: 2000 to 2499 for
/// constraints, 2500 to 2999 for the requirement checks of a handler.
pub proof fn law_custom_codes_are_in_reserved_ranges(a: ErrorCode)
    ensures
        a.program_error() matches ProgramError::Custom(n) ==> 2000 <= n <= 2499 || 2500 <= n
            <= 2999,
{
}

} // verus!
