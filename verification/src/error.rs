//! Errors reported by the escrow.

use vstd::prelude::*;

verus! {

/// Why an operation was refused. Every error ends the current call; nothing
/// is retried.
#[derive(Clone, Copy, Debug, PartialEq, Eq, Structural)]
pub enum EscrowError {
    /// The instruction bytes are too short, carry an unknown tag, or declare
    /// more than nine legs on a side.
    InvalidInstruction,
    /// Fewer accounts were supplied than the operation reads.
    NotEnoughAccountKeys,
    /// The party that must authorise the operation did not sign.
    MissingRequiredSignature,
    /// The escrow storage is not funded for rent exemption.
    NotRentExempt,
    /// A commitment was asked for on storage that already holds one.
    AccountAlreadyInitialized,
    /// A cancellation or settlement was asked for on storage that holds no
    /// commitment.
    UninitializedAccount,
    /// The leg counts, the direction of the native leg or the reserve amount
    /// differ from the commitment.
    InvalidAmount,
    /// A key or a leg amount differs from the commitment.
    InvalidAccount,
    /// A native balance would leave the range of a 64-bit unsigned integer.
    AmountOverflow,
    /// The asset program named by the caller is not the one whose
    /// instructions the escrow issues.
    IncorrectProgramId,
    /// No authority address can be derived from the configured seed.
    InvalidSeeds,
}

/// The classes into which the errors fall.
#[derive(Clone, Copy, Debug, PartialEq, Eq, Structural)]
pub enum ErrorKind {
    /// The instruction, with the accounts supplied for it, is not one that
    /// the escrow can read.
    MalformedInstruction,
    /// A required signer is absent.
    MissingAuthorization,
    /// The escrow storage is insufficiently funded.
    StorageNotExempt,
    /// A commitment was asked for where one stands.
    AlreadyCommitted,
    /// A commitment was expected where none stands.
    NotCommitted,
    /// The validator found a difference between what was resubmitted and
    /// what was committed.
    TermsMismatch,
    /// A balance would overflow.
    ArithmeticOverflow,
    /// A collaborator refused what it was asked.
    CollaboratorFailure,
}

impl EscrowError {
    /// The class of this error.
    pub open spec fn spec_kind(&self) -> ErrorKind {
        match *self {
            EscrowError::InvalidInstruction => ErrorKind::MalformedInstruction,
            EscrowError::NotEnoughAccountKeys => ErrorKind::MalformedInstruction,
            EscrowError::MissingRequiredSignature => ErrorKind::MissingAuthorization,
            EscrowError::NotRentExempt => ErrorKind::StorageNotExempt,
            EscrowError::AccountAlreadyInitialized => ErrorKind::AlreadyCommitted,
            EscrowError::UninitializedAccount => ErrorKind::NotCommitted,
            EscrowError::InvalidAmount => ErrorKind::TermsMismatch,
            EscrowError::InvalidAccount => ErrorKind::TermsMismatch,
            EscrowError::AmountOverflow => ErrorKind::ArithmeticOverflow,
            EscrowError::IncorrectProgramId => ErrorKind::CollaboratorFailure,
            EscrowError::InvalidSeeds => ErrorKind::CollaboratorFailure,
        }
    }

    /// The class of this error.
    #[verifier::when_used_as_spec(spec_kind)]
    pub fn kind(&self) -> (kind: ErrorKind)
        ensures
            kind == self.spec_kind(),
    {
        match self {
            EscrowError::InvalidInstruction => ErrorKind::MalformedInstruction,
            EscrowError::NotEnoughAccountKeys => ErrorKind::MalformedInstruction,
            EscrowError::MissingRequiredSignature => ErrorKind::MissingAuthorization,
            EscrowError::NotRentExempt => ErrorKind::StorageNotExempt,
            EscrowError::AccountAlreadyInitialized => ErrorKind::AlreadyCommitted,
            EscrowError::UninitializedAccount => ErrorKind::NotCommitted,
            EscrowError::InvalidAmount => ErrorKind::TermsMismatch,
            EscrowError::InvalidAccount => ErrorKind::TermsMismatch,
            EscrowError::AmountOverflow => ErrorKind::ArithmeticOverflow,
            EscrowError::IncorrectProgramId => ErrorKind::CollaboratorFailure,
            EscrowError::InvalidSeeds => ErrorKind::CollaboratorFailure,
        }
    }
}

} // verus!
