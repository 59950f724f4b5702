//! The ways in which a request can be refused.
use vstd::prelude::*;
use solana_program::program_error::ProgramError;

verus! {

/// A validation failure of the multisig rules. Every one aborts the whole request and
/// leaves both the wallet and the proposal as they were.
#[derive(Clone, Copy, Debug, PartialEq, Eq, Structural, Hash)]
pub enum MultisigError {
    /// Threshold must be <= the number of multisig wallet members
    InvalidThreshold,
    /// Members of a multisig must be unique addresses
    DuplicateMembers,
    /// Not enough members with the given threshold
    TooFewMembers,
    /// Not a current member of the multisig wallet
    NotAMember,
    /// The multisig wallet does not match the transaction's member_set_seqno
    InvalidMemberSetSeqno,
    /// The transaction does not belong to the provided multisig
    InvalidMultisigReference,
    /// Signer already approved this transaction
    AlreadyApproved,
    /// Signer already is marked as unapproved for this transaction.
    AlreadyUnapproved,
    /// Transaction requires more approvals before it can be executed
    NotEnoughApprovals,
    /// Transaction already executed
    AlreadyExecuted,
}

/// Why a request failed: a rule of the multisig refused it, or the framework around the
/// rules did.
#[derive(Debug, PartialEq, Eq)]
pub enum Error {
    /// A rule of the multisig was broken.
    Multisig(MultisigError),
    /// A counter is at the end of its range.
    IntegerOverflow,
    /// An entity is not stored at the address that is derived for it.
    ConstraintSeeds,
    /// The request does not carry the signature it needs.
    ConstraintSigner,
    /// The host refused, with this error.
    Program(ProgramError),
}

/// First number given to this program's own error kinds when they are reported to a client.
pub const ERROR_CODE_OFFSET: u32 = 6000;

impl MultisigError {
    /// Position of the kind in the declaration, counted from zero.
    pub open spec fn ordinal(self) -> nat {
        match self {
            MultisigError::InvalidThreshold => 0,
            MultisigError::DuplicateMembers => 1,
            MultisigError::TooFewMembers => 2,
            MultisigError::NotAMember => 3,
            MultisigError::InvalidMemberSetSeqno => 4,
            MultisigError::InvalidMultisigReference => 5,
            MultisigError::AlreadyApproved => 6,
            MultisigError::AlreadyUnapproved => 7,
            MultisigError::NotEnoughApprovals => 8,
            MultisigError::AlreadyExecuted => 9,
        }
    }

    /// The number under which a client sees this error.
    pub fn code(&self) -> (r: u32)
        ensures
            r == ERROR_CODE_OFFSET + self.ordinal(),
    {
        match self {
            MultisigError::InvalidThreshold => 6000,
            MultisigError::DuplicateMembers => 6001,
            MultisigError::TooFewMembers => 6002,
            MultisigError::NotAMember => 6003,
            MultisigError::InvalidMemberSetSeqno => 6004,
            MultisigError::InvalidMultisigReference => 6005,
            MultisigError::AlreadyApproved => 6006,
            MultisigError::AlreadyUnapproved => 6007,
            MultisigError::NotEnoughApprovals => 6008,
            MultisigError::AlreadyExecuted => 6009,
        }
    }

    /// The sentence shown to a person for this error.
    pub fn message(&self) -> (r: &'static str)
        ensures
            r@ == self.spec_message(),
    {
        match self {
            MultisigError::InvalidThreshold => {
                "Threshold must be <= the number of multisig wallet members"
            },
            MultisigError::DuplicateMembers => "Members of a multisig must be unique addresses",
            MultisigError::TooFewMembers => "Not enough members with the given threshold",
            MultisigError::NotAMember => "Not a current member of the multisig wallet",
            MultisigError::InvalidMemberSetSeqno => {
                "The multisig wallet does not match the transaction's member_set_seqno"
            },
            MultisigError::InvalidMultisigReference => {
                "The transaction does not belong to the provided multisig"
            },
            MultisigError::AlreadyApproved => "Signer already approved this transaction",
            MultisigError::AlreadyUnapproved => {
                "Signer already is marked as unapproved for this transaction."
            },
            MultisigError::NotEnoughApprovals => {
                "Transaction requires more approvals before it can be executed"
            },
            MultisigError::AlreadyExecuted => "Transaction already executed",
        }
    }

    /// The characters of `message`.
    pub open spec fn spec_message(self) -> Seq<char> {
        match self {
            MultisigError::InvalidThreshold => {
                "Threshold must be <= the number of multisig wallet members"@
            },
            MultisigError::DuplicateMembers => "Members of a multisig must be unique addresses"@,
            MultisigError::TooFewMembers => "Not enough members with the given threshold"@,
            MultisigError::NotAMember => "Not a current member of the multisig wallet"@,
            MultisigError::InvalidMemberSetSeqno => {
                "The multisig wallet does not match the transaction's member_set_seqno"@
            },
            MultisigError::InvalidMultisigReference => {
                "The transaction does not belong to the provided multisig"@
            },
            MultisigError::AlreadyApproved => "Signer already approved this transaction"@,
            MultisigError::AlreadyUnapproved => {
                "Signer already is marked as unapproved for this transaction."@
            },
            MultisigError::NotEnoughApprovals => {
                "Transaction requires more approvals before it can be executed"@
            },
            MultisigError::AlreadyExecuted => "Transaction already executed"@,
        }
    }
}

} // verus!
