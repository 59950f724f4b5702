//! The approval state machine of a proposal: approve, unapprove, execute.
//!
//! A proposal is open until it is executed. While it is open each member's slot switches
//! between unapproved and approved; once as many slots are approved as the wallet's
//! threshold asks for, any member can have it executed, which is final.
use vstd::prelude::*;
use solana_program::program_error::ProgramError;
use crate::clock::unix_timestamp;
use crate::error::Error;
use crate::error::MultisigError;
use crate::pubkey::Pubkey;
use crate::state::Account;
use crate::state::AccountView;
use crate::state::MultisigTransaction;
use crate::state::MultisigTransactionView;
use crate::state::MultisigWallet;
use crate::state::MultisigWalletView;

verus! {

/// A member's request against one proposal of one wallet.
#[derive(Clone, Debug, PartialEq)]
pub struct Approval {
    /// The member that signed the request.
    pub member: Pubkey,
    /// The wallet that the request names.
    pub multisig_wallet: Account<MultisigWallet>,
    /// The proposal that the request is about.
    pub transaction: Account<MultisigTransaction>,
}

/// What an [`Approval`] holds.
#[verifier::ext_equal]
pub struct ApprovalView {
    pub member: Pubkey,
    pub multisig_wallet: AccountView<MultisigWalletView>,
    pub transaction: AccountView<MultisigTransactionView>,
}

impl View for Approval {
    type V = ApprovalView;

    open spec fn view(&self) -> ApprovalView {
        ApprovalView {
            member: self.member,
            multisig_wallet: self.multisig_wallet@,
            transaction: self.transaction@,
        }
    }
}

/// What the host reports after it has re-issued a proposal's operations: the wallet as it is
/// stored afterwards, or the error of the first operation that failed.
pub open spec fn issued_view(issued: Result<MultisigWallet, ProgramError>) -> Result<
    MultisigWalletView,
    ProgramError,
> {
    match issued {
        Ok(wallet) => Ok(wallet@),
        Err(e) => Err(e),
    }
}

impl ApprovalView {
    /// The request with another approval list.
    pub open spec fn with_approved(self, approved: Seq<Option<i64>>) -> ApprovalView {
        ApprovalView {
            transaction: AccountView {
                data: MultisigTransactionView { approved, ..self.transaction.data },
                ..self.transaction
            },
            ..self
        }
    }

    /// The checks that every request has to pass, in the order in which they are made: the
    /// proposal belongs to the wallet, the caller is a member, the proposal is open, and
    /// it was made under the wallet's current member set.
    pub open spec fn validate(self) -> Result<(), MultisigError> {
        if self.transaction.data.multisig_wallet != self.multisig_wallet.key {
            Err(MultisigError::InvalidMultisigReference)
        } else if !self.multisig_wallet.data.members.contains(self.member) {
            Err(MultisigError::NotAMember)
        } else if self.transaction.data.executed() {
            Err(MultisigError::AlreadyExecuted)
        } else if self.transaction.data.member_set_seqno
            != self.multisig_wallet.data.member_set_seqno {
            Err(MultisigError::InvalidMemberSetSeqno)
        } else {
            Ok(())
        }
    }

    /// The caller's approval slot: the first position of the caller in the member list.
    /// A proposal without a slot at that position was not made for this member list.
    pub open spec fn slot(self) -> Result<int, MultisigError> {
        match self.multisig_wallet.data.members.index_of_first(self.member) {
            None => Err(MultisigError::NotAMember),
            Some(i) => if i < self.transaction.data.approved.len() {
                Ok(i)
            } else {
                Err(MultisigError::InvalidMemberSetSeqno)
            },
        }
    }

    /// Marking the caller's slot as approved at the time `now`.
    pub open spec fn handle_approve(self, now: i64) -> Result<ApprovalView, MultisigError> {
        match self.slot() {
            Err(e) => Err(e),
            Ok(i) => if self.transaction.data.approved[i] is Some {
                Err(MultisigError::AlreadyApproved)
            } else {
                Ok(self.with_approved(self.transaction.data.approved.update(i, Some(now))))
            },
        }
    }

    /// Clearing the caller's slot.
    pub open spec fn handle_unapprove(self) -> Result<ApprovalView, MultisigError> {
        match self.slot() {
            Err(e) => Err(e),
            Ok(i) => if self.transaction.data.approved[i] is None {
                Err(MultisigError::AlreadyUnapproved)
            } else {
                Ok(self.with_approved(self.transaction.data.approved.update(i, None)))
            },
        }
    }

    /// Whether as many members approve as the wallet asks for.
    pub open spec fn quorum(self) -> Result<(), MultisigError> {
        if self.transaction.data.num_approvals() < self.multisig_wallet.data.threshold {
            Err(MultisigError::NotEnoughApprovals)
        } else {
            Ok(())
        }
    }

    /// The request after an execution at the time `now` that left the wallet as `wallet`.
    pub open spec fn executed_with(self, wallet: MultisigWalletView, now: i64) -> ApprovalView {
        ApprovalView {
            multisig_wallet: AccountView { data: wallet, ..self.multisig_wallet },
            transaction: AccountView {
                data: MultisigTransactionView {
                    executor: Some(self.member),
                    executed_at: Some(now),
                    ..self.transaction.data
                },
                ..self.transaction
            },
            ..self
        }
    }

    /// Executing the proposal: without a quorum nothing is issued; with one, the outcome is
    /// the host's, and a success is recorded in the proposal for good.
    pub open spec fn handle_execute(
        self,
        issued: Result<MultisigWalletView, ProgramError>,
        now: i64,
    ) -> Result<ApprovalView, Error> {
        match self.quorum() {
            Err(e) => Err(Error::Multisig(e)),
            Ok(()) => match issued {
                Err(e) => Err(Error::Program(e)),
                Ok(wallet) => Ok(self.executed_with(wallet, now)),
            },
        }
    }

    /// A whole approve request: the common checks, then the approval.
    pub open spec fn approve(self, now: i64) -> Result<ApprovalView, MultisigError> {
        match self.validate() {
            Err(e) => Err(e),
            Ok(()) => self.handle_approve(now),
        }
    }

    /// A whole unapprove request: the common checks, then the retraction.
    pub open spec fn unapprove(self) -> Result<ApprovalView, MultisigError> {
        match self.validate() {
            Err(e) => Err(e),
            Ok(()) => self.handle_unapprove(),
        }
    }

    /// Whether the caller may have the proposal's operations issued now.
    pub open spec fn authorize(self) -> Result<(), MultisigError> {
        match self.validate() {
            Err(e) => Err(e),
            Ok(()) => self.quorum(),
        }
    }

    /// A whole execute request: the common checks, then the execution.
    pub open spec fn execute(
        self,
        issued: Result<MultisigWalletView, ProgramError>,
        now: i64,
    ) -> Result<ApprovalView, Error> {
        match self.validate() {
            Err(e) => Err(Error::Multisig(e)),
            Ok(()) => self.handle_execute(issued, now),
        }
    }
}

impl Approval {
    /// Makes the checks that every request has to pass.
    pub fn validate(&self) -> (r: Result<(), MultisigError>)
        ensures
            r == self@.validate(),
    {
        // There should be a chain of references from the proposal to the wallet to the member.
        if self.transaction.data.multisig_wallet != self.multisig_wallet.key {
            return Err(MultisigError::InvalidMultisigReference);
        }
        if !self.multisig_wallet.data.is_member(&self.member) {
            return Err(MultisigError::NotAMember);
        }
        // The proposal should not be executed yet.
        if self.transaction.data.is_executed() {
            return Err(MultisigError::AlreadyExecuted);
        }
        // Approvals are given to a proposal under the member set it was made for.
        if self.transaction.data.member_set_seqno != self.multisig_wallet.data.member_set_seqno {
            return Err(MultisigError::InvalidMemberSetSeqno);
        }
        Ok(())
    }

    /// Finds the caller's approval slot.
    pub fn slot(&self) -> (r: Result<usize, MultisigError>)
        ensures
            match r {
                Ok(i) => self@.slot() == Ok::<int, MultisigError>(i as int),
                Err(e) => self@.slot() == Err::<int, MultisigError>(e),
            },
    {
        match self.multisig_wallet.data.member_index(&self.member) {
            None => Err(MultisigError::NotAMember),
            Some(i) => if i < self.transaction.data.approved.len() {
                Ok(i)
            } else {
                Err(MultisigError::InvalidMemberSetSeqno)
            },
        }
    }

    /// Finds the slot that an approval of the caller would fill, and refuses where it is
    /// filled already, so that a client learns of a redundant request before it is made.
    fn open_slot(&self) -> (r: Result<usize, MultisigError>)
        ensures
            match r {
                Ok(i) => self@.slot() == Ok::<int, MultisigError>(i as int)
                    && self.transaction.data.approved@[i as int] is None,
                Err(e) => forall|now: i64| self@.handle_approve(now) == Err::<ApprovalView, _>(e),
            },
    {
        let i = self.slot()?;
        if self.transaction.data.approved[i].is_some() {
            return Err(MultisigError::AlreadyApproved);
        }
        Ok(i)
    }

    /// Marks the caller's slot as approved at the time `now`.
    pub fn handle_approve_at(&mut self, now: i64) -> (r: Result<(), MultisigError>)
        ensures
            match old(self)@.handle_approve(now) {
                Ok(after) => r is Ok && final(self)@ == after,
                Err(e) => r == Err::<(), _>(e) && *final(self) == *old(self),
            },
    {
        let i = self.open_slot()?;
        self.transaction.data.approved.set(i, Some(now));
        Ok(())
    }

    /// Marks the caller's slot as approved at the time that the host's clock gives.
    ///
    /// The rules are checked before the clock is read. Where they hold, the outcome is the
    /// clock's: the approval carries the time it gave, or the request fails with its error.
    pub fn handle_approve(&mut self) -> (r: Result<(), Error>)
        ensures
            match r {
                Ok(()) => exists|now: i64|
                    old(self)@.handle_approve(now) == Ok::<_, MultisigError>(final(self)@),
                Err(Error::Multisig(e)) => *final(self) == *old(self) && forall|now: i64|
                    old(self)@.handle_approve(now) == Err::<ApprovalView, _>(e),
                Err(Error::Program(_)) => *final(self) == *old(self) && forall|now: i64|
                    old(self)@.handle_approve(now) is Ok,
                Err(_) => false,
            },
    {
        if let Err(e) = self.open_slot() {
            return Err(Error::Multisig(e));
        }
        match unix_timestamp() {
            Err(e) => Err(Error::Program(e)),
            Ok(now) => match self.handle_approve_at(now) {
                Ok(()) => Ok(()),
                Err(e) => Err(Error::Multisig(e)),
            },
        }
    }

    /// Clears the caller's slot, and refuses where it is clear already.
    pub fn handle_unapprove(&mut self) -> (r: Result<(), MultisigError>)
        ensures
            match old(self)@.handle_unapprove() {
                Ok(after) => r is Ok && final(self)@ == after,
                Err(e) => r == Err::<(), _>(e) && *final(self) == *old(self),
            },
    {
        let i = self.slot()?;
        if self.transaction.data.approved[i].is_none() {
            return Err(MultisigError::AlreadyUnapproved);
        }
        self.transaction.data.approved.set(i, None);
        Ok(())
    }

    /// Whether as many members approve as the wallet asks for.
    pub fn quorum(&self) -> (r: Result<(), MultisigError>)
        ensures
            r == self@.quorum(),
    {
        if self.transaction.data.num_approvals() < self.multisig_wallet.data.threshold as usize {
            Err(MultisigError::NotEnoughApprovals)
        } else {
            Ok(())
        }
    }

    /// Executes the proposal, given what the host reports of re-issuing its operations and
    /// the time `now`.
    ///
    /// The host may issue the operations only after [`Approval::quorum`] has passed; it
    /// issues them in their stored order under the wallet's identity, stops at the first
    /// that fails, and on success reads the wallet again. Here the quorum is checked on the
    /// state before the operations, so a report that was obtained without a quorum changes
    /// nothing.
    pub fn handle_execute_at(
        &mut self,
        issued: Result<MultisigWallet, ProgramError>,
        now: i64,
    ) -> (r: Result<(), Error>)
        ensures
            match old(self)@.handle_execute(issued_view(issued), now) {
                Ok(after) => r is Ok && final(self)@ == after,
                Err(e) => r == Err::<(), _>(e) && *final(self) == *old(self),
            },
    {
        if let Err(e) = self.quorum() {
            return Err(Error::Multisig(e));
        }
        match issued {
            Err(e) => Err(Error::Program(e)),
            Ok(wallet) => {
                // The wallet may have changed itself through the operations.
                self.multisig_wallet.data = wallet;
                self.transaction.data.executor = Some(self.member);
                self.transaction.data.executed_at = Some(now);
                Ok(())
            },
        }
    }

    /// Executes the proposal, given what the host reports of re-issuing its operations, at
    /// the time that the host's clock gives.
    ///
    /// Without a quorum, or where an operation failed, the outcome is that of
    /// [`Approval::handle_execute_at`]. Otherwise it is the clock's.
    pub fn handle_execute(&mut self, issued: Result<MultisigWallet, ProgramError>) -> (r: Result<
        (),
        Error,
    >)
        ensures
            match r {
                Ok(()) => exists|now: i64|
                    old(self)@.handle_execute(issued_view(issued), now) == Ok::<_, Error>(
                        final(self)@,
                    ),
                Err(e) => *final(self) == *old(self) && match e {
                    Error::Multisig(m) => old(self)@.quorum() == Err::<(), _>(m),
                    Error::Program(p) => old(self)@.quorum() is Ok && (issued == Err::<
                        MultisigWallet,
                        _,
                    >(p) || issued is Ok),
                    _ => false,
                },
            },
    {
        if let Err(e) = self.quorum() {
            return Err(Error::Multisig(e));
        }
        let wallet = match issued {
            Ok(wallet) => wallet,
            Err(e) => {
                return Err(Error::Program(e));
            },
        };
        match unix_timestamp() {
            Err(e) => Err(Error::Program(e)),
            Ok(now) => self.handle_execute_at(Ok(wallet), now),
        }
    }
}

} // verus!
