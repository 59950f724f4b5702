//! Proposal of a transaction.
use vstd::prelude::*;
use crate::clock::unix_timestamp;
use crate::error::Error;
use crate::error::MultisigError;
use crate::pda::transaction_key;
use crate::pubkey::Pubkey;
use crate::state::instruction_views;
use crate::state::Account;
use crate::state::AccountView;
use crate::state::Instruction;
use crate::state::InstructionView;
use crate::state::MultisigTransaction;
use crate::state::MultisigTransactionView;
use crate::state::MultisigWallet;
use crate::state::MultisigWalletView;

verus! {

/// A member's request to propose a transaction to a wallet.
#[derive(Clone, Debug, PartialEq)]
pub struct NewTransaction {
    /// Must be a member of the wallet.
    pub proposer: Pubkey,
    /// The wallet that is to sign the transaction upon execution. Only members of this
    /// wallet can approve it.
    pub multisig_wallet: Account<MultisigWallet>,
    /// The proposal to fill in, at the address it is to live at.
    pub transaction: Account<MultisigTransaction>,
}

/// What a [`NewTransaction`] holds.
#[verifier::ext_equal]
pub struct NewTransactionView {
    pub proposer: Pubkey,
    pub multisig_wallet: AccountView<MultisigWalletView>,
    pub transaction: AccountView<MultisigTransactionView>,
}

impl View for NewTransaction {
    type V = NewTransactionView;

    open spec fn view(&self) -> NewTransactionView {
        NewTransactionView {
            proposer: self.proposer,
            multisig_wallet: self.multisig_wallet@,
            transaction: self.transaction@,
        }
    }
}

/// An approval list in which nobody approves, with one slot for each of `n` members.
pub open spec fn no_approvals(n: nat) -> Seq<Option<i64>> {
    Seq::new(n, |i: int| None::<i64>)
}

impl NewTransactionView {
    /// Only a member may propose.
    pub open spec fn validate(self) -> Result<(), MultisigError> {
        if self.multisig_wallet.data.members.contains(self.proposer) {
            Ok(())
        } else {
            Err(MultisigError::NotAMember)
        }
    }

    /// The request after the proposal has been filled in at the time `now`: it carries the
    /// operations, belongs to the wallet, has one empty slot for each member and remembers
    /// the member set it was made under; the wallet has counted it.
    pub open spec fn handle(self, instructions: Seq<InstructionView>, now: i64) -> NewTransactionView {
        NewTransactionView {
            multisig_wallet: AccountView {
                data: MultisigWalletView {
                    tx_nonce: (self.multisig_wallet.data.tx_nonce + 1) as u64,
                    ..self.multisig_wallet.data
                },
                ..self.multisig_wallet
            },
            transaction: AccountView {
                data: MultisigTransactionView {
                    instructions,
                    multisig_wallet: self.multisig_wallet.key,
                    approved: no_approvals(self.multisig_wallet.data.members.len()),
                    member_set_seqno: self.multisig_wallet.data.member_set_seqno,
                    created_at: now,
                    proposer: self.proposer,
                    executor: None,
                    executed_at: None,
                },
                ..self.transaction
            },
            ..self
        }
    }
}

impl NewTransactionView {
    /// The address at which the wallet's next proposal has to stand: the one derived from
    /// the wallet's address and its proposal counter.
    pub open spec fn next_address(self) -> Option<Pubkey> {
        transaction_key(self.multisig_wallet.key, self.multisig_wallet.data.tx_nonce)
    }

    /// The checks of a proposal request, in the order in which they are made: the proposer
    /// is a member, and the proposal stands at the wallet's next address.
    pub open spec fn checks(self) -> Result<(), Error> {
        match self.validate() {
            Err(e) => Err(Error::Multisig(e)),
            Ok(()) => if self.next_address() != Some(self.transaction.key) {
                Err(Error::ConstraintSeeds)
            } else {
                Ok(())
            },
        }
    }

    /// A whole proposal request at the time `now`: the checks, then the proposal is filled
    /// in.
    pub open spec fn new_transaction(self, instructions: Seq<InstructionView>, now: i64) -> Result<
        NewTransactionView,
        Error,
    > {
        match self.checks() {
            Err(e) => Err(e),
            Ok(()) => Ok(self.handle(instructions, now)),
        }
    }
}

/// An approval list of `n` empty slots.
fn empty_slots(n: usize) -> (r: Vec<Option<i64>>)
    ensures
        r@ == no_approvals(n as nat),
{
    let mut slots: Vec<Option<i64>> = Vec::new();
    let mut i: usize = 0;
    while i < n
        invariant
            i <= n,
            slots@ == no_approvals(i as nat),
        decreases n - i,
    {
        slots.push(None);
        i += 1;
        assert(slots@ =~= no_approvals(i as nat));
    }
    slots
}

impl NewTransaction {
    /// Checks that the proposer is a member of the wallet.
    pub fn validate(&self) -> (r: Result<(), MultisigError>)
        ensures
            r == self@.validate(),
    {
        if self.multisig_wallet.data.is_member(&self.proposer) {
            Ok(())
        } else {
            Err(MultisigError::NotAMember)
        }
    }

    /// Fills in the proposal at the time `now`, and counts it in the wallet, so that the
    /// next proposal gets another address.
    pub fn handle_at(&mut self, instructions: Vec<Instruction>, now: i64)
        requires
            old(self).multisig_wallet.data.tx_nonce < u64::MAX,
        ensures
            final(self)@ == old(self)@.handle(instruction_views(instructions@), now),
    {
        // Transaction content
        self.transaction.data.instructions = instructions;
        // Authorization controls
        self.transaction.data.multisig_wallet = self.multisig_wallet.key;
        self.transaction.data.approved = empty_slots(self.multisig_wallet.data.members.len());
        self.transaction.data.member_set_seqno = self.multisig_wallet.data.member_set_seqno;
        // Transaction history
        self.transaction.data.created_at = now;
        self.transaction.data.proposer = self.proposer;
        self.transaction.data.executed_at = None;
        self.transaction.data.executor = None;
        // Count the proposal, so that the next one has a unique address.
        self.multisig_wallet.data.tx_nonce = self.multisig_wallet.data.tx_nonce + 1;
    }

    /// Fills in the proposal at the time that the host's clock gives, and counts it in the
    /// wallet. The outcome is the clock's: the proposal carries the time it gave, or the
    /// request fails with its error and nothing changes.
    pub fn handle(&mut self, instructions: Vec<Instruction>) -> (r: Result<(), Error>)
        requires
            old(self).multisig_wallet.data.tx_nonce < u64::MAX,
        ensures
            match r {
                Ok(()) => exists|now: i64|
                    final(self)@ == old(self)@.handle(instruction_views(instructions@), now),
                Err(Error::Program(_)) => *final(self) == *old(self),
                Err(_) => false,
            },
    {
        match unix_timestamp() {
            Err(e) => Err(Error::Program(e)),
            Ok(now) => {
                self.handle_at(instructions, now);
                Ok(())
            },
        }
    }
}

} // verus!
