//! Changes to a wallet's own policy.
//!
//! A wallet changes only by its own authority: a change is proposed, approved and executed
//! like any other operation, and reaches the wallet signed by the wallet itself.
use vstd::prelude::*;
use crate::error::Error;
use crate::error::MultisigError;
use crate::pubkey::Pubkey;
use crate::state::Account;
use crate::state::AccountView;
use crate::state::MultisigWallet;
use crate::state::MultisigWalletView;

verus! {

/// A request to change a wallet.
#[derive(Clone, Debug, PartialEq)]
pub struct Administration {
    /// The wallet to change.
    pub multisig_wallet: Account<MultisigWallet>,
    /// Whether the request is signed by the wallet itself, which it can only be when the
    /// wallet's members had it executed.
    pub wallet_signed: bool,
}

/// What an [`Administration`] holds.
#[verifier::ext_equal]
pub struct AdministrationView {
    pub multisig_wallet: AccountView<MultisigWalletView>,
    pub wallet_signed: bool,
}

impl View for Administration {
    type V = AdministrationView;

    open spec fn view(&self) -> AdministrationView {
        AdministrationView {
            multisig_wallet: self.multisig_wallet@,
            wallet_signed: self.wallet_signed,
        }
    }
}

impl AdministrationView {
    /// The request with another wallet content.
    pub open spec fn with_wallet(self, data: MultisigWalletView) -> AdministrationView {
        AdministrationView {
            multisig_wallet: AccountView { data, ..self.multisig_wallet },
            ..self
        }
    }

    /// Setting the threshold: at least one approval has to be asked for, and no more than
    /// there are members.
    pub open spec fn handle_change_threshold(self, threshold: u16) -> Result<
        AdministrationView,
        MultisigError,
    > {
        if threshold == 0 {
            Err(MultisigError::InvalidThreshold)
        } else if threshold > self.multisig_wallet.data.members.len() {
            Err(MultisigError::InvalidThreshold)
        } else {
            Ok(self.with_wallet(MultisigWalletView { threshold, ..self.multisig_wallet.data }))
        }
    }

    /// Replacing the members: there have to be as many as the threshold asks for, and the
    /// change is counted.
    pub open spec fn handle_change_members(self, members: Seq<Pubkey>) -> Result<
        AdministrationView,
        Error,
    > {
        if members.len() < self.multisig_wallet.data.threshold {
            Err(Error::Multisig(MultisigError::TooFewMembers))
        } else if self.multisig_wallet.data.member_set_seqno == u32::MAX {
            Err(Error::IntegerOverflow)
        } else {
            Ok(
                self.with_wallet(
                    MultisigWalletView {
                        members,
                        member_set_seqno: (self.multisig_wallet.data.member_set_seqno + 1) as u32,
                        ..self.multisig_wallet.data
                    },
                ),
            )
        }
    }
}

impl AdministrationView {
    /// A whole request to set the threshold: it has to be signed by the wallet.
    pub open spec fn change_threshold(self, threshold: u16) -> Result<AdministrationView, Error> {
        if !self.wallet_signed {
            Err(Error::ConstraintSigner)
        } else {
            match self.handle_change_threshold(threshold) {
                Err(e) => Err(Error::Multisig(e)),
                Ok(after) => Ok(after),
            }
        }
    }

    /// A whole request to replace the members: it has to be signed by the wallet.
    pub open spec fn change_members(self, members: Seq<Pubkey>) -> Result<
        AdministrationView,
        Error,
    > {
        if !self.wallet_signed {
            Err(Error::ConstraintSigner)
        } else {
            self.handle_change_members(members)
        }
    }
}

impl Administration {
    /// Sets the number of approvals that the wallet asks for.
    pub fn handle_change_threshold(&mut self, threshold: u16) -> (r: Result<(), MultisigError>)
        ensures
            match old(self)@.handle_change_threshold(threshold) {
                Ok(after) => r is Ok && final(self)@ == after,
                Err(e) => r == Err::<(), _>(e) && *final(self) == *old(self),
            },
    {
        // A wallet that asks for no approval would let anybody execute.
        if threshold == 0 {
            return Err(MultisigError::InvalidThreshold);
        }
        if threshold as usize > self.multisig_wallet.data.members.len() {
            return Err(MultisigError::InvalidThreshold);
        }
        self.multisig_wallet.data.threshold = threshold;
        Ok(())
    }

    /// Replaces the wallet's members.
    pub fn handle_change_members(&mut self, members: Vec<Pubkey>) -> (r: Result<(), Error>)
        ensures
            match old(self)@.handle_change_members(members@) {
                Ok(after) => r is Ok && final(self)@ == after,
                Err(e) => r == Err::<(), _>(e) && *final(self) == *old(self),
            },
    {
        if members.len() < self.multisig_wallet.data.threshold as usize {
            return Err(Error::Multisig(MultisigError::TooFewMembers));
        }
        let seqno = match self.multisig_wallet.data.member_set_seqno.checked_add(1) {
            Some(n) => n,
            None => {
                return Err(Error::IntegerOverflow);
            },
        };
        self.multisig_wallet.data.members = members;
        self.multisig_wallet.data.member_set_seqno = seqno;
        Ok(())
    }
}

} // verus!
