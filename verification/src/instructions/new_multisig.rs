//! Creation of a wallet.
use vstd::prelude::*;
use crate::error::Error;
use crate::error::MultisigError;
use crate::pda::wallet_address;
use crate::pubkey::Pubkey;
use crate::state::Account;
use crate::state::AccountView;
use crate::state::MultisigWallet;
use crate::state::MultisigWalletView;

verus! {

/// A request to create a wallet.
#[derive(Clone, Debug, PartialEq)]
pub struct NewMultisig {
    /// Entropy to ensure a unique address: the wallet's address is derived from it.
    pub base: Pubkey,
    /// Funds the creation of the wallet. Does not need to be one of the members.
    pub payer: Pubkey,
    /// The wallet to fill in, at the address it is to live at.
    pub multisig_wallet: Account<MultisigWallet>,
}

/// What a [`NewMultisig`] holds.
#[verifier::ext_equal]
pub struct NewMultisigView {
    pub base: Pubkey,
    pub payer: Pubkey,
    pub multisig_wallet: AccountView<MultisigWalletView>,
}

impl View for NewMultisig {
    type V = NewMultisigView;

    open spec fn view(&self) -> NewMultisigView {
        NewMultisigView {
            base: self.base,
            payer: self.payer,
            multisig_wallet: self.multisig_wallet@,
        }
    }
}

/// Whether a wallet may be created with this threshold and these members: the threshold is
/// at least one and at most the number of members, and no member is listed twice.
pub open spec fn validate_policy(threshold: u16, members: Seq<Pubkey>) -> Result<
    (),
    MultisigError,
> {
    if threshold == 0 {
        Err(MultisigError::InvalidThreshold)
    } else if threshold > members.len() {
        Err(MultisigError::InvalidThreshold)
    } else if !members.no_duplicates() {
        Err(MultisigError::DuplicateMembers)
    } else {
        Ok(())
    }
}

/// Whether some identity stands twice in the list.
pub fn has_duplicates(members: &Vec<Pubkey>) -> (r: bool)
    ensures
        r == !members@.no_duplicates(),
{
    let mut i: usize = 0;
    while i < members.len()
        invariant
            i <= members.len(),
            forall|a: int, b: int| 0 <= a < b < members.len() && a < i ==> members@[a] != members@[b],
        decreases members.len() - i,
    {
        let mut j: usize = i + 1;
        while j < members.len()
            invariant
                i < j <= members.len(),
                forall|a: int, b: int|
                    0 <= a < b < members.len() && a < i ==> members@[a] != members@[b],
                forall|b: int| i < b < j ==> members@[i as int] != members@[b],
            decreases members.len() - j,
        {
            if members[i] == members[j] {
                assert(!members@.no_duplicates());
                return true;
            }
            j += 1;
        }
        i += 1;
    }
    assert(members@.no_duplicates()) by {
        assert forall|a: int, b: int|
            0 <= a < members@.len() && 0 <= b < members@.len() && a != b implies members@[a]
            != members@[b] by {
            if a < b {
            } else {
                assert(members@[b] != members@[a]);
            }
        }
    }
    false
}

impl NewMultisigView {
    /// The request after the wallet has been filled in.
    pub open spec fn handle(self, threshold: u16, members: Seq<Pubkey>, bump: u8) -> NewMultisigView {
        NewMultisigView {
            multisig_wallet: AccountView {
                data: MultisigWalletView {
                    base: self.base,
                    members,
                    threshold,
                    tx_nonce: 0,
                    member_set_seqno: 0,
                    bump,
                },
                ..self.multisig_wallet
            },
            ..self
        }
    }
}

impl NewMultisigView {
    /// A whole creation request. The policy is checked; then the wallet has to stand at the
    /// address that is derived from the entropy seed; then the wallet is filled in, with the
    /// bump byte of its address.
    pub open spec fn new_multisig(self, threshold: u16, members: Seq<Pubkey>) -> Result<
        NewMultisigView,
        Error,
    > {
        match validate_policy(threshold, members) {
            Err(e) => Err(Error::Multisig(e)),
            Ok(()) => match wallet_address(self.base) {
                Some((address, bump)) => if address != self.multisig_wallet.key {
                    Err(Error::ConstraintSeeds)
                } else {
                    Ok(self.handle(threshold, members, bump))
                },
                None => Err(Error::ConstraintSeeds),
            },
        }
    }
}

impl NewMultisig {
    /// Checks the threshold and the members that a wallet is to be created with.
    pub fn validate(&self, threshold: &u16, members: &Vec<Pubkey>) -> (r: Result<(), MultisigError>)
        ensures
            r == validate_policy(*threshold, members@),
            r is Ok <==> 1 <= *threshold <= members@.len() && members@.no_duplicates(),
    {
        // Cannot have a threshold of zero
        if *threshold == 0 {
            return Err(MultisigError::InvalidThreshold);
        }
        // Cannot have a threshold higher than the number of members
        if *threshold as usize > members.len() {
            return Err(MultisigError::InvalidThreshold);
        }
        // Members must be unique
        if has_duplicates(members) {
            return Err(MultisigError::DuplicateMembers);
        }
        Ok(())
    }

    /// Fills in the wallet: no proposal made yet, no member change made yet.
    pub fn handle(&mut self, threshold: u16, members: Vec<Pubkey>, bump: u8) -> (r: Result<(), Error>)
        ensures
            r is Ok,
            final(self)@ == old(self)@.handle(threshold, members@, bump),
    {
        self.multisig_wallet.data.member_set_seqno = 0;
        self.multisig_wallet.data.tx_nonce = 0;
        self.multisig_wallet.data.members = members;
        self.multisig_wallet.data.base = self.base;
        self.multisig_wallet.data.threshold = threshold;
        self.multisig_wallet.data.bump = bump;
        Ok(())
    }
}

} // verus!
