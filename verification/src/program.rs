//! The requests of the multisig, each as one call: the checks that come with the accounts
//! of a request, the checks of the rules, and the change.
//!
//! A request either succeeds as a whole or leaves everything as it was.
use vstd::prelude::*;
use solana_program::program_error::ProgramError;
use crate::error::Error;
use crate::error::MultisigError;
use crate::instructions::administration::Administration;
use crate::instructions::approval::issued_view;
use crate::instructions::approval::Approval;
use crate::instructions::approval::ApprovalView;
use crate::instructions::new_multisig::NewMultisig;
use crate::instructions::new_transaction::NewTransaction;
use crate::instructions::new_transaction::NewTransactionView;
use crate::pda::derive_transaction;
use crate::pda::derive_wallet;
use crate::pubkey::Pubkey;
use crate::state::instruction_views;
use crate::state::Instruction;
use crate::state::MultisigWallet;

verus! {

/// Initializes a new wallet.
pub fn new_multisig(ctx: &mut NewMultisig, threshold: u16, members: Vec<Pubkey>) -> (r: Result<
    (),
    Error,
>)
    ensures
        match old(ctx)@.new_multisig(threshold, members@) {
            Ok(after) => r is Ok && final(ctx)@ == after,
            Err(e) => r == Err::<(), _>(e) && *final(ctx) == *old(ctx),
        },
{
    if let Err(e) = ctx.validate(&threshold, &members) {
        return Err(Error::Multisig(e));
    }
    let bump = match derive_wallet(&ctx.base) {
        Some((address, bump)) => {
            if address != ctx.multisig_wallet.key {
                return Err(Error::ConstraintSeeds);
            }
            bump
        },
        None => {
            return Err(Error::ConstraintSeeds);
        },
    };
    ctx.handle(threshold, members, bump)
}

/// Makes the checks of a proposal request: the proposer is a member, and the proposal
/// stands at the wallet's next address.
fn check_new_transaction(ctx: &NewTransaction) -> (r: Result<(), Error>)
    ensures
        r == ctx@.checks(),
{
    if let Err(e) = ctx.validate() {
        return Err(Error::Multisig(e));
    }
    match derive_transaction(&ctx.multisig_wallet.key, ctx.multisig_wallet.data.tx_nonce) {
        Some((address, _)) => {
            if address != ctx.transaction.key {
                return Err(Error::ConstraintSeeds);
            }
        },
        None => {
            return Err(Error::ConstraintSeeds);
        },
    }
    Ok(())
}

/// Initializes a new proposal at the time `now`.
pub fn new_transaction_at(ctx: &mut NewTransaction, instructions: Vec<Instruction>, now: i64) -> (r:
    Result<(), Error>)
    requires
        old(ctx).multisig_wallet.data.tx_nonce < u64::MAX,
    ensures
        match old(ctx)@.new_transaction(instruction_views(instructions@), now) {
            Ok(after) => r is Ok && final(ctx)@ == after,
            Err(e) => r == Err::<(), _>(e) && *final(ctx) == *old(ctx),
        },
{
    check_new_transaction(ctx)?;
    ctx.handle_at(instructions, now);
    Ok(())
}

/// Initializes a new proposal at the time that the host's clock gives.
///
/// The checks are made before the clock is read. Where one fails, the outcome is its
/// error, as with [`new_transaction_at`] at any time. Where they pass, the outcome is the
/// clock's: the proposal carries the time it gave, or the request fails with its error.
pub fn new_transaction(ctx: &mut NewTransaction, instructions: Vec<Instruction>) -> (r: Result<
    (),
    Error,
>)
    requires
        old(ctx).multisig_wallet.data.tx_nonce < u64::MAX,
    ensures
        match r {
            Ok(()) => exists|now: i64|
                old(ctx)@.new_transaction(instruction_views(instructions@), now) == Ok::<_, Error>(
                    final(ctx)@,
                ),
            Err(e) => *final(ctx) == *old(ctx) && match e {
                Error::Program(_) => forall|now: i64|
                    old(ctx)@.new_transaction(instruction_views(instructions@), now) is Ok,
                _ => forall|now: i64|
                    old(ctx)@.new_transaction(instruction_views(instructions@), now) == Err::<
                        NewTransactionView,
                        _,
                    >(e),
            },
        },
{
    check_new_transaction(ctx)?;
    let r = ctx.handle(instructions);
    proof {
        if r is Ok {
            let now = choose|now: i64|
                ctx@ == old(ctx)@.handle(instruction_views(instructions@), now);
            assert(old(ctx)@.new_transaction(instruction_views(instructions@), now) == Ok::<
                _,
                Error,
            >(ctx@));
        }
    }
    r
}

/// Approves a proposal for execution, at the time `now`.
pub fn approve_at(ctx: &mut Approval, now: i64) -> (r: Result<(), MultisigError>)
    ensures
        match old(ctx)@.approve(now) {
            Ok(after) => r is Ok && final(ctx)@ == after,
            Err(e) => r == Err::<(), _>(e) && *final(ctx) == *old(ctx),
        },
{
    ctx.validate()?;
    ctx.handle_approve_at(now)
}

/// Approves a proposal for execution, at the time that the host's clock gives.
///
/// Where a rule refuses, the outcome is that of [`approve_at`] at any time. Otherwise it
/// is the clock's.
pub fn approve(ctx: &mut Approval) -> (r: Result<(), Error>)
    ensures
        match r {
            Ok(()) => exists|now: i64|
                old(ctx)@.approve(now) == Ok::<_, MultisigError>(final(ctx)@),
            Err(Error::Multisig(e)) => *final(ctx) == *old(ctx) && forall|now: i64|
                old(ctx)@.approve(now) == Err::<ApprovalView, _>(e),
            Err(Error::Program(_)) => *final(ctx) == *old(ctx) && forall|now: i64|
                old(ctx)@.approve(now) is Ok,
            Err(_) => false,
        },
{
    if let Err(e) = ctx.validate() {
        return Err(Error::Multisig(e));
    }
    let r = ctx.handle_approve();
    proof {
        if r is Ok {
            let now = choose|now: i64|
                old(ctx)@.handle_approve(now) == Ok::<_, MultisigError>(ctx@);
            assert(old(ctx)@.approve(now) == Ok::<_, MultisigError>(ctx@));
        }
    }
    r
}

/// Cancels the caller's approval of a proposal.
pub fn unapprove(ctx: &mut Approval) -> (r: Result<(), Error>)
    ensures
        match old(ctx)@.unapprove() {
            Ok(after) => r is Ok && final(ctx)@ == after,
            Err(e) => r == Err::<(), _>(Error::Multisig(e)) && *final(ctx) == *old(ctx),
        },
{
    if let Err(e) = ctx.validate() {
        return Err(Error::Multisig(e));
    }
    match ctx.handle_unapprove() {
        Err(e) => Err(Error::Multisig(e)),
        Ok(()) => Ok(()),
    }
}

/// Whether the caller may have the proposal's operations issued now: the request passes
/// the common checks and the proposal has its quorum. The host asks this before it issues
/// anything under the wallet's identity.
pub fn authorize(ctx: &Approval) -> (r: Result<(), MultisigError>)
    ensures
        r == ctx@.authorize(),
{
    ctx.validate()?;
    ctx.quorum()
}

/// Executes a proposal, iff it has enough approvals and has not been executed yet, given
/// what the host reports of re-issuing its operations and the time `now`.
pub fn execute_at(ctx: &mut Approval, issued: Result<MultisigWallet, ProgramError>, now: i64) -> (r:
    Result<(), Error>)
    ensures
        match old(ctx)@.execute(issued_view(issued), now) {
            Ok(after) => r is Ok && final(ctx)@ == after,
            Err(e) => r == Err::<(), _>(e) && *final(ctx) == *old(ctx),
        },
{
    if let Err(e) = ctx.validate() {
        return Err(Error::Multisig(e));
    }
    ctx.handle_execute_at(issued, now)
}

/// Executes a proposal, iff it has enough approvals and has not been executed yet, given
/// what the host reports of re-issuing its operations, at the time that the host's clock
/// gives.
///
/// Where a rule refuses or an operation failed, the outcome is that of [`execute_at`] at
/// any time. Otherwise it is the clock's.
pub fn execute(ctx: &mut Approval, issued: Result<MultisigWallet, ProgramError>) -> (r: Result<
    (),
    Error,
>)
    ensures
        match r {
            Ok(()) => exists|now: i64|
                old(ctx)@.execute(issued_view(issued), now) == Ok::<_, Error>(final(ctx)@),
            Err(e) => *final(ctx) == *old(ctx) && match e {
                Error::Multisig(m) => old(ctx)@.authorize() == Err::<(), _>(m),
                Error::Program(p) => old(ctx)@.authorize() is Ok && (issued == Err::<
                    MultisigWallet,
                    _,
                >(p) || issued is Ok),
                _ => false,
            },
        },
{
    if let Err(e) = ctx.validate() {
        return Err(Error::Multisig(e));
    }
    let r = ctx.handle_execute(issued);
    proof {
        if r is Ok {
            let now = choose|now: i64|
                old(ctx)@.handle_execute(issued_view(issued), now) == Ok::<_, Error>(ctx@);
            assert(old(ctx)@.execute(issued_view(issued), now) == Ok::<_, Error>(ctx@));
        }
    }
    r
}

/// Sets the number of approvals that a wallet asks for. Only the wallet itself can ask.
pub fn change_threshold(ctx: &mut Administration, threshold: u16) -> (r: Result<(), Error>)
    ensures
        match old(ctx)@.change_threshold(threshold) {
            Ok(after) => r is Ok && final(ctx)@ == after,
            Err(e) => r == Err::<(), _>(e) && *final(ctx) == *old(ctx),
        },
{
    if !ctx.wallet_signed {
        return Err(Error::ConstraintSigner);
    }
    match ctx.handle_change_threshold(threshold) {
        Err(e) => Err(Error::Multisig(e)),
        Ok(()) => Ok(()),
    }
}

/// Replaces the members of a wallet. Only the wallet itself can ask.
pub fn change_members(ctx: &mut Administration, members: Vec<Pubkey>) -> (r: Result<(), Error>)
    ensures
        match old(ctx)@.change_members(members@) {
            Ok(after) => r is Ok && final(ctx)@ == after,
            Err(e) => r == Err::<(), _>(e) && *final(ctx) == *old(ctx),
        },
{
    if !ctx.wallet_signed {
        return Err(Error::ConstraintSigner);
    }
    ctx.handle_change_members(members)
}

} // verus!
