use multisig_demo::error::Error;
use multisig_demo::error::MultisigError;
use multisig_demo::instructions::administration::Administration;
use multisig_demo::instructions::approval::Approval;
use multisig_demo::instructions::new_multisig::has_duplicates;
use multisig_demo::instructions::new_multisig::NewMultisig;
use multisig_demo::instructions::new_transaction::NewTransaction;
use multisig_demo::pda::derive_wallet;
use multisig_demo::pda::find_multisig_transaction_address;
use multisig_demo::pda::find_multisig_wallet_address;
use multisig_demo::program::approve;
use multisig_demo::program::approve_at;
use multisig_demo::program::authorize;
use multisig_demo::program::change_members;
use multisig_demo::program::change_threshold;
use multisig_demo::program::execute;
use multisig_demo::program::execute_at;
use multisig_demo::program::new_multisig;
use multisig_demo::program::new_transaction;
use multisig_demo::program::new_transaction_at;
use multisig_demo::program::unapprove;
use multisig_demo::pubkey::Pubkey;
use multisig_demo::state::Account;
use multisig_demo::state::AccountMeta;
use multisig_demo::state::Instruction;
use multisig_demo::state::MultisigTransaction;
use multisig_demo::state::MultisigWallet;
use solana_program::program_error::ProgramError;

const T0: i64 = 1_650_000_000;

fn who(n: u8) -> Pubkey {
    Pubkey { bytes: [n; 32] }
}

fn x() -> Pubkey {
    who(1)
}

fn y() -> Pubkey {
    who(2)
}

fn z() -> Pubkey {
    who(3)
}

fn operation_p() -> Instruction {
    Instruction {
        program_id: who(200),
        keys: vec![AccountMeta { pubkey: who(201), is_signer: false, is_writable: true }],
        data: vec![9, 8, 7],
    }
}

fn created_wallet(base: Pubkey, threshold: u16, members: Vec<Pubkey>) -> Account<MultisigWallet> {
    let key = find_multisig_wallet_address(&base).unwrap();
    let mut ctx = NewMultisig {
        base,
        payer: who(99),
        multisig_wallet: Account { key, data: MultisigWallet::default() },
    };
    assert_eq!(new_multisig(&mut ctx, threshold, members), Ok(()));
    ctx.multisig_wallet
}

fn wallet_xyz() -> Account<MultisigWallet> {
    created_wallet(who(50), 2, vec![x(), y(), z()])
}

fn proposed(
    wallet: &mut Account<MultisigWallet>,
    proposer: Pubkey,
    instructions: Vec<Instruction>,
    now: i64,
) -> Result<Account<MultisigTransaction>, Error> {
    let key = find_multisig_transaction_address(&wallet.key, wallet.data.tx_nonce).unwrap();
    let mut ctx = NewTransaction {
        proposer,
        multisig_wallet: wallet.clone(),
        transaction: Account { key, data: MultisigTransaction::default() },
    };
    assert!(ctx.multisig_wallet.data.tx_nonce < u64::MAX);
    new_transaction_at(&mut ctx, instructions, now)?;
    *wallet = ctx.multisig_wallet;
    Ok(ctx.transaction)
}

fn request(
    member: Pubkey,
    wallet: &Account<MultisigWallet>,
    transaction: &Account<MultisigTransaction>,
) -> Approval {
    Approval { member, multisig_wallet: wallet.clone(), transaction: transaction.clone() }
}

fn approved_by(
    member: Pubkey,
    wallet: &Account<MultisigWallet>,
    transaction: &mut Account<MultisigTransaction>,
    now: i64,
) -> Result<(), MultisigError> {
    let mut ctx = request(member, wallet, transaction);
    approve_at(&mut ctx, now)?;
    assert_eq!(&ctx.multisig_wallet, wallet);
    *transaction = ctx.transaction;
    Ok(())
}

fn unapproved_by(
    member: Pubkey,
    wallet: &Account<MultisigWallet>,
    transaction: &mut Account<MultisigTransaction>,
) -> Result<(), Error> {
    let mut ctx = request(member, wallet, transaction);
    unapprove(&mut ctx)?;
    assert_eq!(&ctx.multisig_wallet, wallet);
    *transaction = ctx.transaction;
    Ok(())
}

/// Plays the host for a proposal whose operations leave the wallet alone.
fn executed_by(
    member: Pubkey,
    wallet: &mut Account<MultisigWallet>,
    transaction: &mut Account<MultisigTransaction>,
    now: i64,
) -> Result<(), Error> {
    let mut ctx = request(member, wallet, transaction);
    let issued = match authorize(&ctx) {
        Ok(()) => Ok(wallet.data.clone()),
        Err(_) => Err(ProgramError::Custom(0)),
    };
    execute_at(&mut ctx, issued, now)?;
    *wallet = ctx.multisig_wallet;
    *transaction = ctx.transaction;
    Ok(())
}

#[test]
fn scenario_a_two_of_three_approve_then_execute() {
    let mut wallet = wallet_xyz();
    let mut tx = proposed(&mut wallet, x(), vec![operation_p()], T0).unwrap();
    assert_eq!(approved_by(x(), &wallet, &mut tx, T0 + 1), Ok(()));
    assert_eq!(approved_by(y(), &wallet, &mut tx, T0 + 2), Ok(()));
    assert_eq!(tx.data.num_approvals(), 2);
    assert!(tx.data.num_approvals() >= wallet.data.threshold as usize);
    assert_eq!(executed_by(z(), &mut wallet, &mut tx, T0 + 3), Ok(()));
    assert_eq!(tx.data.approved, vec![Some(T0 + 1), Some(T0 + 2), None]);
    assert_eq!(tx.data.executor, Some(z()));
    assert_eq!(tx.data.executed_at, Some(T0 + 3));
    assert!(tx.data.is_executed());
    assert_eq!(tx.data.instructions, vec![operation_p()]);
}

#[test]
fn scenario_b_one_approval_is_not_enough() {
    let mut wallet = wallet_xyz();
    let mut tx = proposed(&mut wallet, x(), vec![operation_p()], T0).unwrap();
    assert_eq!(approved_by(x(), &wallet, &mut tx, T0 + 1), Ok(()));
    let before = tx.clone();
    assert_eq!(
        executed_by(x(), &mut wallet, &mut tx, T0 + 2),
        Err(Error::Multisig(MultisigError::NotEnoughApprovals))
    );
    assert_eq!(tx, before);
    assert!(!tx.data.is_executed());
}

#[test]
fn scenario_c_a_retracted_approval_does_not_count() {
    let mut wallet = wallet_xyz();
    let mut tx = proposed(&mut wallet, x(), vec![operation_p()], T0).unwrap();
    assert_eq!(approved_by(x(), &wallet, &mut tx, T0 + 1), Ok(()));
    assert_eq!(unapproved_by(x(), &wallet, &mut tx), Ok(()));
    assert_eq!(tx.data.num_approvals(), 0);
    assert_eq!(tx.data.approved, vec![None, None, None]);
    assert_eq!(
        executed_by(x(), &mut wallet, &mut tx, T0 + 2),
        Err(Error::Multisig(MultisigError::NotEnoughApprovals))
    );
}

#[test]
fn scenario_d_an_executed_proposal_takes_no_approval() {
    let mut wallet = wallet_xyz();
    let mut tx = proposed(&mut wallet, x(), vec![operation_p()], T0).unwrap();
    assert_eq!(approved_by(x(), &wallet, &mut tx, T0 + 1), Ok(()));
    assert_eq!(approved_by(y(), &wallet, &mut tx, T0 + 2), Ok(()));
    assert_eq!(executed_by(x(), &mut wallet, &mut tx, T0 + 3), Ok(()));
    assert_eq!(approved_by(z(), &wallet, &mut tx, T0 + 4), Err(MultisigError::AlreadyExecuted));
}

#[test]
fn creation_checks_threshold_and_members() {
    let base = who(60);
    let key = find_multisig_wallet_address(&base).unwrap();
    let blank = NewMultisig {
        base,
        payer: who(99),
        multisig_wallet: Account { key, data: MultisigWallet::default() },
    };
    let cases: Vec<(u16, Vec<Pubkey>, Result<(), Error>)> = vec![
        (0, vec![x(), y()], Err(Error::Multisig(MultisigError::InvalidThreshold))),
        (0, vec![], Err(Error::Multisig(MultisigError::InvalidThreshold))),
        (3, vec![x(), y()], Err(Error::Multisig(MultisigError::InvalidThreshold))),
        (1, vec![], Err(Error::Multisig(MultisigError::InvalidThreshold))),
        (1, vec![x(), x()], Err(Error::Multisig(MultisigError::DuplicateMembers))),
        (2, vec![x(), y(), x()], Err(Error::Multisig(MultisigError::DuplicateMembers))),
        (4, vec![x(), y(), x()], Err(Error::Multisig(MultisigError::InvalidThreshold))),
        (1, vec![x()], Ok(())),
        (1, vec![z(), x(), y()], Ok(())),
        (3, vec![z(), x(), y()], Ok(())),
    ];
    for (threshold, members, expected) in cases {
        let mut ctx = blank.clone();
        assert_eq!(ctx.validate(&threshold, &members).map_err(Error::Multisig), expected);
        assert_eq!(new_multisig(&mut ctx, threshold, members.clone()), expected);
        if expected.is_ok() {
            let (address, bump) = derive_wallet(&base).unwrap();
            assert_eq!(
                ctx.multisig_wallet,
                Account {
                    key: address,
                    data: MultisigWallet {
                        base,
                        members,
                        threshold,
                        tx_nonce: 0,
                        member_set_seqno: 0,
                        bump,
                    },
                }
            );
        } else {
            assert_eq!(ctx, blank);
        }
    }
}

#[test]
fn creation_needs_the_derived_address() {
    let mut ctx = NewMultisig {
        base: who(60),
        payer: who(99),
        multisig_wallet: Account { key: who(61), data: MultisigWallet::default() },
    };
    assert_eq!(new_multisig(&mut ctx, 1, vec![x()]), Err(Error::ConstraintSeeds));
    assert_eq!(ctx.multisig_wallet.data, MultisigWallet::default());
    // The address of another entropy seed will not do either.
    ctx.multisig_wallet.key = find_multisig_wallet_address(&who(62)).unwrap();
    assert_eq!(new_multisig(&mut ctx, 1, vec![x()]), Err(Error::ConstraintSeeds));
}

#[test]
fn finds_duplicates_wherever_they_stand() {
    assert!(!has_duplicates(&vec![]));
    assert!(!has_duplicates(&vec![x()]));
    assert!(!has_duplicates(&vec![x(), y(), z()]));
    assert!(has_duplicates(&vec![x(), x(), z()]));
    assert!(has_duplicates(&vec![x(), y(), x()]));
    assert!(has_duplicates(&vec![z(), y(), x(), y()]));
}

#[test]
fn proposal_is_filled_in_and_counted() {
    let mut wallet = wallet_xyz();
    let first = find_multisig_transaction_address(&wallet.key, 0).unwrap();
    let tx = proposed(&mut wallet, y(), vec![operation_p(), operation_p()], T0).unwrap();
    assert_eq!(
        tx,
        Account {
            key: first,
            data: MultisigTransaction {
                instructions: vec![operation_p(), operation_p()],
                multisig_wallet: wallet.key,
                approved: vec![None, None, None],
                member_set_seqno: 0,
                created_at: T0,
                proposer: y(),
                executor: None,
                executed_at: None,
            },
        }
    );
    assert_eq!(wallet.data.tx_nonce, 1);
    assert_eq!(wallet.data.members, vec![x(), y(), z()]);
}

#[test]
fn proposal_needs_a_member_and_the_next_address() {
    let mut wallet = wallet_xyz();
    let before = wallet.clone();
    assert_eq!(
        proposed(&mut wallet, who(9), vec![], T0),
        Err(Error::Multisig(MultisigError::NotAMember))
    );
    assert_eq!(wallet, before);

    let mut ctx = NewTransaction {
        proposer: x(),
        multisig_wallet: wallet.clone(),
        transaction: Account {
            key: find_multisig_transaction_address(&wallet.key, 1).unwrap(),
            data: MultisigTransaction::default(),
        },
    };
    let blank = ctx.clone();
    assert_eq!(new_transaction_at(&mut ctx, vec![], T0), Err(Error::ConstraintSeeds));
    assert_eq!(ctx, blank);
    assert_eq!(ctx.validate(), Ok(()));
    ctx.proposer = who(9);
    assert_eq!(ctx.validate(), Err(MultisigError::NotAMember));
}

#[test]
fn proposals_stand_at_the_addresses_of_their_counts() {
    let mut wallet = wallet_xyz();
    let mut keys: Vec<Pubkey> = Vec::new();
    for i in 0..8u64 {
        assert_eq!(wallet.data.tx_nonce, i);
        let tx = proposed(&mut wallet, x(), vec![operation_p()], T0 + i as i64).unwrap();
        keys.push(tx.key);
    }
    let program = solana_program::pubkey::Pubkey::new_from_array(multisig_demo::pda::id().bytes);
    for (i, key) in keys.iter().enumerate() {
        let (expected, _) = solana_program::pubkey::Pubkey::find_program_address(
            &[b"MultisigTransaction".as_ref(), wallet.key.bytes.as_ref(), &(i as u64).to_le_bytes()],
            &program,
        );
        assert_eq!(key.bytes, expected.to_bytes());
        for other in keys.iter().skip(i + 1) {
            assert_ne!(key, other);
        }
    }
}

#[test]
fn approving_twice_fails_the_second_time() {
    let mut wallet = wallet_xyz();
    let mut tx = proposed(&mut wallet, x(), vec![], T0).unwrap();
    assert_eq!(approved_by(y(), &wallet, &mut tx, T0 + 1), Ok(()));
    let once = tx.clone();
    assert_eq!(approved_by(y(), &wallet, &mut tx, T0 + 2), Err(MultisigError::AlreadyApproved));
    assert_eq!(tx, once);
    assert_eq!(tx.data.approved, vec![None, Some(T0 + 1), None]);
}

#[test]
fn unapproving_twice_fails_the_second_time() {
    let mut wallet = wallet_xyz();
    let mut tx = proposed(&mut wallet, x(), vec![], T0).unwrap();
    assert_eq!(
        unapproved_by(y(), &wallet, &mut tx),
        Err(Error::Multisig(MultisigError::AlreadyUnapproved))
    );
    assert_eq!(approved_by(y(), &wallet, &mut tx, T0 + 1), Ok(()));
    assert_eq!(unapproved_by(y(), &wallet, &mut tx), Ok(()));
    assert_eq!(
        unapproved_by(y(), &wallet, &mut tx),
        Err(Error::Multisig(MultisigError::AlreadyUnapproved))
    );
    assert_eq!(tx.data.approved, vec![None, None, None]);
}

#[test]
fn quorum_gate_for_every_threshold_and_every_subset() {
    let members = vec![x(), y(), z()];
    for threshold in 1..=3u16 {
        for subset in 0..8u8 {
            let mut wallet = created_wallet(who(70 + threshold as u8), threshold, members.clone());
            let mut tx = proposed(&mut wallet, x(), vec![operation_p()], T0).unwrap();
            let mut count = 0;
            for (i, member) in members.iter().enumerate() {
                if subset & (1 << i) != 0 {
                    assert_eq!(approved_by(*member, &wallet, &mut tx, T0 + 1 + i as i64), Ok(()));
                    count += 1;
                }
            }
            assert_eq!(tx.data.num_approvals(), count);
            let ctx = request(y(), &wallet, &tx);
            let result = executed_by(y(), &mut wallet, &mut tx, T0 + 10);
            if count < threshold as usize {
                assert_eq!(authorize(&ctx), Err(MultisigError::NotEnoughApprovals));
                assert_eq!(ctx.quorum(), Err(MultisigError::NotEnoughApprovals));
                assert_eq!(result, Err(Error::Multisig(MultisigError::NotEnoughApprovals)));
                assert!(!tx.data.is_executed());
            } else {
                assert_eq!(authorize(&ctx), Ok(()));
                assert_eq!(result, Ok(()));
                assert_eq!(tx.data.executor, Some(y()));
                assert_eq!(tx.data.executed_at, Some(T0 + 10));
            }
        }
    }
}

#[test]
fn executed_proposal_refuses_every_request() {
    let mut wallet = wallet_xyz();
    let mut tx = proposed(&mut wallet, x(), vec![operation_p()], T0).unwrap();
    assert_eq!(approved_by(x(), &wallet, &mut tx, T0 + 1), Ok(()));
    assert_eq!(approved_by(y(), &wallet, &mut tx, T0 + 2), Ok(()));
    assert_eq!(executed_by(x(), &mut wallet, &mut tx, T0 + 3), Ok(()));
    let done = tx.clone();
    for member in [x(), y(), z()] {
        assert_eq!(
            approved_by(member, &wallet, &mut tx, T0 + 4),
            Err(MultisigError::AlreadyExecuted)
        );
        assert_eq!(
            unapproved_by(member, &wallet, &mut tx),
            Err(Error::Multisig(MultisigError::AlreadyExecuted))
        );
        assert_eq!(authorize(&request(member, &wallet, &tx)), Err(MultisigError::AlreadyExecuted));
        assert_eq!(
            executed_by(member, &mut wallet, &mut tx, T0 + 5),
            Err(Error::Multisig(MultisigError::AlreadyExecuted))
        );
        assert_eq!(request(member, &wallet, &tx).validate(), Err(MultisigError::AlreadyExecuted));
    }
    assert_eq!(tx, done);
    // Either mark of execution closes the proposal.
    tx.data.executor = None;
    assert_eq!(request(x(), &wallet, &tx).validate(), Err(MultisigError::AlreadyExecuted));
    tx.data.executor = done.data.executor;
    tx.data.executed_at = None;
    assert_eq!(request(x(), &wallet, &tx).validate(), Err(MultisigError::AlreadyExecuted));
}

#[test]
fn requests_are_checked_in_order() {
    let mut wallet = wallet_xyz();
    let mut other = created_wallet(who(51), 1, vec![x()]);
    let mut tx = proposed(&mut wallet, x(), vec![], T0).unwrap();
    let foreign = proposed(&mut other, x(), vec![], T0).unwrap();

    // The proposal of another wallet, whoever asks.
    assert_eq!(
        request(who(9), &wallet, &foreign).validate(),
        Err(MultisigError::InvalidMultisigReference)
    );
    assert_eq!(
        request(x(), &wallet, &foreign).validate(),
        Err(MultisigError::InvalidMultisigReference)
    );
    // Somebody who is no member.
    assert_eq!(approved_by(who(9), &wallet, &mut tx, T0), Err(MultisigError::NotAMember));
    assert_eq!(
        unapproved_by(who(9), &wallet, &mut tx),
        Err(Error::Multisig(MultisigError::NotAMember))
    );
    assert_eq!(
        executed_by(who(9), &mut wallet, &mut tx, T0),
        Err(Error::Multisig(MultisigError::NotAMember))
    );
    assert_eq!(request(who(9), &wallet, &tx).slot(), Err(MultisigError::NotAMember));
    assert_eq!(request(z(), &wallet, &tx).slot(), Ok(2));
    assert_eq!(request(z(), &wallet, &tx).validate(), Ok(()));
}

#[test]
fn failed_operation_leaves_the_proposal_open() {
    let mut wallet = wallet_xyz();
    let mut tx = proposed(&mut wallet, x(), vec![operation_p()], T0).unwrap();
    assert_eq!(approved_by(x(), &wallet, &mut tx, T0 + 1), Ok(()));
    assert_eq!(approved_by(z(), &wallet, &mut tx, T0 + 2), Ok(()));
    let mut ctx = request(y(), &wallet, &tx);
    let before = ctx.clone();
    assert_eq!(
        execute_at(&mut ctx, Err(ProgramError::InsufficientFunds), T0 + 3),
        Err(Error::Program(ProgramError::InsufficientFunds))
    );
    assert_eq!(ctx, before);
    assert_eq!(
        ctx.handle_execute_at(Err(ProgramError::Custom(7)), T0 + 3),
        Err(Error::Program(ProgramError::Custom(7)))
    );
    assert_eq!(ctx, before);
    // It can be executed again, and then for good.
    assert_eq!(execute_at(&mut ctx, Ok(wallet.data.clone()), T0 + 4), Ok(()));
    assert_eq!(ctx.transaction.data.executed_at, Some(T0 + 4));
}

#[test]
fn administration_through_an_executed_proposal() {
    let mut wallet = wallet_xyz();
    let mut tx = proposed(&mut wallet, x(), vec![operation_p()], T0).unwrap();
    let mut stale = proposed(&mut wallet, x(), vec![], T0).unwrap();
    assert_eq!(approved_by(x(), &wallet, &mut tx, T0 + 1), Ok(()));
    assert_eq!(approved_by(y(), &wallet, &mut tx, T0 + 2), Ok(()));
    assert_eq!(approved_by(x(), &wallet, &mut stale, T0 + 2), Ok(()));

    // The host issues the proposal's operation, which reaches the wallet signed by itself.
    let mut ctx = request(y(), &wallet, &tx);
    assert_eq!(authorize(&ctx), Ok(()));
    let mut admin = Administration { multisig_wallet: wallet.clone(), wallet_signed: true };
    assert_eq!(change_members(&mut admin, vec![z(), who(4)]), Ok(()));
    assert_eq!(change_threshold(&mut admin, 1), Ok(()));
    assert_eq!(execute_at(&mut ctx, Ok(admin.multisig_wallet.data.clone()), T0 + 3), Ok(()));
    let wallet = ctx.multisig_wallet;
    assert_eq!(
        wallet.data,
        MultisigWallet {
            base: who(50),
            members: vec![z(), who(4)],
            threshold: 1,
            tx_nonce: 2,
            member_set_seqno: 1,
            bump: wallet.data.bump,
        }
    );
    assert_eq!(ctx.transaction.data.executor, Some(y()));

    // The proposal made under the old members is closed to old and new members alike.
    for member in [x(), z(), who(4)] {
        let expected = if member == x() {
            MultisigError::NotAMember
        } else {
            MultisigError::InvalidMemberSetSeqno
        };
        assert_eq!(approved_by(member, &wallet, &mut stale, T0 + 4), Err(expected));
        assert_eq!(unapproved_by(member, &wallet, &mut stale), Err(Error::Multisig(expected)));
        assert_eq!(authorize(&request(member, &wallet, &stale)), Err(expected));
    }
}

#[test]
fn slot_has_to_exist() {
    let mut wallet = wallet_xyz();
    let mut tx = proposed(&mut wallet, x(), vec![], T0).unwrap();
    tx.data.approved.truncate(2);
    let mut ctx = request(z(), &wallet, &tx);
    assert_eq!(ctx.slot(), Err(MultisigError::InvalidMemberSetSeqno));
    assert_eq!(ctx.handle_approve_at(T0), Err(MultisigError::InvalidMemberSetSeqno));
    assert_eq!(ctx.handle_unapprove(), Err(MultisigError::InvalidMemberSetSeqno));
    assert_eq!(approve_at(&mut ctx, T0), Err(MultisigError::InvalidMemberSetSeqno));
}

#[test]
fn administration_needs_the_signature_of_the_wallet() {
    let wallet = wallet_xyz();
    let mut admin = Administration { multisig_wallet: wallet.clone(), wallet_signed: false };
    assert_eq!(change_threshold(&mut admin, 1), Err(Error::ConstraintSigner));
    assert_eq!(change_members(&mut admin, vec![x(), y()]), Err(Error::ConstraintSigner));
    assert_eq!(admin.multisig_wallet, wallet);
}

#[test]
fn threshold_stays_within_the_members() {
    let wallet = wallet_xyz();
    let mut admin = Administration { multisig_wallet: wallet.clone(), wallet_signed: true };
    assert_eq!(
        change_threshold(&mut admin, 4),
        Err(Error::Multisig(MultisigError::InvalidThreshold))
    );
    assert_eq!(admin.handle_change_threshold(4), Err(MultisigError::InvalidThreshold));
    assert_eq!(admin.multisig_wallet, wallet);
    assert_eq!(change_threshold(&mut admin, 3), Ok(()));
    assert_eq!(admin.multisig_wallet.data.threshold, 3);
    assert_eq!(admin.multisig_wallet.data.member_set_seqno, 0);
    assert_eq!(
        change_members(&mut admin, vec![x(), y()]),
        Err(Error::Multisig(MultisigError::TooFewMembers))
    );
    assert_eq!(admin.multisig_wallet.data.members, vec![x(), y(), z()]);
    assert_eq!(change_threshold(&mut admin, 1), Ok(()));
    assert_eq!(change_members(&mut admin, vec![y()]), Ok(()));
    assert_eq!(admin.multisig_wallet.data.members, vec![y()]);
    assert_eq!(admin.multisig_wallet.data.threshold, 1);
    assert_eq!(admin.multisig_wallet.data.member_set_seqno, 1);
    assert_eq!(
        change_members(&mut admin, vec![]),
        Err(Error::Multisig(MultisigError::TooFewMembers))
    );
}

#[test]
fn threshold_is_never_set_to_zero() {
    let wallet = wallet_xyz();
    let mut admin = Administration { multisig_wallet: wallet.clone(), wallet_signed: true };
    assert_eq!(
        change_threshold(&mut admin, 0),
        Err(Error::Multisig(MultisigError::InvalidThreshold))
    );
    assert_eq!(admin.handle_change_threshold(0), Err(MultisigError::InvalidThreshold));
    assert_eq!(admin.multisig_wallet, wallet);
    assert_eq!(admin.multisig_wallet.data.threshold, 2);
    // Without the wallet's signature the request does not come as far as the rule.
    admin.wallet_signed = false;
    assert_eq!(change_threshold(&mut admin, 0), Err(Error::ConstraintSigner));
    // A proposal without approvals stays short of its quorum.
    let mut wallet = wallet;
    let mut tx = proposed(&mut wallet, x(), vec![operation_p()], T0).unwrap();
    assert_eq!(
        executed_by(x(), &mut wallet, &mut tx, T0 + 1),
        Err(Error::Multisig(MultisigError::NotEnoughApprovals))
    );
}

#[test]
fn rules_are_checked_before_addresses() {
    // A policy that is refused is refused as such, wherever the wallet stands.
    let mut ctx = NewMultisig {
        base: who(60),
        payer: who(99),
        multisig_wallet: Account { key: who(61), data: MultisigWallet::default() },
    };
    let blank = ctx.clone();
    assert_eq!(
        new_multisig(&mut ctx, 0, vec![x()]),
        Err(Error::Multisig(MultisigError::InvalidThreshold))
    );
    assert_eq!(
        new_multisig(&mut ctx, 2, vec![x()]),
        Err(Error::Multisig(MultisigError::InvalidThreshold))
    );
    assert_eq!(
        new_multisig(&mut ctx, 2, vec![x(), y(), x()]),
        Err(Error::Multisig(MultisigError::DuplicateMembers))
    );
    assert_eq!(new_multisig(&mut ctx, 2, vec![x(), y()]), Err(Error::ConstraintSeeds));
    assert_eq!(ctx, blank);

    // Somebody who is no member is refused as such, wherever the proposal stands.
    let wallet = wallet_xyz();
    let mut propose = NewTransaction {
        proposer: who(9),
        multisig_wallet: wallet,
        transaction: Account { key: who(62), data: MultisigTransaction::default() },
    };
    let blank = propose.clone();
    assert_eq!(
        new_transaction_at(&mut propose, vec![], T0),
        Err(Error::Multisig(MultisigError::NotAMember))
    );
    assert_eq!(
        new_transaction(&mut propose, vec![]),
        Err(Error::Multisig(MultisigError::NotAMember))
    );
    propose.proposer = x();
    assert_eq!(new_transaction_at(&mut propose, vec![], T0), Err(Error::ConstraintSeeds));
    assert_eq!(new_transaction(&mut propose, vec![]), Err(Error::ConstraintSeeds));
    propose.proposer = who(9);
    assert_eq!(propose, blank);
}

#[test]
fn member_changes_are_counted_to_the_end_of_the_range() {
    let mut wallet = wallet_xyz();
    wallet.data.member_set_seqno = u32::MAX - 1;
    let mut admin = Administration { multisig_wallet: wallet, wallet_signed: true };
    assert_eq!(change_members(&mut admin, vec![x(), y()]), Ok(()));
    assert_eq!(admin.multisig_wallet.data.member_set_seqno, u32::MAX);
    let before = admin.clone();
    assert_eq!(change_members(&mut admin, vec![x(), y(), z()]), Err(Error::IntegerOverflow));
    assert_eq!(admin.handle_change_members(vec![x(), y(), z()]), Err(Error::IntegerOverflow));
    assert_eq!(admin, before);
}

#[test]
fn without_a_host_there_is_no_clock() {
    let mut wallet = wallet_xyz();
    let tx = proposed(&mut wallet, x(), vec![], T0).unwrap();
    let mut ctx = request(x(), &wallet, &tx);
    let before = ctx.clone();
    assert_eq!(approve(&mut ctx), Err(Error::Program(ProgramError::UnsupportedSysvar)));
    assert_eq!(ctx.handle_approve(), Err(Error::Program(ProgramError::UnsupportedSysvar)));
    assert_eq!(ctx, before);
    // The rules are checked before the clock is read.
    ctx.member = who(9);
    assert_eq!(approve(&mut ctx), Err(Error::Multisig(MultisigError::NotAMember)));
    ctx.member = x();
    assert_eq!(
        execute(&mut ctx, Ok(wallet.data.clone())),
        Err(Error::Multisig(MultisigError::NotEnoughApprovals))
    );
    assert_eq!(approve_at(&mut ctx, T0), Ok(()));
    assert_eq!(approve(&mut ctx), Err(Error::Multisig(MultisigError::AlreadyApproved)));
    ctx.member = y();
    assert_eq!(approve_at(&mut ctx, T0), Ok(()));
    let approved = ctx.clone();
    assert_eq!(
        execute(&mut ctx, Ok(wallet.data.clone())),
        Err(Error::Program(ProgramError::UnsupportedSysvar))
    );
    assert_eq!(
        ctx.handle_execute(Err(ProgramError::InvalidArgument)),
        Err(Error::Program(ProgramError::InvalidArgument))
    );
    assert_eq!(ctx, approved);

    let key = find_multisig_transaction_address(&wallet.key, wallet.data.tx_nonce).unwrap();
    let mut propose = NewTransaction {
        proposer: x(),
        multisig_wallet: wallet.clone(),
        transaction: Account { key, data: MultisigTransaction::default() },
    };
    let blank = propose.clone();
    assert_eq!(
        new_transaction(&mut propose, vec![operation_p()]),
        Err(Error::Program(ProgramError::UnsupportedSysvar))
    );
    assert_eq!(propose.handle(vec![]), Err(Error::Program(ProgramError::UnsupportedSysvar)));
    assert_eq!(propose, blank);
    propose.proposer = who(9);
    assert_eq!(
        new_transaction(&mut propose, vec![]),
        Err(Error::Multisig(MultisigError::NotAMember))
    );
}

#[test]
fn errors_have_their_numbers_and_sentences() {
    let all = [
        MultisigError::InvalidThreshold,
        MultisigError::DuplicateMembers,
        MultisigError::TooFewMembers,
        MultisigError::NotAMember,
        MultisigError::InvalidMemberSetSeqno,
        MultisigError::InvalidMultisigReference,
        MultisigError::AlreadyApproved,
        MultisigError::AlreadyUnapproved,
        MultisigError::NotEnoughApprovals,
        MultisigError::AlreadyExecuted,
    ];
    for (i, e) in all.iter().enumerate() {
        assert_eq!(e.code(), 6000 + i as u32);
    }
    assert_eq!(
        MultisigError::InvalidThreshold.message(),
        "Threshold must be <= the number of multisig wallet members"
    );
    assert_eq!(MultisigError::AlreadyExecuted.message(), "Transaction already executed");
    assert_eq!(
        MultisigError::AlreadyUnapproved.message(),
        "Signer already is marked as unapproved for this transaction."
    );
}
