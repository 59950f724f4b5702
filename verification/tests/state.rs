use multisig_demo::layout::transaction_discriminator_bytes;
use multisig_demo::layout::wallet_discriminator_bytes;
use multisig_demo::pubkey::Pubkey;
use multisig_demo::state::AccountMeta;
use multisig_demo::state::Instruction;
use multisig_demo::state::MultisigTransaction;
use multisig_demo::state::MultisigWallet;
use solana_program::system_instruction::transfer;

const DISCRIMINATOR_BYTE_SIZE: usize = 8;

type BorshMeta = ([u8; 32], bool, bool);
type BorshInstruction = ([u8; 32], Vec<BorshMeta>, Vec<u8>);
type BorshWallet = ([u8; 32], Vec<[u8; 32]>, u16, u64, u32, u8);
type BorshTransaction = (
    Vec<BorshInstruction>,
    [u8; 32],
    Vec<Option<i64>>,
    u32,
    i64,
    [u8; 32],
    Option<[u8; 32]>,
    Option<i64>,
);

fn state_key(seed: u8) -> Pubkey {
    let mut bytes = [0u8; 32];
    for (i, b) in bytes.iter_mut().enumerate() {
        *b = seed.wrapping_mul(31).wrapping_add(i as u8);
    }
    Pubkey { bytes }
}

fn state_from_outside(ix: solana_program::instruction::Instruction) -> Instruction {
    Instruction {
        program_id: Pubkey { bytes: ix.program_id.to_bytes() },
        keys: ix
            .accounts
            .iter()
            .map(|meta| AccountMeta {
                pubkey: Pubkey { bytes: meta.pubkey.to_bytes() },
                is_signer: meta.is_signer,
                is_writable: meta.is_writable,
            })
            .collect(),
        data: ix.data,
    }
}

fn state_borsh_instruction(ix: &Instruction) -> BorshInstruction {
    (
        ix.program_id.bytes,
        ix.keys.iter().map(|k| (k.pubkey.bytes, k.is_signer, k.is_writable)).collect(),
        ix.data.clone(),
    )
}

fn state_borsh_wallet(w: &MultisigWallet) -> BorshWallet {
    (
        w.base.bytes,
        w.members.iter().map(|m| m.bytes).collect(),
        w.threshold,
        w.tx_nonce,
        w.member_set_seqno,
        w.bump,
    )
}

fn state_borsh_transaction(t: &MultisigTransaction) -> BorshTransaction {
    (
        t.instructions.iter().map(state_borsh_instruction).collect(),
        t.multisig_wallet.bytes,
        t.approved.clone(),
        t.member_set_seqno,
        t.created_at,
        t.proposer.bytes,
        t.executor.map(|e| e.bytes),
        t.executed_at,
    )
}

fn state_sample_instruction() -> Instruction {
    Instruction {
        program_id: state_key(9),
        keys: vec![
            AccountMeta { pubkey: state_key(1), is_signer: true, is_writable: false },
            AccountMeta { pubkey: state_key(2), is_signer: false, is_writable: true },
            AccountMeta { pubkey: state_key(3), is_signer: true, is_writable: true },
        ],
        data: vec![1, 2, 3, 250, 0, 7],
    }
}

fn state_sample_transaction() -> MultisigTransaction {
    MultisigTransaction {
        instructions: vec![state_sample_instruction(), Instruction::default()],
        multisig_wallet: state_key(4),
        approved: vec![Some(1_650_000_000), None, Some(-5)],
        member_set_seqno: 0x0102_0304,
        created_at: 1_649_999_999,
        proposer: state_key(1),
        executor: None,
        executed_at: None,
    }
}

#[test]
fn multisig_wallet_length() {
    assert_eq!(
        MultisigWallet::space(0),
        DISCRIMINATOR_BYTE_SIZE + MultisigWallet::default().try_to_vec().unwrap().len(),
    );
    assert_eq!(
        MultisigWallet::space(1),
        DISCRIMINATOR_BYTE_SIZE
            + MultisigWallet::default().try_to_vec().unwrap().len()
            + std::mem::size_of::<Pubkey>(),
    );
}

#[test]
fn multisig_transaction_length() {
    // If executor and executed_at were left None the lengths would differ: an absent
    // optional field is written in one byte, a present one in one byte more than its value.
    assert_eq!(
        MultisigTransaction::space(vec![], 0),
        DISCRIMINATOR_BYTE_SIZE
            + MultisigTransaction {
                executor: Some(Default::default()),
                executed_at: Some(Default::default()),
                ..Default::default()
            }
            .try_to_vec()
            .unwrap()
            .len(),
    );
    let mut tx = MultisigTransaction::default();
    let ix = transfer(&Default::default(), &Default::default(), 0);
    tx.instructions = vec![state_from_outside(ix.clone())];
    tx.executor = Some(Default::default());
    tx.executed_at = Some(Default::default());
    assert_eq!(
        MultisigTransaction::space(vec![state_from_outside(ix.clone())], 0),
        DISCRIMINATOR_BYTE_SIZE + tx.try_to_vec().unwrap().len(),
    );
}

#[test]
fn wallet_space_is_exact() {
    assert_eq!(MultisigWallet::space(0), 59);
    assert_eq!(MultisigWallet::space(1), 91);
    assert_eq!(MultisigWallet::space(3), 155);
    for n in 0..6usize {
        let wallet = MultisigWallet {
            base: state_key(7),
            members: (0..n).map(|i| state_key(i as u8)).collect(),
            threshold: 2,
            tx_nonce: 77,
            member_set_seqno: 3,
            bump: 254,
        };
        assert_eq!(wallet.try_serialize().unwrap().len(), MultisigWallet::space(n));
        assert_eq!(wallet.try_to_vec().unwrap().len() + 8, MultisigWallet::space(n));
    }
}

#[test]
fn instruction_space_is_exact() {
    assert_eq!(Instruction::default().space(), 40);
    assert_eq!(AccountMeta::LEN, 34);
    let ix = state_sample_instruction();
    assert_eq!(ix.space(), 32 + 4 + 3 * 34 + 4 + 6);
    assert_eq!(ix.try_to_vec().unwrap().len(), ix.space());
}

#[test]
fn transaction_space_counts_every_optional_field_as_present() {
    assert_eq!(MultisigTransaction::space(vec![], 0), 134);
    assert_eq!(MultisigTransaction::space(vec![], 3), 134 + 27);
    assert_eq!(MultisigTransaction::space(vec![state_sample_instruction()], 3), 134 + 27 + 148);

    let mut tx = state_sample_transaction();
    let space = MultisigTransaction::space(tx.instructions.clone(), tx.approved.len());
    assert_eq!(space, 134 + 27 + 148 + 40);
    // One empty slot, no executor, no time of execution: 8 + 32 + 8 bytes are left over.
    assert_eq!(tx.try_serialize().unwrap().len() + 48, space);
    tx.approved[1] = Some(3);
    assert_eq!(tx.try_serialize().unwrap().len() + 40, space);
    tx.executor = Some(state_key(2));
    assert_eq!(tx.try_serialize().unwrap().len() + 8, space);
    tx.executed_at = Some(1_650_000_100);
    assert_eq!(tx.try_serialize().unwrap().len(), space);
}

#[test]
fn space_is_counted_as_far_as_the_machine_counts() {
    assert_eq!(MultisigWallet::checked_space(3), Some(155));
    assert_eq!(MultisigWallet::checked_space(usize::MAX / 32), None);
    assert_eq!(MultisigWallet::checked_space((usize::MAX - 59) / 32 + 1), None);
    assert_eq!(
        MultisigWallet::checked_space((usize::MAX - 59) / 32),
        Some(59 + 32 * ((usize::MAX - 59) / 32))
    );
    let ix = state_sample_instruction();
    assert_eq!(ix.checked_space(), Some(148));
    assert_eq!(MultisigTransaction::checked_space(&vec![], 0), Some(134));
    assert_eq!(MultisigTransaction::checked_space(&vec![ix.clone(), ix], 3), Some(134 + 296 + 27));
    assert_eq!(MultisigTransaction::checked_space(&vec![], usize::MAX / 9 + 1), None);
    assert_eq!(MultisigTransaction::checked_space(&vec![], usize::MAX / 9), None);
    assert_eq!(
        MultisigTransaction::checked_space(&vec![], (usize::MAX - 134) / 9),
        Some(134 + 9 * ((usize::MAX - 134) / 9))
    );
}

#[test]
fn wallet_bytes_are_the_declared_fields_in_order() {
    let wallet = MultisigWallet {
        base: state_key(7),
        members: vec![state_key(1), state_key(2)],
        threshold: 0x0102,
        tx_nonce: 0x0102_0304_0506_0708,
        member_set_seqno: 0x0a0b_0c0d,
        bump: 253,
    };
    let mut expected = Vec::new();
    expected.extend_from_slice(&state_key(7).bytes);
    expected.extend_from_slice(&[2, 0, 0, 0]);
    expected.extend_from_slice(&state_key(1).bytes);
    expected.extend_from_slice(&state_key(2).bytes);
    expected.extend_from_slice(&[0x02, 0x01]);
    expected.extend_from_slice(&[8, 7, 6, 5, 4, 3, 2, 1]);
    expected.extend_from_slice(&[0x0d, 0x0c, 0x0b, 0x0a]);
    expected.push(253);
    assert_eq!(wallet.try_to_vec().unwrap(), expected);

    let mut record = wallet_discriminator_bytes();
    record.extend_from_slice(&expected);
    assert_eq!(wallet.try_serialize().unwrap(), record);
}

#[test]
fn wallet_bytes_agree_with_borsh() {
    for n in 0..4usize {
        let wallet = MultisigWallet {
            base: state_key(40),
            members: (0..n).map(|i| state_key(10 + i as u8)).collect(),
            threshold: n as u16,
            tx_nonce: u64::MAX - 1,
            member_set_seqno: u32::MAX,
            bump: n as u8,
        };
        assert_eq!(
            wallet.try_to_vec().unwrap(),
            borsh::to_vec(&state_borsh_wallet(&wallet)).unwrap()
        );
    }
}

#[test]
fn instruction_bytes_agree_with_borsh() {
    for ix in [Instruction::default(), state_sample_instruction()] {
        assert_eq!(ix.try_to_vec().unwrap(), borsh::to_vec(&state_borsh_instruction(&ix)).unwrap());
    }
    let outside = state_from_outside(transfer(&Default::default(), &Default::default(), 0));
    assert_eq!(
        outside.try_to_vec().unwrap(),
        borsh::to_vec(&state_borsh_instruction(&outside)).unwrap()
    );
}

#[test]
fn transaction_bytes_agree_with_borsh() {
    let mut tx = state_sample_transaction();
    assert_eq!(tx.try_to_vec().unwrap(), borsh::to_vec(&state_borsh_transaction(&tx)).unwrap());
    tx.created_at = i64::MIN;
    tx.executor = Some(state_key(3));
    tx.executed_at = Some(-1);
    assert_eq!(tx.try_to_vec().unwrap(), borsh::to_vec(&state_borsh_transaction(&tx)).unwrap());
    let empty = MultisigTransaction::default();
    assert_eq!(
        empty.try_to_vec().unwrap(),
        borsh::to_vec(&state_borsh_transaction(&empty)).unwrap()
    );
    let mut record = transaction_discriminator_bytes();
    record.extend_from_slice(&tx.try_to_vec().unwrap());
    assert_eq!(tx.try_serialize().unwrap(), record);
}

#[test]
fn record_tags_are_the_hashes_of_the_entity_names() {
    let wallet = solana_program::hash::hash(b"account:MultisigWallet").to_bytes();
    assert_eq!(wallet_discriminator_bytes(), wallet[..8].to_vec());
    let transaction = solana_program::hash::hash(b"account:MultisigTransaction").to_bytes();
    assert_eq!(transaction_discriminator_bytes(), transaction[..8].to_vec());
}

#[test]
fn counts_approvals_and_sees_execution() {
    let mut tx = state_sample_transaction();
    assert_eq!(tx.num_approvals(), 2);
    assert!(!tx.is_executed());
    tx.approved = vec![];
    assert_eq!(tx.num_approvals(), 0);
    tx.executed_at = Some(0);
    assert!(tx.is_executed());
    tx.executed_at = None;
    tx.executor = Some(state_key(1));
    assert!(tx.is_executed());
}

#[test]
fn finds_the_first_position_of_a_member() {
    let wallet = MultisigWallet {
        base: state_key(0),
        members: vec![state_key(3), state_key(1), state_key(2), state_key(1)],
        threshold: 1,
        tx_nonce: 0,
        member_set_seqno: 0,
        bump: 0,
    };
    assert_eq!(wallet.member_index(&state_key(3)), Some(0));
    assert_eq!(wallet.member_index(&state_key(1)), Some(1));
    assert_eq!(wallet.member_index(&state_key(2)), Some(2));
    assert_eq!(wallet.member_index(&state_key(9)), None);
    assert!(wallet.is_member(&state_key(2)));
    assert!(!wallet.is_member(&state_key(9)));
}

#[test]
fn identities_compare_by_their_bytes() {
    assert_eq!(Pubkey::default(), Pubkey { bytes: [0u8; 32] });
    assert_eq!(Pubkey::new_from_array([7u8; 32]), Pubkey { bytes: [7u8; 32] });
    let mut other = [7u8; 32];
    other[31] = 8;
    assert_ne!(Pubkey::new_from_array([7u8; 32]), Pubkey { bytes: other });
    assert_eq!(state_key(5).to_vec(), state_key(5).bytes.to_vec());
}
