use multisig_demo::client::memo_ix;
use multisig_demo::client::new_multisig_ix;
use multisig_demo::client::system_program_id;
use multisig_demo::client::MultisigMember;
use multisig_demo::pda::find_multisig_transaction_address;
use multisig_demo::pda::find_multisig_wallet_address;
use multisig_demo::pda::id;
use multisig_demo::pda::multisig_wallet_seeds;
use multisig_demo::pda::transaction_tag_bytes;
use multisig_demo::pda::wallet_tag_bytes;
use multisig_demo::pubkey::Pubkey;
use multisig_demo::state::AccountMeta;
use multisig_demo::state::Instruction;
use multisig_demo::state::MultisigTransaction;
use multisig_demo::state::MultisigWallet;
use solana_sdk::signature::Keypair;
use solana_sdk::signer::Signer;
use std::str::FromStr;

fn client_key(n: u8) -> Pubkey {
    Pubkey { bytes: [n; 32] }
}

fn client_outside(key: &Pubkey) -> solana_program::pubkey::Pubkey {
    solana_program::pubkey::Pubkey::new_from_array(key.bytes)
}

fn client_sighash(name: &str) -> Vec<u8> {
    solana_program::hash::hash(format!("global:{}", name).as_bytes()).to_bytes()[..8].to_vec()
}

fn client_member() -> MultisigMember {
    let base = client_key(50);
    let multisig_address = find_multisig_wallet_address(&base).unwrap();
    MultisigMember::new(
        client_key(1),
        multisig_address,
        MultisigWallet {
            base,
            members: vec![client_key(1), client_key(2)],
            threshold: 1,
            tx_nonce: 5,
            member_set_seqno: 0,
            bump: 255,
        },
    )
}

fn client_operation(wallet: Pubkey) -> Instruction {
    Instruction {
        program_id: client_key(200),
        keys: vec![
            AccountMeta { pubkey: client_key(201), is_signer: false, is_writable: true },
            AccountMeta { pubkey: wallet, is_signer: true, is_writable: true },
            AccountMeta { pubkey: client_key(202), is_signer: false, is_writable: false },
        ],
        data: vec![1, 2, 3],
    }
}

#[test]
fn make_instructions() {
    let signer = Box::new(Keypair::new());
    let base = solana_program::pubkey::Pubkey::new_unique();
    let (multisig, bump) = solana_program::pubkey::Pubkey::find_program_address(
        &[b"MultisigWallet".as_ref(), base.as_ref()],
        &client_outside(&id()),
    );
    let member_key = Pubkey { bytes: signer.pubkey().to_bytes() };
    let data = MultisigWallet {
        base: Pubkey { bytes: base.to_bytes() },
        members: vec![member_key],
        threshold: 1,
        tx_nonce: 0,
        member_set_seqno: 0,
        bump,
    };
    let member = MultisigMember {
        member: member_key,
        multisig_address: Pubkey { bytes: multisig.to_bytes() },
        multisig_data: data,
    };
    let transaction =
        find_multisig_transaction_address(&Pubkey { bytes: multisig.to_bytes() }, 0).unwrap();
    let _ix = member.new_transaction_ix(&vec![]).unwrap();
    let _ix = member.approve_ix(transaction.clone());
    let _ix = member.unapprove_ix(transaction.clone());
    let _ix = member.execute_ix(transaction.clone(), &MultisigTransaction::default());
}

#[test]
fn program_identity_is_the_declared_one() {
    let declared =
        solana_program::pubkey::Pubkey::from_str("H1wPJB59dvpLrMmdcJ6dxQSMmXsm6TSRxkNUtC4CFDs1")
            .unwrap();
    assert_eq!(id().bytes, declared.to_bytes());
    assert_eq!(system_program_id().bytes, solana_program::system_program::id().to_bytes());
    assert_eq!(system_program_id(), Pubkey::default());
}

#[test]
fn address_tags_are_the_entity_names() {
    assert_eq!(wallet_tag_bytes(), b"MultisigWallet".to_vec());
    assert_eq!(transaction_tag_bytes(), b"MultisigTransaction".to_vec());
}

#[test]
fn wallet_address_is_the_host_derivation() {
    for n in [0u8, 1, 50, 255] {
        let base = client_key(n);
        let (expected, bump) = solana_program::pubkey::Pubkey::find_program_address(
            &[b"MultisigWallet".as_ref(), base.bytes.as_ref()],
            &client_outside(&id()),
        );
        let found = find_multisig_wallet_address(&base).unwrap();
        assert_eq!(found.bytes, expected.to_bytes());
        assert_ne!(found, base);
        assert_eq!(
            multisig_demo::pda::derive_wallet(&base),
            Some((Pubkey { bytes: expected.to_bytes() }, bump))
        );
    }
}

#[test]
fn transaction_address_is_the_host_derivation() {
    let wallet = find_multisig_wallet_address(&client_key(50)).unwrap();
    for nonce in [0u64, 1, 2, 255, 256, u64::MAX] {
        let (expected, bump) = solana_program::pubkey::Pubkey::find_program_address(
            &[b"MultisigTransaction".as_ref(), wallet.bytes.as_ref(), &nonce.to_le_bytes()],
            &client_outside(&id()),
        );
        let found = find_multisig_transaction_address(&wallet, nonce).unwrap();
        assert_eq!(found.bytes, expected.to_bytes());
        assert_eq!(
            multisig_demo::pda::derive_transaction(&wallet, nonce),
            Some((Pubkey { bytes: expected.to_bytes() }, bump))
        );
    }
}

#[test]
fn signer_seeds_reproduce_the_wallet_address() {
    let base = client_key(77);
    let (address, bump) = multisig_demo::pda::derive_wallet(&base).unwrap();
    let wallet = MultisigWallet {
        base,
        members: vec![client_key(1)],
        threshold: 1,
        tx_nonce: 0,
        member_set_seqno: 0,
        bump,
    };
    let seeds = multisig_wallet_seeds(&wallet);
    assert_eq!(seeds, vec![b"MultisigWallet".to_vec(), base.bytes.to_vec(), vec![bump]]);
    let parts: Vec<&[u8]> = seeds.iter().map(|s| s.as_slice()).collect();
    let signed =
        solana_program::pubkey::Pubkey::create_program_address(&parts, &client_outside(&id()))
            .unwrap();
    assert_eq!(signed.to_bytes(), address.bytes);
}

#[test]
fn next_transaction_follows_the_counter() {
    let mut member = client_member();
    assert_eq!(
        member.next_transaction_pubkey(),
        find_multisig_transaction_address(&member.multisig_address, 5)
    );
    let mut data = member.multisig_data.clone();
    data.tx_nonce = 6;
    member.refresh_wallet(data.clone());
    assert_eq!(member.multisig_data, data);
    assert_eq!(
        member.next_transaction_pubkey(),
        find_multisig_transaction_address(&member.multisig_address, 6)
    );
    assert_ne!(
        find_multisig_transaction_address(&member.multisig_address, 5),
        find_multisig_transaction_address(&member.multisig_address, 6)
    );
}

#[test]
fn approval_requests_name_member_wallet_and_proposal() {
    let member = client_member();
    let transaction = client_key(9);
    let keys = vec![
        AccountMeta { pubkey: client_key(1), is_signer: true, is_writable: true },
        AccountMeta { pubkey: member.multisig_address, is_signer: false, is_writable: true },
        AccountMeta { pubkey: transaction, is_signer: false, is_writable: true },
    ];
    assert_eq!(
        member.approve_ix(transaction),
        Instruction { program_id: id(), keys: keys.clone(), data: client_sighash("approve") }
    );
    assert_eq!(
        member.unapprove_ix(transaction),
        Instruction { program_id: id(), keys, data: client_sighash("unapprove") }
    );
    assert_eq!(member.approve_ix(transaction).data, vec![69, 74, 217, 36, 115, 117, 97, 76]);
}

#[test]
fn execute_request_lists_the_accounts_of_the_operations() {
    let member = client_member();
    let wallet = member.multisig_address;
    let transaction = client_key(9);
    let mut data = MultisigTransaction::default();
    data.instructions = vec![client_operation(wallet), client_operation(wallet)];
    data.instructions[1].program_id = client_key(210);
    let ix = member.execute_ix(transaction, &data);
    assert_eq!(ix.program_id, id());
    assert_eq!(ix.data, client_sighash("execute"));
    let readonly = |key: Pubkey| AccountMeta { pubkey: key, is_signer: false, is_writable: false };
    assert_eq!(
        ix.keys,
        vec![
            AccountMeta { pubkey: client_key(1), is_signer: true, is_writable: true },
            AccountMeta { pubkey: wallet, is_signer: false, is_writable: true },
            AccountMeta { pubkey: transaction, is_signer: false, is_writable: true },
            AccountMeta { pubkey: client_key(201), is_signer: false, is_writable: true },
            readonly(client_key(202)),
            readonly(client_key(200)),
            AccountMeta { pubkey: client_key(201), is_signer: false, is_writable: true },
            readonly(client_key(202)),
            readonly(client_key(210)),
            readonly(wallet),
        ]
    );
    let bare = member.execute_ix(transaction, &MultisigTransaction::default());
    assert_eq!(bare.keys.len(), 4);
    assert_eq!(bare.keys[3], readonly(wallet));
}

#[test]
fn proposal_request_carries_the_operations() {
    let member = client_member();
    let wallet = member.multisig_address;
    let operations = vec![client_operation(wallet)];
    let ix = member.new_transaction_ix(&operations).unwrap();
    let transaction = find_multisig_transaction_address(&wallet, 5).unwrap();
    assert_eq!(
        ix.keys,
        vec![
            AccountMeta { pubkey: client_key(1), is_signer: true, is_writable: true },
            AccountMeta { pubkey: wallet, is_signer: false, is_writable: true },
            AccountMeta { pubkey: transaction, is_signer: false, is_writable: true },
            AccountMeta { pubkey: system_program_id(), is_signer: false, is_writable: false },
        ]
    );
    let mut data = client_sighash("new_transaction");
    data.extend_from_slice(&[1, 0, 0, 0]);
    data.extend_from_slice(&operations[0].try_to_vec().unwrap());
    assert_eq!(ix.data, data);
    assert_eq!(ix.program_id, id());

    let (propose, approve) = member.create_and_approve_ixs(&operations).unwrap();
    assert_eq!(propose, ix);
    assert_eq!(approve, member.approve_ix(transaction));
}

#[test]
fn approve_and_execute_at_once() {
    let member = client_member();
    let transaction = client_key(9);
    let mut data = MultisigTransaction::default();
    data.instructions = vec![client_operation(member.multisig_address)];
    let (approve, execute) = member.approve_and_execute_ixs(transaction, &data);
    assert_eq!(approve, member.approve_ix(transaction));
    assert_eq!(execute, member.execute_ix(transaction, &data));
}

#[test]
fn creation_request_carries_threshold_and_members() {
    let base = client_key(50);
    let wallet = find_multisig_wallet_address(&base).unwrap();
    let members = vec![client_key(1), client_key(2), client_key(3)];
    let ix = new_multisig_ix(2, &members, &client_key(99), &base, &wallet).unwrap();
    assert_eq!(ix.program_id, id());
    assert_eq!(
        ix.keys,
        vec![
            AccountMeta { pubkey: base, is_signer: true, is_writable: false },
            AccountMeta { pubkey: client_key(99), is_signer: true, is_writable: true },
            AccountMeta { pubkey: wallet, is_signer: false, is_writable: true },
            AccountMeta { pubkey: system_program_id(), is_signer: false, is_writable: false },
        ]
    );
    let mut data = client_sighash("new_multisig");
    data.extend_from_slice(&borsh::to_vec(&(2u16, vec![[1u8; 32], [2u8; 32], [3u8; 32]])).unwrap());
    assert_eq!(ix.data, data);
    assert_eq!(ix.data.len(), 8 + 2 + 4 + 96);
}

#[test]
fn administration_requests_are_signed_by_the_wallet() {
    let member = client_member();
    let keys = vec![AccountMeta {
        pubkey: member.multisig_address,
        is_signer: true,
        is_writable: true,
    }];
    let mut data = client_sighash("change_threshold");
    data.extend_from_slice(&[0x34, 0x12]);
    assert_eq!(
        member.change_threshold_ix(0x1234),
        Instruction { program_id: id(), keys: keys.clone(), data }
    );
    let mut data = client_sighash("change_members");
    data.extend_from_slice(&borsh::to_vec(&vec![[4u8; 32], [5u8; 32]]).unwrap());
    assert_eq!(
        member.change_members_ix(&vec![client_key(4), client_key(5)]),
        Some(Instruction { program_id: id(), keys, data })
    );
}

#[test]
fn memo_operation_is_signed_by_the_wallet() {
    let wallet = client_key(42);
    let memo = "hello, multisig".as_bytes().to_vec();
    let ix = memo_ix(&wallet, &memo);
    let program =
        solana_program::pubkey::Pubkey::from_str("MemoSq4gqABAXKb96qnH8TysNcWxMyWCqXgDLGmfcHr")
            .unwrap();
    assert_eq!(
        ix,
        Instruction {
            program_id: Pubkey { bytes: program.to_bytes() },
            keys: vec![AccountMeta { pubkey: wallet, is_signer: true, is_writable: false }],
            data: memo,
        }
    );
    assert_eq!(memo_ix(&wallet, &vec![]).data, Vec::<u8>::new());
}
