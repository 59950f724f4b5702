use multisig_demo::client::MultisigMember;
use multisig_demo::pda::find_multisig_wallet_address;
use multisig_demo::pubkey::Pubkey;
use multisig_demo::request::Request;
use multisig_demo::state::AccountMeta;
use multisig_demo::state::Instruction;
use multisig_demo::state::MultisigTransaction;
use multisig_demo::state::MultisigWallet;

type ParsedMeta = ([u8; 32], bool, bool);
type ParsedInstruction = ([u8; 32], Vec<ParsedMeta>, Vec<u8>);
type ParsedWallet = ([u8; 32], Vec<[u8; 32]>, u16, u64, u32, u8);

fn parse_key(n: u8) -> Pubkey {
    let mut bytes = [n; 32];
    bytes[0] = n.wrapping_add(100);
    Pubkey { bytes }
}

fn parse_wallet() -> MultisigWallet {
    MultisigWallet {
        base: parse_key(1),
        members: vec![parse_key(2), parse_key(3), parse_key(4)],
        threshold: 2,
        tx_nonce: 0x0102_0304_0506_0708,
        member_set_seqno: 9,
        bump: 251,
    }
}

fn parse_operation(n: u8) -> Instruction {
    Instruction {
        program_id: parse_key(n),
        keys: (0..n)
            .map(|i| AccountMeta {
                pubkey: parse_key(i),
                is_signer: i % 2 == 0,
                is_writable: i % 3 == 0,
            })
            .collect(),
        data: (0..n).map(|i| i.wrapping_mul(17)).collect(),
    }
}

fn parse_transaction() -> MultisigTransaction {
    MultisigTransaction {
        instructions: vec![parse_operation(0), parse_operation(3), parse_operation(1)],
        multisig_wallet: parse_key(7),
        approved: vec![None, Some(1_650_000_000), Some(-1), None],
        member_set_seqno: u32::MAX,
        created_at: i64::MIN,
        proposer: parse_key(2),
        executor: Some(parse_key(3)),
        executed_at: None,
    }
}

#[test]
fn wallet_is_read_back_from_its_reserved_space() {
    let wallet = parse_wallet();
    let record = wallet.try_serialize().unwrap();
    assert_eq!(MultisigWallet::try_deserialize(&record), Some(wallet.clone()));
    assert_eq!(record.len(), MultisigWallet::space(3));
    let mut stored = record.clone();
    stored.extend_from_slice(&[0u8; 64]);
    assert_eq!(MultisigWallet::try_deserialize(&stored), Some(wallet.clone()));
    let fields = wallet.try_to_vec().unwrap();
    assert_eq!(MultisigWallet::try_from_slice(&fields), Some((wallet.clone(), fields.len())));
    let blank = MultisigWallet::default();
    assert_eq!(MultisigWallet::try_deserialize(&blank.try_serialize().unwrap()), Some(blank));
}

#[test]
fn transaction_is_read_back_from_its_reserved_space() {
    let tx = parse_transaction();
    let record = tx.try_serialize().unwrap();
    assert_eq!(MultisigTransaction::try_deserialize(&record), Some(tx.clone()));
    let mut stored = record.clone();
    stored.resize(MultisigTransaction::space(tx.instructions.clone(), tx.approved.len()), 0);
    assert_eq!(MultisigTransaction::try_deserialize(&stored), Some(tx.clone()));
    let fields = tx.try_to_vec().unwrap();
    assert_eq!(MultisigTransaction::try_from_slice(&fields), Some((tx.clone(), fields.len())));
    let blank = MultisigTransaction::default();
    assert_eq!(
        MultisigTransaction::try_deserialize(&blank.try_serialize().unwrap()),
        Some(blank)
    );
    let ix = parse_operation(5);
    let written = ix.try_to_vec().unwrap();
    assert_eq!(Instruction::try_from_slice(&written), Some((ix, written.len())));
}

#[test]
fn cut_records_are_not_read() {
    let wallet = parse_wallet().try_serialize().unwrap();
    for n in 0..wallet.len() {
        assert_eq!(MultisigWallet::try_deserialize(&wallet[..n]), None);
    }
    let tx = parse_transaction().try_serialize().unwrap();
    for n in 0..tx.len() {
        assert_eq!(MultisigTransaction::try_deserialize(&tx[..n]), None);
    }
}

#[test]
fn records_are_told_apart_by_their_tags() {
    let wallet = parse_wallet().try_serialize().unwrap();
    let tx = parse_transaction().try_serialize().unwrap();
    assert_eq!(MultisigTransaction::try_deserialize(&wallet), None);
    assert_eq!(MultisigWallet::try_deserialize(&tx), None);
    let mut spoiled = wallet.clone();
    spoiled[7] ^= 1;
    assert_eq!(MultisigWallet::try_deserialize(&spoiled), None);
    assert_eq!(MultisigWallet::try_deserialize(&[0u8; 200]), None);
}

#[test]
fn flags_are_zero_or_one() {
    let mut tx = parse_transaction();
    tx.instructions = vec![parse_operation(1)];
    let good = tx.try_to_vec().unwrap();
    // The only account reference of the only operation: its flags follow its identity.
    let signer = 4 + 32 + 4 + 32;
    assert_eq!(good[signer], 1);
    let mut bad = good.clone();
    bad[signer] = 2;
    assert_eq!(MultisigTransaction::try_from_slice(&bad), None);
    // The last byte says whether a time of execution follows.
    let last = good.len() - 1;
    assert_eq!(good[last], 0);
    let mut bad = good.clone();
    bad[last] = 3;
    assert_eq!(MultisigTransaction::try_from_slice(&bad), None);
    let mut more = good.clone();
    more[last] = 1;
    assert_eq!(MultisigTransaction::try_from_slice(&more), None);
    more.extend_from_slice(&5i64.to_le_bytes());
    tx.executed_at = Some(5);
    assert_eq!(MultisigTransaction::try_from_slice(&more), Some((tx, more.len())));
}

#[test]
fn a_count_beyond_the_bytes_is_not_read() {
    let mut fields = parse_wallet().try_to_vec().unwrap();
    fields[32..36].copy_from_slice(&u32::MAX.to_le_bytes());
    assert_eq!(MultisigWallet::try_from_slice(&fields), None);
    fields[32..36].copy_from_slice(&4u32.to_le_bytes());
    assert_eq!(MultisigWallet::try_from_slice(&fields), None);
    fields[32..36].copy_from_slice(&2u32.to_le_bytes());
    let read = MultisigWallet::try_from_slice(&fields).unwrap();
    assert_eq!(read.0.members, vec![parse_key(2), parse_key(3)]);
    assert_eq!(read.1, fields.len() - 32);
}

#[test]
fn reading_agrees_with_borsh() {
    let wallet = parse_wallet();
    let outside: ParsedWallet = borsh::from_slice(&wallet.try_to_vec().unwrap()).unwrap();
    assert_eq!(outside.0, wallet.base.bytes);
    assert_eq!(outside.1, wallet.members.iter().map(|m| m.bytes).collect::<Vec<_>>());
    assert_eq!((outside.2, outside.3, outside.4, outside.5), (2, 0x0102_0304_0506_0708, 9, 251));

    let written = borsh::to_vec(&(
        [9u8; 32],
        vec![([1u8; 32], true, false), ([2u8; 32], false, true)],
        vec![7u8, 8, 9],
    ))
    .unwrap();
    let (ix, used) = Instruction::try_from_slice(&written).unwrap();
    assert_eq!(used, written.len());
    assert_eq!(
        ix,
        Instruction {
            program_id: Pubkey { bytes: [9; 32] },
            keys: vec![
                AccountMeta {
                    pubkey: Pubkey { bytes: [1; 32] },
                    is_signer: true,
                    is_writable: false,
                },
                AccountMeta {
                    pubkey: Pubkey { bytes: [2; 32] },
                    is_signer: false,
                    is_writable: true,
                },
            ],
            data: vec![7, 8, 9],
        }
    );
    let back: ParsedInstruction = borsh::from_slice(&ix.try_to_vec().unwrap()).unwrap();
    assert_eq!(back.2, vec![7, 8, 9]);
}

#[test]
fn requests_are_read_back() {
    let requests = vec![
        Request::NewMultisig { threshold: 2, members: vec![parse_key(1), parse_key(2)] },
        Request::NewMultisig { threshold: 0, members: vec![] },
        Request::NewTransaction { instructions: vec![parse_operation(2), parse_operation(0)] },
        Request::NewTransaction { instructions: vec![] },
        Request::Approve,
        Request::Unapprove,
        Request::Execute,
        Request::ChangeThreshold { threshold: 0x1234 },
        Request::ChangeMembers { members: vec![parse_key(5)] },
    ];
    for request in requests {
        let data = request.data().unwrap();
        assert!(request.is_encodable());
        assert_eq!(Request::try_from_slice(&data), Some(request.clone()));
        let mut longer = data.clone();
        longer.extend_from_slice(&[0xff, 0xff]);
        assert_eq!(Request::try_from_slice(&longer), Some(request.clone()));
        for n in 0..8.min(data.len()) {
            assert_eq!(Request::try_from_slice(&data[..n]), None);
        }
    }
    assert_eq!(Request::try_from_slice(&[0u8; 8]), None);
    assert_eq!(Request::try_from_slice(&[146, 151, 213, 63, 121, 79, 9, 29, 1]), None);
    assert_eq!(
        Request::try_from_slice(&[146, 151, 213, 63, 121, 79, 9, 29, 1, 2]),
        Some(Request::ChangeThreshold { threshold: 0x0201 })
    );
}

#[test]
fn request_tags_are_the_hashes_of_the_request_names() {
    let named = [
        ("new_multisig", Request::NewMultisig { threshold: 0, members: vec![] }),
        ("new_transaction", Request::NewTransaction { instructions: vec![] }),
        ("approve", Request::Approve),
        ("unapprove", Request::Unapprove),
        ("execute", Request::Execute),
        ("change_threshold", Request::ChangeThreshold { threshold: 0 }),
        ("change_members", Request::ChangeMembers { members: vec![] }),
    ];
    for (name, request) in named {
        let hash = solana_program::hash::hash(format!("global:{}", name).as_bytes()).to_bytes();
        assert_eq!(request.data().unwrap()[..8], hash[..8]);
    }
}

#[test]
fn the_requests_of_a_member_are_read_by_the_program() {
    let base = parse_key(50);
    let wallet = find_multisig_wallet_address(&base).unwrap();
    let member = MultisigMember::new(
        parse_key(2),
        wallet,
        MultisigWallet { base, ..parse_wallet() },
    );
    let operations = vec![parse_operation(2)];
    assert_eq!(
        Request::try_from_slice(&member.new_transaction_ix(&operations).unwrap().data),
        Some(Request::NewTransaction { instructions: operations })
    );
    assert_eq!(
        Request::try_from_slice(&member.approve_ix(parse_key(9)).data),
        Some(Request::Approve)
    );
    assert_eq!(
        Request::try_from_slice(&member.unapprove_ix(parse_key(9)).data),
        Some(Request::Unapprove)
    );
    assert_eq!(
        Request::try_from_slice(&member.execute_ix(parse_key(9), &parse_transaction()).data),
        Some(Request::Execute)
    );
    assert_eq!(
        Request::try_from_slice(&member.change_threshold_ix(3).data),
        Some(Request::ChangeThreshold { threshold: 3 })
    );
    assert_eq!(
        Request::try_from_slice(&member.change_members_ix(&vec![parse_key(8)]).unwrap().data),
        Some(Request::ChangeMembers { members: vec![parse_key(8)] })
    );
}
