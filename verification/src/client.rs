//! The client's side: the requests of a member, built as instructions for the host.
//!
//! An instruction names this program, lists the accounts of the request in the order in
//! which the program expects them, and carries the request's tag followed by its arguments
//! in their persisted form.
use vstd::prelude::*;
use crate::layout::all_encodable;
use crate::layout::instructions_encodable;
use crate::layout::put_instructions;
use crate::layout::put_len;
use crate::layout::put_pubkeys;
use crate::layout::put_u16;
use crate::pda::derive_transaction;
use crate::pda::id;
use crate::pda::spec_id;
use crate::pda::transaction_key;
use crate::pubkey::Pubkey;
use crate::request::approve_tag_bytes;
use crate::request::change_members_tag_bytes;
use crate::request::change_threshold_tag_bytes;
use crate::request::execute_tag_bytes;
use crate::request::new_multisig_tag_bytes;
use crate::request::new_transaction_tag_bytes;
use crate::request::unapprove_tag_bytes;
use crate::request::RequestView;
use crate::state::instruction_views;
use crate::state::AccountMeta;
use crate::state::Instruction;
use crate::state::InstructionView;
use crate::state::MultisigTransaction;
use crate::state::MultisigWallet;

verus! {

/// The identity of the host's system program, which creates accounts: thirty-two zero bytes.
pub open spec fn spec_system_program_id() -> Pubkey {
    Pubkey {
        bytes: [
            0u8, 0u8, 0u8, 0u8, 0u8, 0u8, 0u8, 0u8, 0u8, 0u8, 0u8, 0u8, 0u8, 0u8, 0u8, 0u8, 0u8,
            0u8, 0u8, 0u8, 0u8, 0u8, 0u8, 0u8, 0u8, 0u8, 0u8, 0u8, 0u8, 0u8, 0u8, 0u8,
        ],
    }
}

/// The identity of the host's system program.
pub fn system_program_id() -> (r: Pubkey)
    ensures
        r == spec_system_program_id(),
{
    let r = Pubkey { bytes: [0u8; 32] };
    assert(r.bytes =~= spec_system_program_id().bytes);
    r
}

/// The identity of the memo program, `MemoSq4gqABAXKb96qnH8TysNcWxMyWCqXgDLGmfcHr`.
pub open spec fn spec_memo_program_id() -> Pubkey {
    Pubkey {
        bytes: [
            5u8, 74u8, 83u8, 90u8, 153u8, 41u8, 33u8, 6u8, 77u8, 36u8, 232u8, 113u8, 96u8, 218u8,
            56u8, 124u8, 124u8, 53u8, 181u8, 221u8, 188u8, 146u8, 187u8, 129u8, 228u8, 31u8, 168u8,
            64u8, 65u8, 5u8, 68u8, 141u8,
        ],
    }
}

/// The operation that has the memo program record `memo`, signed by `signers`.
pub open spec fn memo_instruction(memo: Seq<u8>, signers: Seq<Pubkey>) -> InstructionView {
    InstructionView {
        program_id: spec_memo_program_id(),
        keys: signers.map_values(|signer: Pubkey| readonly(signer, true)),
        data: memo,
    }
}

/// Calls `spl_memo::build_memo`. Trusted: the operation names the memo program, lists each
/// signer as a read-only account that has to sign, in the order given, and carries the memo
/// unchanged.
#[verifier::external_body]
fn build_memo(memo: &Vec<u8>, signer_pubkeys: &Vec<Pubkey>) -> (r: Instruction)
    ensures
        r@ == memo_instruction(memo@, signer_pubkeys@),
{
    let signers: Vec<solana_program::pubkey::Pubkey> = signer_pubkeys.iter().map(
        |p| solana_program::pubkey::Pubkey::new_from_array(p.bytes),
    ).collect();
    let refs: Vec<&solana_program::pubkey::Pubkey> = signers.iter().collect();
    let ix = spl_memo::build_memo(memo, &refs);
    let keys = ix.accounts.iter().map(
        |a| AccountMeta {
            pubkey: Pubkey { bytes: a.pubkey.to_bytes() },
            is_signer: a.is_signer,
            is_writable: a.is_writable,
        },
    ).collect();
    Instruction { program_id: Pubkey { bytes: ix.program_id.to_bytes() }, keys, data: ix.data }
}

/// The operation that has the memo program record `memo` in the name of the wallet.
pub fn memo_ix(multisig_wallet: &Pubkey, memo: &Vec<u8>) -> (r: Instruction)
    ensures
        r@ == memo_instruction(memo@, seq![*multisig_wallet]),
{
    let mut signers: Vec<Pubkey> = Vec::new();
    signers.push(*multisig_wallet);
    assert(signers@ =~= seq![*multisig_wallet]);
    build_memo(memo, &signers)
}

/// A writable account.
pub open spec fn writable(pubkey: Pubkey, is_signer: bool) -> AccountMeta {
    AccountMeta { pubkey, is_signer, is_writable: true }
}

/// A read-only account.
pub open spec fn readonly(pubkey: Pubkey, is_signer: bool) -> AccountMeta {
    AccountMeta { pubkey, is_signer, is_writable: false }
}

/// The accounts of a request to create a wallet.
pub open spec fn new_multisig_accounts(base: Pubkey, payer: Pubkey, multisig_wallet: Pubkey) -> Seq<
    AccountMeta,
> {
    seq![
        readonly(base, true),
        writable(payer, true),
        writable(multisig_wallet, false),
        readonly(spec_system_program_id(), false),
    ]
}

/// The accounts of a request to propose a transaction.
pub open spec fn new_transaction_accounts(
    proposer: Pubkey,
    multisig_wallet: Pubkey,
    transaction: Pubkey,
) -> Seq<AccountMeta> {
    seq![
        writable(proposer, true),
        writable(multisig_wallet, false),
        writable(transaction, false),
        readonly(spec_system_program_id(), false),
    ]
}

/// The accounts of a request to approve, to retract an approval or to execute.
pub open spec fn approval_accounts(member: Pubkey, multisig_wallet: Pubkey, transaction: Pubkey) -> Seq<
    AccountMeta,
> {
    seq![writable(member, true), writable(multisig_wallet, false), writable(transaction, false)]
}

/// The accounts of a request to change a wallet: the wallet, which has to sign.
pub open spec fn administration_accounts(multisig_wallet: Pubkey) -> Seq<AccountMeta> {
    seq![writable(multisig_wallet, true)]
}

/// The account references of a list that do not name the wallet, in order.
pub open spec fn foreign_keys(keys: Seq<AccountMeta>, multisig_wallet: Pubkey) -> Seq<AccountMeta>
    decreases keys.len(),
{
    if keys.len() == 0 {
        Seq::empty()
    } else {
        foreign_keys(keys.drop_last(), multisig_wallet) + if keys.last().pubkey
            != multisig_wallet {
            seq![keys.last()]
        } else {
            Seq::<AccountMeta>::empty()
        }
    }
}

/// The accounts that the host has to resolve for the operations of a proposal: for each
/// operation in order, its accounts but for the wallet, then its program.
pub open spec fn remaining_accounts(instructions: Seq<InstructionView>, multisig_wallet: Pubkey) -> Seq<
    AccountMeta,
>
    decreases instructions.len(),
{
    if instructions.len() == 0 {
        Seq::empty()
    } else {
        remaining_accounts(instructions.drop_last(), multisig_wallet) + foreign_keys(
            instructions.last().keys,
            multisig_wallet,
        ) + seq![readonly(instructions.last().program_id, false)]
    }
}

/// The accounts of a request to execute a proposal: those of the request itself, those of
/// the proposal's operations, and last the wallet, read-only and without its signature,
/// which only the program can give.
pub open spec fn execute_accounts(
    member: Pubkey,
    multisig_wallet: Pubkey,
    transaction: Pubkey,
    instructions: Seq<InstructionView>,
) -> Seq<AccountMeta> {
    approval_accounts(member, multisig_wallet, transaction) + remaining_accounts(
        instructions,
        multisig_wallet,
    ) + seq![readonly(multisig_wallet, false)]
}

/// The instruction that carries `request` to this program with the accounts `keys`.
pub open spec fn request(keys: Seq<AccountMeta>, request: RequestView) -> InstructionView {
    InstructionView { program_id: spec_id(), keys, data: request.to_bytes() }
}

/// The accounts of a request to approve, to retract an approval or to execute.
fn approval_metas(member: &Pubkey, multisig_wallet: &Pubkey, transaction: &Pubkey) -> (r: Vec<
    AccountMeta,
>)
    ensures
        r@ == approval_accounts(*member, *multisig_wallet, *transaction),
{
    let mut keys: Vec<AccountMeta> = Vec::new();
    keys.push(AccountMeta::new(*member, true));
    keys.push(AccountMeta::new(*multisig_wallet, false));
    keys.push(AccountMeta::new(*transaction, false));
    assert(keys@ =~= approval_accounts(*member, *multisig_wallet, *transaction));
    keys
}

/// Appends the account references of `keys` that do not name the wallet.
fn push_foreign_keys(out: &mut Vec<AccountMeta>, keys: &Vec<AccountMeta>, multisig_wallet: &Pubkey)
    ensures
        final(out)@ == old(out)@ + foreign_keys(keys@, *multisig_wallet),
{
    let mut i: usize = 0;
    assert(out@ =~= old(out)@ + foreign_keys(keys@.subrange(0, 0), *multisig_wallet));
    while i < keys.len()
        invariant
            i <= keys.len(),
            out@ == old(out)@ + foreign_keys(keys@.subrange(0, i as int), *multisig_wallet),
        decreases keys.len() - i,
    {
        let key = keys[i];
        if key.pubkey != *multisig_wallet {
            out.push(key);
        }
        proof {
            let next = keys@.subrange(0, i + 1);
            assert(next.drop_last() =~= keys@.subrange(0, i as int));
            assert(out@ =~= old(out)@ + foreign_keys(next, *multisig_wallet));
        }
        i += 1;
    }
    assert(keys@.subrange(0, i as int) =~= keys@);
}

/// Appends the accounts that the host has to resolve for the operations of a proposal.
fn push_remaining_accounts(
    out: &mut Vec<AccountMeta>,
    instructions: &Vec<Instruction>,
    multisig_wallet: &Pubkey,
)
    ensures
        final(out)@ == old(out)@ + remaining_accounts(
            instruction_views(instructions@),
            *multisig_wallet,
        ),
{
    let ghost views = instruction_views(instructions@);
    let mut i: usize = 0;
    assert(out@ =~= old(out)@ + remaining_accounts(views.subrange(0, 0), *multisig_wallet));
    while i < instructions.len()
        invariant
            i <= instructions.len(),
            views == instruction_views(instructions@),
            out@ == old(out)@ + remaining_accounts(views.subrange(0, i as int), *multisig_wallet),
        decreases instructions.len() - i,
    {
        push_foreign_keys(out, &instructions[i].keys, multisig_wallet);
        out.push(AccountMeta::new_readonly(instructions[i].program_id, false));
        proof {
            let next = views.subrange(0, i + 1);
            assert(next.drop_last() =~= views.subrange(0, i as int));
            assert(next.last() == instructions@[i as int]@);
            assert(out@ =~= old(out)@ + remaining_accounts(next, *multisig_wallet));
        }
        i += 1;
    }
    assert(views.subrange(0, i as int) =~= views);
}

/// The request to create a wallet with this threshold and these members, from the entropy
/// seed `base`, at the address `multisig_wallet`, paid for by `payer`. `None` where there
/// are more members than can be counted.
pub fn new_multisig_ix(
    threshold: u16,
    members: &Vec<Pubkey>,
    payer: &Pubkey,
    base: &Pubkey,
    multisig_wallet: &Pubkey,
) -> (r: Option<Instruction>)
    ensures
        match r {
            Some(ix) => members@.len() <= u32::MAX && ix@ == request(
                new_multisig_accounts(*base, *payer, *multisig_wallet),
                RequestView::NewMultisig { threshold, members: members@ },
            ),
            None => members@.len() > u32::MAX,
        },
{
    if members.len() > u32::MAX as usize {
        return None;
    }
    let mut data = new_multisig_tag_bytes();
    put_u16(&mut data, threshold);
    put_len(&mut data, members.len());
    put_pubkeys(&mut data, members);
    assert(data@ =~= (RequestView::NewMultisig { threshold, members: members@ }).to_bytes());
    let mut keys: Vec<AccountMeta> = Vec::new();
    keys.push(AccountMeta::new_readonly(*base, true));
    keys.push(AccountMeta::new(*payer, true));
    keys.push(AccountMeta::new(*multisig_wallet, false));
    keys.push(AccountMeta::new_readonly(system_program_id(), false));
    assert(keys@ =~= new_multisig_accounts(*base, *payer, *multisig_wallet));
    Some(Instruction { program_id: id(), keys, data })
}

/// A member's standing with a wallet: who the member is, where the wallet lives, and what
/// the wallet held when it was last read.
#[derive(Clone, Debug, PartialEq)]
pub struct MultisigMember {
    /// The member that signs the requests.
    pub member: Pubkey,
    /// The wallet's address.
    pub multisig_address: Pubkey,
    /// The wallet as it was last read.
    pub multisig_data: MultisigWallet,
}

impl MultisigMember {
    /// A member's standing with the wallet at `multisig_address`, which holds
    /// `multisig_data`.
    pub fn new(member: Pubkey, multisig_address: Pubkey, multisig_data: MultisigWallet) -> (r:
        MultisigMember)
        ensures
            r.member == member,
            r.multisig_address == multisig_address,
            r.multisig_data == multisig_data,
    {
        MultisigMember { member, multisig_address, multisig_data }
    }

    /// Takes note of the wallet as it was read again, mostly in case its proposal counter
    /// has moved.
    pub fn refresh_wallet(&mut self, multisig_data: MultisigWallet)
        ensures
            final(self).member == old(self).member,
            final(self).multisig_address == old(self).multisig_address,
            final(self).multisig_data == multisig_data,
    {
        self.multisig_data = multisig_data;
    }

    /// The address of the next proposal made to this wallet, which changes with every
    /// proposal, as the wallet's counter does.
    pub fn next_transaction_pubkey(&self) -> (r: Option<Pubkey>)
        ensures
            r == transaction_key(self.multisig_address, self.multisig_data.tx_nonce),
    {
        match derive_transaction(&self.multisig_address, self.multisig_data.tx_nonce) {
            Some((address, _)) => Some(address),
            None => None,
        }
    }

    /// The request to propose these operations. `None` where the next proposal has no
    /// address or a list is too long to be counted.
    pub fn new_transaction_ix(&self, instructions: &Vec<Instruction>) -> (r: Option<Instruction>)
        ensures
            match r {
                Some(ix) => {
                    &&& transaction_key(self.multisig_address, self.multisig_data.tx_nonce)
                        matches Some(transaction)
                    &&& instructions@.len() <= u32::MAX
                    &&& instructions_encodable(instruction_views(instructions@))
                    &&& ix@ == request(
                        new_transaction_accounts(self.member, self.multisig_address, transaction),
                        RequestView::NewTransaction {
                            instructions: instruction_views(instructions@),
                        },
                    )
                },
                None => {
                    ||| transaction_key(self.multisig_address, self.multisig_data.tx_nonce)
                        is None
                    ||| instructions@.len() > u32::MAX
                    ||| !instructions_encodable(instruction_views(instructions@))
                },
            },
    {
        if instructions.len() > u32::MAX as usize || !all_encodable(instructions) {
            return None;
        }
        let transaction = match self.next_transaction_pubkey() {
            Some(address) => address,
            None => {
                return None;
            },
        };
        let mut data = new_transaction_tag_bytes();
        put_len(&mut data, instructions.len());
        put_instructions(&mut data, instructions);
        assert(data@ =~= (RequestView::NewTransaction {
            instructions: instruction_views(instructions@),
        }).to_bytes());
        let mut keys: Vec<AccountMeta> = Vec::new();
        keys.push(AccountMeta::new(self.member, true));
        keys.push(AccountMeta::new(self.multisig_address, false));
        keys.push(AccountMeta::new(transaction, false));
        keys.push(AccountMeta::new_readonly(system_program_id(), false));
        assert(keys@ =~= new_transaction_accounts(self.member, self.multisig_address, transaction));
        Some(Instruction { program_id: id(), keys, data })
    }

    /// The request to approve the proposal at `transaction`.
    pub fn approve_ix(&self, transaction: Pubkey) -> (r: Instruction)
        ensures
            r@ == request(
                approval_accounts(self.member, self.multisig_address, transaction),
                RequestView::Approve,
            ),
    {
        let data = approve_tag_bytes();
        assert(data@ =~= RequestView::Approve.to_bytes());
        let keys = approval_metas(&self.member, &self.multisig_address, &transaction);
        Instruction { program_id: id(), keys, data }
    }

    /// The request to retract the approval of the proposal at `transaction`.
    pub fn unapprove_ix(&self, transaction: Pubkey) -> (r: Instruction)
        ensures
            r@ == request(
                approval_accounts(self.member, self.multisig_address, transaction),
                RequestView::Unapprove,
            ),
    {
        let data = unapprove_tag_bytes();
        assert(data@ =~= RequestView::Unapprove.to_bytes());
        let keys = approval_metas(&self.member, &self.multisig_address, &transaction);
        Instruction { program_id: id(), keys, data }
    }

    /// The request to execute the proposal at `transaction`, which holds `data`.
    pub fn execute_ix(&self, transaction: Pubkey, data: &MultisigTransaction) -> (r: Instruction)
        ensures
            r@ == request(
                execute_accounts(
                    self.member,
                    self.multisig_address,
                    transaction,
                    data@.instructions,
                ),
                RequestView::Execute,
            ),
    {
        let tag = execute_tag_bytes();
        assert(tag@ =~= RequestView::Execute.to_bytes());
        let mut keys = approval_metas(&self.member, &self.multisig_address, &transaction);
        push_remaining_accounts(&mut keys, &data.instructions, &self.multisig_address);
        keys.push(AccountMeta::new_readonly(self.multisig_address, false));
        assert(keys@ =~= execute_accounts(
            self.member,
            self.multisig_address,
            transaction,
            data@.instructions,
        ));
        Instruction { program_id: id(), keys, data: tag }
    }

    /// The requests to propose these operations and to approve the proposal at once. `None`
    /// where [`MultisigMember::new_transaction_ix`] gives none.
    pub fn create_and_approve_ixs(&self, instructions: &Vec<Instruction>) -> (r: Option<
        (Instruction, Instruction),
    >)
        ensures
            match r {
                Some((propose, approve)) => {
                    &&& transaction_key(self.multisig_address, self.multisig_data.tx_nonce)
                        matches Some(transaction)
                    &&& instructions@.len() <= u32::MAX
                    &&& instructions_encodable(instruction_views(instructions@))
                    &&& propose@ == request(
                        new_transaction_accounts(self.member, self.multisig_address, transaction),
                        RequestView::NewTransaction {
                            instructions: instruction_views(instructions@),
                        },
                    )
                    &&& approve@ == request(
                        approval_accounts(self.member, self.multisig_address, transaction),
                        RequestView::Approve,
                    )
                },
                None => {
                    ||| transaction_key(self.multisig_address, self.multisig_data.tx_nonce)
                        is None
                    ||| instructions@.len() > u32::MAX
                    ||| !instructions_encodable(instruction_views(instructions@))
                },
            },
    {
        let propose = match self.new_transaction_ix(instructions) {
            Some(ix) => ix,
            None => {
                return None;
            },
        };
        let transaction = match self.next_transaction_pubkey() {
            Some(address) => address,
            None => {
                return None;
            },
        };
        let approve = self.approve_ix(transaction);
        Some((propose, approve))
    }

    /// The requests to approve the proposal at `transaction`, which holds `data`, and to
    /// execute it at once.
    pub fn approve_and_execute_ixs(&self, transaction: Pubkey, data: &MultisigTransaction) -> (r: (
        Instruction,
        Instruction,
    ))
        ensures
            r.0@ == request(
                approval_accounts(self.member, self.multisig_address, transaction),
                RequestView::Approve,
            ),
            r.1@ == request(
                execute_accounts(
                    self.member,
                    self.multisig_address,
                    transaction,
                    data@.instructions,
                ),
                RequestView::Execute,
            ),
    {
        (self.approve_ix(transaction), self.execute_ix(transaction, data))
    }

    /// The operation that sets the wallet's threshold. It takes effect only as an operation
    /// of a proposal that the wallet executes.
    pub fn change_threshold_ix(&self, threshold: u16) -> (r: Instruction)
        ensures
            r@ == request(
                administration_accounts(self.multisig_address),
                RequestView::ChangeThreshold { threshold },
            ),
    {
        let mut data = change_threshold_tag_bytes();
        put_u16(&mut data, threshold);
        let mut keys: Vec<AccountMeta> = Vec::new();
        keys.push(AccountMeta::new(self.multisig_address, true));
        assert(keys@ =~= administration_accounts(self.multisig_address));
        Instruction { program_id: id(), keys, data }
    }

    /// The operation that replaces the wallet's members. It takes effect only as an
    /// operation of a proposal that the wallet executes. `None` where there are more members
    /// than can be counted.
    pub fn change_members_ix(&self, members: &Vec<Pubkey>) -> (r: Option<Instruction>)
        ensures
            match r {
                Some(ix) => members@.len() <= u32::MAX && ix@ == request(
                    administration_accounts(self.multisig_address),
                    RequestView::ChangeMembers { members: members@ },
                ),
                None => members@.len() > u32::MAX,
            },
    {
        if members.len() > u32::MAX as usize {
            return None;
        }
        let mut data = change_members_tag_bytes();
        put_len(&mut data, members.len());
        put_pubkeys(&mut data, members);
        assert(data@ =~= (RequestView::ChangeMembers { members: members@ }).to_bytes());
        let mut keys: Vec<AccountMeta> = Vec::new();
        keys.push(AccountMeta::new(self.multisig_address, true));
        assert(keys@ =~= administration_accounts(self.multisig_address));
        Some(Instruction { program_id: id(), keys, data })
    }
}

} // verus!
