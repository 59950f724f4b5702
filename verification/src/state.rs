//! The two persisted entities, the sub-operation descriptor they carry, and the number of
//! bytes that has to be reserved for each before it is written.
use vstd::prelude::*;
use crate::pubkey::Pubkey;

verus! {

/// An entity together with the address it is stored at.
#[derive(Clone, Debug, Default, PartialEq)]
pub struct Account<T> {
    /// Where the entity lives.
    pub key: Pubkey,
    /// The entity itself.
    pub data: T,
}

/// What an [`Account`] holds.
#[verifier::ext_equal]
pub struct AccountView<V> {
    pub key: Pubkey,
    pub data: V,
}

impl<T: View> View for Account<T> {
    type V = AccountView<T::V>;

    open spec fn view(&self) -> AccountView<T::V> {
        AccountView { key: self.key, data: self.data@ }
    }
}

/// One account that a sub-operation reads or writes.
#[derive(Clone, Copy, Debug, PartialEq)]
pub struct AccountMeta {
    /// An account that will be read or written to during execution.
    pub pubkey: Pubkey,
    /// True if the sub-operation requires a signature matching `pubkey`.
    pub is_signer: bool,
    /// True if the account may be written to.
    pub is_writable: bool,
}

impl AccountMeta {
    /// Bytes of one serialized account reference: the identity and two flags.
    pub const LEN: usize = 34;

    /// A writable account.
    pub fn new(pubkey: Pubkey, is_signer: bool) -> (r: AccountMeta)
        ensures
            r == (AccountMeta { pubkey, is_signer, is_writable: true }),
    {
        AccountMeta { pubkey, is_signer, is_writable: true }
    }

    /// A read-only account.
    pub fn new_readonly(pubkey: Pubkey, is_signer: bool) -> (r: AccountMeta)
        ensures
            r == (AccountMeta { pubkey, is_signer, is_writable: false }),
    {
        AccountMeta { pubkey, is_signer, is_writable: false }
    }
}

/// A sub-operation descriptor: an opaque instruction that the wallet stores and re-issues.
#[derive(Clone, Debug, Default, PartialEq)]
pub struct Instruction {
    /// The program that this instruction invokes.
    pub program_id: Pubkey,
    /// Which accounts are read or written during execution.
    pub keys: Vec<AccountMeta>,
    /// Serialized instruction data.
    pub data: Vec<u8>,
}

/// What an [`Instruction`] holds.
#[verifier::ext_equal]
pub struct InstructionView {
    pub program_id: Pubkey,
    pub keys: Seq<AccountMeta>,
    pub data: Seq<u8>,
}

impl View for Instruction {
    type V = InstructionView;

    open spec fn view(&self) -> InstructionView {
        InstructionView { program_id: self.program_id, keys: self.keys@, data: self.data@ }
    }
}

impl InstructionView {
    /// Bytes of the serialized descriptor: target, counted account list, counted payload.
    pub open spec fn space(self) -> nat {
        32 + 4 + 34 * self.keys.len() + 4 + self.data.len()
    }
}

/// The views of a list of descriptors, in order.
pub open spec fn instruction_views(ixs: Seq<Instruction>) -> Seq<InstructionView> {
    ixs.map_values(|ix: Instruction| ix@)
}

/// Bytes taken by the descriptors of a list, one after the other.
pub open spec fn instructions_space(ixs: Seq<InstructionView>) -> nat
    decreases ixs.len(),
{
    if ixs.len() == 0 {
        0
    } else {
        instructions_space(ixs.drop_last()) + ixs.last().space()
    }
}

/// A prefix of a list of descriptors takes no more bytes than the list.
pub proof fn lemma_instructions_space_prefix(ixs: Seq<InstructionView>, n: int)
    requires
        0 <= n <= ixs.len(),
    ensures
        instructions_space(ixs.subrange(0, n)) <= instructions_space(ixs),
    decreases ixs.len(),
{
    if n == ixs.len() {
        assert(ixs.subrange(0, n) =~= ixs);
    } else {
        lemma_instructions_space_prefix(ixs.drop_last(), n);
        assert(ixs.drop_last().subrange(0, n) =~= ixs.subrange(0, n));
    }
}

impl Instruction {
    /// Bytes of the serialized descriptor.
    pub fn space(&self) -> (r: usize)
        requires
            self@.space() <= usize::MAX,
        ensures
            r == self@.space(),
    {
        32 + 4 + AccountMeta::LEN * self.keys.len() + 4 + self.data.len()
    }

    /// Bytes of the serialized descriptor, or `None` where they are more than the machine
    /// can count.
    pub fn checked_space(&self) -> (r: Option<usize>)
        ensures
            match r {
                Some(n) => n == self@.space(),
                None => self@.space() > usize::MAX,
            },
    {
        let keys = AccountMeta::LEN.checked_mul(self.keys.len())?;
        let fixed = keys.checked_add(40)?;
        fixed.checked_add(self.data.len())
    }
}

/// The authorization policy of a group of members, and the identity under which the
/// operations they agree on are issued.
#[derive(Clone, Debug, Default, PartialEq)]
pub struct MultisigWallet {
    /// Base used to derive the wallet's address.
    pub base: Pubkey,
    /// Members able to create and approve a [`MultisigTransaction`] owned by this wallet.
    pub members: Vec<Pubkey>,
    /// At least this many members have to approve a [`MultisigTransaction`] before it can
    /// be executed.
    pub threshold: u16,
    /// Count of the proposals made so far; the next proposal's address is derived from it.
    pub tx_nonce: u64,
    /// Count of the changes made to `members`, so that approvals given under one member set
    /// are not carried over to another.
    pub member_set_seqno: u32,
    /// The byte that completes the derivation of the wallet's address.
    pub bump: u8,
}

/// What a [`MultisigWallet`] holds.
#[verifier::ext_equal]
pub struct MultisigWalletView {
    pub base: Pubkey,
    pub members: Seq<Pubkey>,
    pub threshold: u16,
    pub tx_nonce: u64,
    pub member_set_seqno: u32,
    pub bump: u8,
}

impl View for MultisigWallet {
    type V = MultisigWalletView;

    open spec fn view(&self) -> MultisigWalletView {
        MultisigWalletView {
            base: self.base,
            members: self.members@,
            threshold: self.threshold,
            tx_nonce: self.tx_nonce,
            member_set_seqno: self.member_set_seqno,
            bump: self.bump,
        }
    }
}

impl MultisigWalletView {
    /// What every wallet keeps: at least one approval is asked for, and no more than there
    /// are members to give them.
    pub open spec fn well_formed(self) -> bool {
        1 <= self.threshold <= self.members.len()
    }

    /// The policy of a wallet as it is created: well formed, and no member is listed twice.
    pub open spec fn valid_policy(self) -> bool {
        &&& self.well_formed()
        &&& self.members.no_duplicates()
    }
}

/// The first position of an identity in a list is the one before which it does not occur.
pub proof fn lemma_first_index(members: Seq<Pubkey>, who: Pubkey, i: int)
    requires
        0 <= i < members.len(),
        members[i] == who,
        forall|j: int| 0 <= j < i ==> members[j] != who,
    ensures
        members.index_of_first(who) == Some(i),
{
    members.index_of_first_ensures(who);
    assert(members.contains(who));
}

impl MultisigWallet {
    /// Bytes that a wallet of `num_members` members takes when persisted, tag included.
    pub open spec fn spec_space(num_members: nat) -> nat {
        8 + 32 + 4 + 32 * num_members + 2 + 8 + 4 + 1
    }

    /// The first position at which `who` stands in the member list: the position of the
    /// member's approval slot. Found by comparing identities, whatever the order of the list.
    pub fn member_index(&self, who: &Pubkey) -> (r: Option<usize>)
        ensures
            match r {
                Some(i) => self@.members.index_of_first(*who) == Some(i as int),
                None => self@.members.index_of_first(*who) is None,
            },
    {
        let mut i: usize = 0;
        while i < self.members.len()
            invariant
                i <= self.members.len(),
                forall|j: int| 0 <= j < i ==> self.members@[j] != *who,
            decreases self.members.len() - i,
        {
            if self.members[i] == *who {
                proof {
                    lemma_first_index(self.members@, *who, i as int);
                }
                return Some(i);
            }
            i += 1;
        }
        proof {
            self.members@.index_of_first_ensures(*who);
        }
        None
    }

    /// Whether `who` is a member.
    pub fn is_member(&self, who: &Pubkey) -> (r: bool)
        ensures
            r == self@.members.contains(*who),
    {
        proof {
            self@.members.index_of_first_ensures(*who);
        }
        self.member_index(who).is_some()
    }

    /// Bytes to reserve for a wallet of `num_members` members.
    pub fn space(num_members: usize) -> (r: usize)
        requires
            Self::spec_space(num_members as nat) <= usize::MAX,
        ensures
            r == Self::spec_space(num_members as nat),
    {
        8 + 32 + 4 + 32 * num_members + 2 + 8 + 4 + 1
    }

    /// Bytes to reserve for a wallet of `num_members` members, or `None` where they are
    /// more than the machine can count.
    pub fn checked_space(num_members: usize) -> (r: Option<usize>)
        ensures
            match r {
                Some(n) => n == Self::spec_space(num_members as nat),
                None => Self::spec_space(num_members as nat) > usize::MAX,
            },
    {
        let members = num_members.checked_mul(32)?;
        members.checked_add(59)
    }
}

/// A proposed transaction: operations that the wallet will issue once enough of its
/// members have approved them.
#[derive(Clone, Debug, Default, PartialEq)]
pub struct MultisigTransaction {
    /// The instruction set of the transaction to be executed.
    pub instructions: Vec<Instruction>,
    /// The [`MultisigWallet`] account this transaction belongs to.
    pub multisig_wallet: Pubkey,
    /// Which members approved the transaction, and when their last approval occurred:
    /// `approved[i]` is `Some` iff the wallet's `members[i]` has approved.
    pub approved: Vec<Option<i64>>,
    /// The wallet's `member_set_seqno` when the proposal was made.
    pub member_set_seqno: u32,
    /// Unix timestamp of the proposal's creation.
    pub created_at: i64,
    /// The member that proposed the transaction.
    pub proposer: Pubkey,
    /// The member that executed the transaction.
    pub executor: Option<Pubkey>,
    /// If and when the transaction was executed.
    pub executed_at: Option<i64>,
}

/// What a [`MultisigTransaction`] holds.
#[verifier::ext_equal]
pub struct MultisigTransactionView {
    pub instructions: Seq<InstructionView>,
    pub multisig_wallet: Pubkey,
    pub approved: Seq<Option<i64>>,
    pub member_set_seqno: u32,
    pub created_at: i64,
    pub proposer: Pubkey,
    pub executor: Option<Pubkey>,
    pub executed_at: Option<i64>,
}

impl View for MultisigTransaction {
    type V = MultisigTransactionView;

    open spec fn view(&self) -> MultisigTransactionView {
        MultisigTransactionView {
            instructions: instruction_views(self.instructions@),
            multisig_wallet: self.multisig_wallet,
            approved: self.approved@,
            member_set_seqno: self.member_set_seqno,
            created_at: self.created_at,
            proposer: self.proposer,
            executor: self.executor,
            executed_at: self.executed_at,
        }
    }
}

/// How many slots of an approval list hold an approval.
pub open spec fn approval_count(approved: Seq<Option<i64>>) -> nat
    decreases approved.len(),
{
    if approved.len() == 0 {
        0
    } else {
        approval_count(approved.drop_last()) + if approved.last() is Some {
            1nat
        } else {
            0nat
        }
    }
}

impl MultisigTransactionView {
    /// The proposal has been executed: its terminal state.
    pub open spec fn executed(self) -> bool {
        self.executor is Some || self.executed_at is Some
    }

    /// How many members currently approve.
    pub open spec fn num_approvals(self) -> nat {
        approval_count(self.approved)
    }
}

impl MultisigTransaction {
    /// Whether the proposal has been executed.
    pub fn is_executed(&self) -> (r: bool)
        ensures
            r == self@.executed(),
    {
        self.executor.is_some() || self.executed_at.is_some()
    }

    /// How many members currently approve.
    pub fn num_approvals(&self) -> (r: usize)
        ensures
            r == self@.num_approvals(),
    {
        let mut count: usize = 0;
        let mut i: usize = 0;
        while i < self.approved.len()
            invariant
                i <= self.approved.len(),
                count <= i,
                count == approval_count(self.approved@.subrange(0, i as int)),
            decreases self.approved.len() - i,
        {
            assert(self.approved@.subrange(0, i + 1).drop_last() =~= self.approved@.subrange(
                0,
                i as int,
            ));
            if self.approved[i].is_some() {
                count += 1;
            }
            i += 1;
        }
        assert(self.approved@.subrange(0, i as int) =~= self.approved@);
        count
    }

    /// Bytes that a proposal takes when persisted with every optional field present:
    /// the most it can ever take, tag included.
    pub open spec fn spec_space(instructions: Seq<InstructionView>, num_members: nat) -> nat {
        8 + 4 + instructions_space(instructions) + 32 + 4 + (1 + 8) * num_members + 4 + 8 + 32
            + (1 + 32) + (1 + 8)
    }

    /// Bytes to reserve for a proposal that carries `instructions` in a wallet of
    /// `num_members` members.
    pub fn space(instructions: Vec<Instruction>, num_members: usize) -> (r: usize)
        requires
            Self::spec_space(instruction_views(instructions@), num_members as nat) <= usize::MAX,
        ensures
            r == Self::spec_space(instruction_views(instructions@), num_members as nat),
    {
        let ghost views = instruction_views(instructions@);
        let mut sum: usize = 0;
        let mut i: usize = 0;
        while i < instructions.len()
            invariant
                i <= instructions.len(),
                views == instruction_views(instructions@),
                sum == instructions_space(views.subrange(0, i as int)),
                instructions_space(views) <= usize::MAX,
            decreases instructions.len() - i,
        {
            proof {
                lemma_instructions_space_prefix(views, i + 1);
                assert(views.subrange(0, i + 1).drop_last() =~= views.subrange(0, i as int));
                assert(views.subrange(0, i + 1).last() == instructions@[i as int]@);
            }
            sum = sum + instructions[i].space();
            i += 1;
        }
        assert(views.subrange(0, i as int) =~= views);
        8 + 4 + sum + 32 + 4 + (1 + 8) * num_members + 4 + 8 + 32 + (1 + 32) + (1 + 8)
    }

    /// Bytes to reserve for a proposal that carries `instructions` in a wallet of
    /// `num_members` members, or `None` where they are more than the machine can count.
    pub fn checked_space(instructions: &Vec<Instruction>, num_members: usize) -> (r: Option<usize>)
        ensures
            match r {
                Some(n) => n == Self::spec_space(
                    instruction_views(instructions@),
                    num_members as nat,
                ),
                None => Self::spec_space(instruction_views(instructions@), num_members as nat)
                    > usize::MAX,
            },
    {
        let ghost views = instruction_views(instructions@);
        let mut sum: usize = 0;
        let mut i: usize = 0;
        while i < instructions.len()
            invariant
                i <= instructions.len(),
                views == instruction_views(instructions@),
                sum == instructions_space(views.subrange(0, i as int)),
            decreases instructions.len() - i,
        {
            proof {
                lemma_instructions_space_prefix(views, i + 1);
                assert(views.subrange(0, i + 1).drop_last() =~= views.subrange(0, i as int));
                assert(views.subrange(0, i + 1).last() == instructions@[i as int]@);
            }
            let one = instructions[i].checked_space()?;
            sum = sum.checked_add(one)?;
            i += 1;
        }
        assert(views.subrange(0, i as int) =~= views);
        assert(Self::spec_space(views, num_members as nat) == 134 + instructions_space(views) + 9
            * num_members);
        let slots = num_members.checked_mul(9)?;
        let fixed = sum.checked_add(134)?;
        fixed.checked_add(slots)
    }
}

} // verus!
