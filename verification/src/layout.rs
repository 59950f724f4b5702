//! The persisted form of the entities, byte for byte.
//!
//! A record is the entity's tag followed by its fields in the order of their declaration.
//! An integer is written least significant byte first, a flag as one byte, a list as the
//! count of its items in four bytes followed by the items, and an optional value as one
//! byte that says whether it is there, followed by the value where it is.
//!
//! The space reserved for a record is computed before the record exists. The theorems at
//! the end of this file say how that space relates to the bytes that are written.
use vstd::prelude::*;
use vstd::bytes::lemma_auto_spec_u16_to_from_le_bytes;
use vstd::bytes::lemma_auto_spec_u32_to_from_le_bytes;
use vstd::bytes::lemma_auto_spec_u64_to_from_le_bytes;
use vstd::bytes::spec_u16_to_le_bytes;
use vstd::bytes::spec_u32_to_le_bytes;
use vstd::bytes::spec_u64_to_le_bytes;
use vstd::bytes::u16_to_le_bytes;
use vstd::bytes::u32_to_le_bytes;
use vstd::bytes::u64_to_le_bytes;
use crate::pubkey::Pubkey;
use crate::state::approval_count;
use crate::state::instruction_views;
use crate::state::instructions_space;
use crate::state::AccountMeta;
use crate::state::Instruction;
use crate::state::InstructionView;
use crate::state::MultisigTransaction;
use crate::state::MultisigTransactionView;
use crate::state::MultisigWallet;
use crate::state::MultisigWalletView;

verus! {

/// The tag of a persisted wallet.
pub open spec fn wallet_discriminator() -> Seq<u8> {
    seq![32u8, 135u8, 234u8, 172u8, 132u8, 39u8, 242u8, 66u8]
}

/// The tag of a persisted proposal.
pub open spec fn transaction_discriminator() -> Seq<u8> {
    seq![37u8, 242u8, 192u8, 200u8, 155u8, 205u8, 171u8, 82u8]
}

/// The count in front of a list of `n` items.
pub open spec fn len_bytes(n: nat) -> Seq<u8> {
    spec_u32_to_le_bytes(n as u32)
}

/// A flag.
pub open spec fn bool_bytes(b: bool) -> Seq<u8> {
    seq![if b { 1u8 } else { 0u8 }]
}

/// A signed number of eight bytes, in two's complement.
pub open spec fn i64_bytes(x: i64) -> Seq<u8> {
    spec_u64_to_le_bytes(x as u64)
}

/// An optional time.
pub open spec fn option_i64_bytes(o: Option<i64>) -> Seq<u8> {
    match o {
        None => seq![0u8],
        Some(x) => seq![1u8] + i64_bytes(x),
    }
}

/// An optional identity.
pub open spec fn option_pubkey_bytes(o: Option<Pubkey>) -> Seq<u8> {
    match o {
        None => seq![0u8],
        Some(p) => seq![1u8] + p.seq(),
    }
}

/// One account reference.
pub open spec fn account_meta_bytes(m: AccountMeta) -> Seq<u8> {
    m.pubkey.seq() + bool_bytes(m.is_signer) + bool_bytes(m.is_writable)
}

/// The items of a list of account references, one after the other.
pub open spec fn account_metas_bytes(s: Seq<AccountMeta>) -> Seq<u8>
    decreases s.len(),
{
    if s.len() == 0 {
        Seq::empty()
    } else {
        account_metas_bytes(s.drop_last()) + account_meta_bytes(s.last())
    }
}

/// The items of a list of identities, one after the other.
pub open spec fn pubkeys_bytes(s: Seq<Pubkey>) -> Seq<u8>
    decreases s.len(),
{
    if s.len() == 0 {
        Seq::empty()
    } else {
        pubkeys_bytes(s.drop_last()) + s.last().seq()
    }
}

/// The items of an approval list, one after the other.
pub open spec fn approvals_bytes(s: Seq<Option<i64>>) -> Seq<u8>
    decreases s.len(),
{
    if s.len() == 0 {
        Seq::empty()
    } else {
        approvals_bytes(s.drop_last()) + option_i64_bytes(s.last())
    }
}

impl InstructionView {
    /// Whether the descriptor can be written: its lists can be counted in four bytes.
    pub open spec fn encodable(self) -> bool {
        self.keys.len() <= u32::MAX && self.data.len() <= u32::MAX
    }

    /// The descriptor as it is written.
    pub open spec fn to_bytes(self) -> Seq<u8> {
        self.program_id.seq() + len_bytes(self.keys.len()) + account_metas_bytes(self.keys)
            + len_bytes(self.data.len()) + self.data
    }
}

/// The items of a list of descriptors, one after the other.
pub open spec fn instructions_bytes(s: Seq<InstructionView>) -> Seq<u8>
    decreases s.len(),
{
    if s.len() == 0 {
        Seq::empty()
    } else {
        instructions_bytes(s.drop_last()) + s.last().to_bytes()
    }
}

/// Whether every descriptor of a list can be written.
pub open spec fn instructions_encodable(s: Seq<InstructionView>) -> bool {
    forall|i: int| 0 <= i < s.len() ==> (#[trigger] s[i]).encodable()
}

impl MultisigWalletView {
    /// Whether the wallet can be written: its members can be counted in four bytes.
    pub open spec fn encodable(self) -> bool {
        self.members.len() <= u32::MAX
    }

    /// The wallet's fields as they are written.
    pub open spec fn to_bytes(self) -> Seq<u8> {
        self.base.seq() + len_bytes(self.members.len()) + pubkeys_bytes(self.members)
            + spec_u16_to_le_bytes(self.threshold) + spec_u64_to_le_bytes(self.tx_nonce)
            + spec_u32_to_le_bytes(self.member_set_seqno) + seq![self.bump]
    }

    /// The wallet's record: its tag and its fields.
    pub open spec fn record(self) -> Seq<u8> {
        wallet_discriminator() + self.to_bytes()
    }
}

impl MultisigTransactionView {
    /// Whether the proposal can be written: each of its lists can be counted in four bytes.
    pub open spec fn encodable(self) -> bool {
        &&& self.instructions.len() <= u32::MAX
        &&& instructions_encodable(self.instructions)
        &&& self.approved.len() <= u32::MAX
    }

    /// The proposal's fields as they are written.
    pub open spec fn to_bytes(self) -> Seq<u8> {
        len_bytes(self.instructions.len()) + instructions_bytes(self.instructions)
            + self.multisig_wallet.seq() + len_bytes(self.approved.len()) + approvals_bytes(
            self.approved,
        ) + spec_u32_to_le_bytes(self.member_set_seqno) + i64_bytes(self.created_at)
            + self.proposer.seq() + option_pubkey_bytes(self.executor) + option_i64_bytes(
            self.executed_at,
        )
    }

    /// The proposal's record: its tag and its fields.
    pub open spec fn record(self) -> Seq<u8> {
        transaction_discriminator() + self.to_bytes()
    }

    /// Whether every optional field is there: every member approves and the proposal has
    /// been executed.
    pub open spec fn full(self) -> bool {
        &&& self.num_approvals() == self.approved.len()
        &&& self.executor is Some
        &&& self.executed_at is Some
    }

    /// The bytes that the absent optional fields would take if they were there.
    pub open spec fn slack(self) -> nat {
        (8 * (self.approved.len() - self.num_approvals()) + (if self.executor is None {
            32int
        } else {
            0int
        }) + (if self.executed_at is None {
            8int
        } else {
            0int
        })) as nat
    }
}

/// Appends the bytes of `bytes`.
pub(crate) fn put_bytes(out: &mut Vec<u8>, bytes: &Vec<u8>)
    ensures
        final(out)@ == old(out)@ + bytes@,
{
    let mut i: usize = 0;
    while i < bytes.len()
        invariant
            i <= bytes.len(),
            out@ == old(out)@ + bytes@.subrange(0, i as int),
        decreases bytes.len() - i,
    {
        out.push(bytes[i]);
        i += 1;
        assert(out@ =~= old(out)@ + bytes@.subrange(0, i as int));
    }
    assert(bytes@.subrange(0, i as int) =~= bytes@);
}

/// Appends an identity.
pub(crate) fn put_pubkey(out: &mut Vec<u8>, p: &Pubkey)
    ensures
        final(out)@ == old(out)@ + p.seq(),
{
    let mut bytes = p.to_vec();
    out.append(&mut bytes);
}

/// Appends a flag.
pub(crate) fn put_bool(out: &mut Vec<u8>, b: bool)
    ensures
        final(out)@ == old(out)@ + bool_bytes(b),
{
    out.push(if b { 1u8 } else { 0u8 });
    assert(out@ =~= old(out)@ + bool_bytes(b));
}

/// Appends a number of two bytes.
pub(crate) fn put_u16(out: &mut Vec<u8>, x: u16)
    ensures
        final(out)@ == old(out)@ + spec_u16_to_le_bytes(x),
{
    let mut bytes = u16_to_le_bytes(x);
    out.append(&mut bytes);
}

/// Appends a number of four bytes.
pub(crate) fn put_u32(out: &mut Vec<u8>, x: u32)
    ensures
        final(out)@ == old(out)@ + spec_u32_to_le_bytes(x),
{
    let mut bytes = u32_to_le_bytes(x);
    out.append(&mut bytes);
}

/// Appends a number of eight bytes.
pub(crate) fn put_u64(out: &mut Vec<u8>, x: u64)
    ensures
        final(out)@ == old(out)@ + spec_u64_to_le_bytes(x),
{
    let mut bytes = u64_to_le_bytes(x);
    out.append(&mut bytes);
}

/// Appends a signed number of eight bytes.
pub(crate) fn put_i64(out: &mut Vec<u8>, x: i64)
    ensures
        final(out)@ == old(out)@ + i64_bytes(x),
{
    put_u64(out, #[verifier::truncate] (x as u64));
}

/// Appends the count of a list.
pub(crate) fn put_len(out: &mut Vec<u8>, n: usize)
    requires
        n <= u32::MAX,
    ensures
        final(out)@ == old(out)@ + len_bytes(n as nat),
{
    put_u32(out, n as u32);
}

/// Appends an optional time.
fn put_option_i64(out: &mut Vec<u8>, o: &Option<i64>)
    ensures
        final(out)@ == old(out)@ + option_i64_bytes(*o),
{
    match o {
        None => {
            out.push(0u8);
            assert(out@ =~= old(out)@ + option_i64_bytes(*o));
        },
        Some(x) => {
            out.push(1u8);
            put_i64(out, *x);
            assert(out@ =~= old(out)@ + option_i64_bytes(*o));
        },
    }
}

/// Appends an optional identity.
fn put_option_pubkey(out: &mut Vec<u8>, o: &Option<Pubkey>)
    ensures
        final(out)@ == old(out)@ + option_pubkey_bytes(*o),
{
    match o {
        None => {
            out.push(0u8);
            assert(out@ =~= old(out)@ + option_pubkey_bytes(*o));
        },
        Some(p) => {
            out.push(1u8);
            put_pubkey(out, p);
            assert(out@ =~= old(out)@ + option_pubkey_bytes(*o));
        },
    }
}

/// Appends one account reference.
fn put_account_meta(out: &mut Vec<u8>, m: &AccountMeta)
    ensures
        final(out)@ == old(out)@ + account_meta_bytes(*m),
{
    put_pubkey(out, &m.pubkey);
    put_bool(out, m.is_signer);
    put_bool(out, m.is_writable);
    assert(out@ =~= old(out)@ + account_meta_bytes(*m));
}

/// Appends the items of a list of account references.
fn put_account_metas(out: &mut Vec<u8>, metas: &Vec<AccountMeta>)
    ensures
        final(out)@ == old(out)@ + account_metas_bytes(metas@),
{
    let mut i: usize = 0;
    assert(out@ =~= old(out)@ + account_metas_bytes(metas@.subrange(0, 0)));
    while i < metas.len()
        invariant
            i <= metas.len(),
            out@ == old(out)@ + account_metas_bytes(metas@.subrange(0, i as int)),
        decreases metas.len() - i,
    {
        put_account_meta(out, &metas[i]);
        proof {
            let next = metas@.subrange(0, i + 1);
            assert(next.drop_last() =~= metas@.subrange(0, i as int));
            assert(out@ =~= old(out)@ + account_metas_bytes(next));
        }
        i += 1;
    }
    assert(metas@.subrange(0, i as int) =~= metas@);
}

/// Appends the items of a list of identities.
pub(crate) fn put_pubkeys(out: &mut Vec<u8>, keys: &Vec<Pubkey>)
    ensures
        final(out)@ == old(out)@ + pubkeys_bytes(keys@),
{
    let mut i: usize = 0;
    assert(out@ =~= old(out)@ + pubkeys_bytes(keys@.subrange(0, 0)));
    while i < keys.len()
        invariant
            i <= keys.len(),
            out@ == old(out)@ + pubkeys_bytes(keys@.subrange(0, i as int)),
        decreases keys.len() - i,
    {
        put_pubkey(out, &keys[i]);
        proof {
            let next = keys@.subrange(0, i + 1);
            assert(next.drop_last() =~= keys@.subrange(0, i as int));
            assert(out@ =~= old(out)@ + pubkeys_bytes(next));
        }
        i += 1;
    }
    assert(keys@.subrange(0, i as int) =~= keys@);
}

/// Appends the items of an approval list.
fn put_approvals(out: &mut Vec<u8>, approved: &Vec<Option<i64>>)
    ensures
        final(out)@ == old(out)@ + approvals_bytes(approved@),
{
    let mut i: usize = 0;
    assert(out@ =~= old(out)@ + approvals_bytes(approved@.subrange(0, 0)));
    while i < approved.len()
        invariant
            i <= approved.len(),
            out@ == old(out)@ + approvals_bytes(approved@.subrange(0, i as int)),
        decreases approved.len() - i,
    {
        put_option_i64(out, &approved[i]);
        proof {
            let next = approved@.subrange(0, i + 1);
            assert(next.drop_last() =~= approved@.subrange(0, i as int));
            assert(out@ =~= old(out)@ + approvals_bytes(next));
        }
        i += 1;
    }
    assert(approved@.subrange(0, i as int) =~= approved@);
}

/// Appends one descriptor.
fn put_instruction(out: &mut Vec<u8>, ix: &Instruction)
    requires
        ix@.encodable(),
    ensures
        final(out)@ == old(out)@ + ix@.to_bytes(),
{
    put_pubkey(out, &ix.program_id);
    put_len(out, ix.keys.len());
    put_account_metas(out, &ix.keys);
    put_len(out, ix.data.len());
    put_bytes(out, &ix.data);
    assert(out@ =~= old(out)@ + ix@.to_bytes());
}

/// Appends the items of a list of descriptors.
pub(crate) fn put_instructions(out: &mut Vec<u8>, ixs: &Vec<Instruction>)
    requires
        instructions_encodable(instruction_views(ixs@)),
    ensures
        final(out)@ == old(out)@ + instructions_bytes(instruction_views(ixs@)),
{
    let ghost views = instruction_views(ixs@);
    let mut i: usize = 0;
    assert(out@ =~= old(out)@ + instructions_bytes(views.subrange(0, 0)));
    while i < ixs.len()
        invariant
            i <= ixs.len(),
            views == instruction_views(ixs@),
            instructions_encodable(views),
            out@ == old(out)@ + instructions_bytes(views.subrange(0, i as int)),
        decreases ixs.len() - i,
    {
        assert(views[i as int] == ixs@[i as int]@);
        put_instruction(out, &ixs[i]);
        proof {
            let next = views.subrange(0, i + 1);
            assert(next.drop_last() =~= views.subrange(0, i as int));
            assert(next.last() == ixs@[i as int]@);
            assert(out@ =~= old(out)@ + instructions_bytes(next));
        }
        i += 1;
    }
    assert(views.subrange(0, i as int) =~= views);
}

/// Whether every descriptor of a list can be written.
pub(crate) fn all_encodable(ixs: &Vec<Instruction>) -> (r: bool)
    ensures
        r == instructions_encodable(instruction_views(ixs@)),
{
    let ghost views = instruction_views(ixs@);
    let mut i: usize = 0;
    while i < ixs.len()
        invariant
            i <= ixs.len(),
            views == instruction_views(ixs@),
            forall|j: int| 0 <= j < i ==> (#[trigger] views[j]).encodable(),
        decreases ixs.len() - i,
    {
        assert(views[i as int] == ixs@[i as int]@);
        if !ixs[i].is_encodable() {
            return false;
        }
        i += 1;
    }
    true
}

/// The tag of a persisted wallet.
pub fn wallet_discriminator_bytes() -> (r: Vec<u8>)
    ensures
        r@ == wallet_discriminator(),
{
    let r: Vec<u8> = vec![32u8, 135u8, 234u8, 172u8, 132u8, 39u8, 242u8, 66u8];
    assert(r@ =~= wallet_discriminator());
    r
}

/// The tag of a persisted proposal.
pub fn transaction_discriminator_bytes() -> (r: Vec<u8>)
    ensures
        r@ == transaction_discriminator(),
{
    let r: Vec<u8> = vec![37u8, 242u8, 192u8, 200u8, 155u8, 205u8, 171u8, 82u8];
    assert(r@ =~= transaction_discriminator());
    r
}

impl Instruction {
    /// Whether the descriptor can be written.
    pub fn is_encodable(&self) -> (r: bool)
        ensures
            r == self@.encodable(),
    {
        self.keys.len() <= u32::MAX as usize && self.data.len() <= u32::MAX as usize
    }

    /// The descriptor as it is written, or `None` where one of its lists is too long to be
    /// counted. It is written in exactly the bytes that are counted for it.
    pub fn try_to_vec(&self) -> (r: Option<Vec<u8>>)
        ensures
            match r {
                Some(bytes) => self@.encodable() && bytes@ == self@.to_bytes() && bytes@.len()
                    == self@.space(),
                None => !self@.encodable(),
            },
    {
        if !self.is_encodable() {
            return None;
        }
        let mut out: Vec<u8> = Vec::new();
        put_instruction(&mut out, self);
        assert(out@ =~= self@.to_bytes());
        proof {
            lemma_instruction_len(self@);
        }
        Some(out)
    }
}

impl MultisigWallet {
    /// Appends the wallet's fields.
    fn put(&self, out: &mut Vec<u8>)
        requires
            self@.encodable(),
        ensures
            final(out)@ == old(out)@ + self@.to_bytes(),
    {
        put_pubkey(out, &self.base);
        put_len(out, self.members.len());
        put_pubkeys(out, &self.members);
        put_u16(out, self.threshold);
        put_u64(out, self.tx_nonce);
        put_u32(out, self.member_set_seqno);
        out.push(self.bump);
        assert(out@ =~= old(out)@ + self@.to_bytes());
    }

    /// The wallet's fields as they are written, or `None` where it has more members than
    /// can be counted. With the tag they fill the space that is computed for a wallet of as
    /// many members.
    pub fn try_to_vec(&self) -> (r: Option<Vec<u8>>)
        ensures
            match r {
                Some(bytes) => self@.encodable() && bytes@ == self@.to_bytes() && 8 + bytes@.len()
                    == Self::spec_space(self@.members.len()),
                None => !self@.encodable(),
            },
    {
        if self.members.len() > u32::MAX as usize {
            return None;
        }
        let mut out: Vec<u8> = Vec::new();
        self.put(&mut out);
        assert(out@ =~= self@.to_bytes());
        proof {
            theorem_wallet_space(self@);
        }
        Some(out)
    }

    /// The wallet's record, or `None` where it has more members than can be counted. The
    /// record fills the space that is computed for a wallet of as many members.
    pub fn try_serialize(&self) -> (r: Option<Vec<u8>>)
        ensures
            match r {
                Some(bytes) => self@.encodable() && bytes@ == self@.record() && bytes@.len()
                    == Self::spec_space(self@.members.len()),
                None => !self@.encodable(),
            },
    {
        if self.members.len() > u32::MAX as usize {
            return None;
        }
        let mut out = wallet_discriminator_bytes();
        self.put(&mut out);
        proof {
            theorem_wallet_space(self@);
        }
        Some(out)
    }
}

impl MultisigTransaction {
    /// Whether the proposal can be written.
    pub fn is_encodable(&self) -> (r: bool)
        ensures
            r == self@.encodable(),
    {
        self.instructions.len() <= u32::MAX as usize && all_encodable(&self.instructions)
            && self.approved.len() <= u32::MAX as usize
    }

    /// Appends the proposal's fields.
    fn put(&self, out: &mut Vec<u8>)
        requires
            self@.encodable(),
        ensures
            final(out)@ == old(out)@ + self@.to_bytes(),
    {
        put_len(out, self.instructions.len());
        put_instructions(out, &self.instructions);
        put_pubkey(out, &self.multisig_wallet);
        put_len(out, self.approved.len());
        put_approvals(out, &self.approved);
        put_u32(out, self.member_set_seqno);
        put_i64(out, self.created_at);
        put_pubkey(out, &self.proposer);
        put_option_pubkey(out, &self.executor);
        put_option_i64(out, &self.executed_at);
        assert(out@ =~= old(out)@ + self@.to_bytes());
    }

    /// The proposal's fields as they are written, or `None` where one of its lists is too
    /// long to be counted. With the tag and with what the absent optional fields would
    /// take, they fill the space that is computed for the proposal's operations and slots:
    /// all of it where every member approves and the proposal has been executed.
    pub fn try_to_vec(&self) -> (r: Option<Vec<u8>>)
        ensures
            match r {
                Some(bytes) => self@.encodable() && bytes@ == self@.to_bytes() && 8 + bytes@.len()
                    + self@.slack() == Self::spec_space(self@.instructions, self@.approved.len())
                    && (self@.full() ==> self@.slack() == 0),
                None => !self@.encodable(),
            },
    {
        if !self.is_encodable() {
            return None;
        }
        let mut out: Vec<u8> = Vec::new();
        self.put(&mut out);
        assert(out@ =~= self@.to_bytes());
        proof {
            theorem_transaction_space(self@);
        }
        Some(out)
    }

    /// The proposal's record, or `None` where one of its lists is too long to be counted.
    /// The record fits the space that is computed for the proposal's operations and slots,
    /// and leaves of it what the absent optional fields would take.
    pub fn try_serialize(&self) -> (r: Option<Vec<u8>>)
        ensures
            match r {
                Some(bytes) => self@.encodable() && bytes@ == self@.record() && bytes@.len()
                    + self@.slack() == Self::spec_space(self@.instructions, self@.approved.len()),
                None => !self@.encodable(),
            },
    {
        if !self.is_encodable() {
            return None;
        }
        let mut out = transaction_discriminator_bytes();
        self.put(&mut out);
        proof {
            theorem_transaction_space(self@);
        }
        Some(out)
    }
}

/// A list of account references takes 34 bytes for each.
pub proof fn lemma_account_metas_len(s: Seq<AccountMeta>)
    ensures
        account_metas_bytes(s).len() == 34 * s.len(),
    decreases s.len(),
{
    if s.len() > 0 {
        lemma_account_metas_len(s.drop_last());
    }
}

/// A list of identities takes 32 bytes for each.
pub proof fn lemma_pubkeys_len(s: Seq<Pubkey>)
    ensures
        pubkeys_bytes(s).len() == 32 * s.len(),
    decreases s.len(),
{
    if s.len() > 0 {
        lemma_pubkeys_len(s.drop_last());
    }
}

/// An approval list takes one byte for each slot and eight more for each approval.
pub proof fn lemma_approvals_len(s: Seq<Option<i64>>)
    ensures
        approvals_bytes(s).len() == s.len() + 8 * approval_count(s),
        approval_count(s) <= s.len(),
    decreases s.len(),
{
    lemma_auto_spec_u64_to_from_le_bytes();
    if s.len() > 0 {
        lemma_approvals_len(s.drop_last());
    }
}

/// A descriptor is written in exactly the bytes that are counted for it.
pub proof fn lemma_instruction_len(ix: InstructionView)
    ensures
        ix.to_bytes().len() == ix.space(),
{
    lemma_auto_spec_u32_to_from_le_bytes();
    lemma_account_metas_len(ix.keys);
}

/// A list of descriptors is written in exactly the bytes that are counted for it.
pub proof fn lemma_instructions_len(s: Seq<InstructionView>)
    ensures
        instructions_bytes(s).len() == instructions_space(s),
    decreases s.len(),
{
    if s.len() > 0 {
        lemma_instructions_len(s.drop_last());
        lemma_instruction_len(s.last());
    }
}

/// The space computed for a wallet from the number of its members is exactly the length of
/// the wallet's record, whatever the wallet holds.
pub proof fn theorem_wallet_space(wallet: MultisigWalletView)
    ensures
        wallet.record().len() == MultisigWallet::spec_space(wallet.members.len()),
        wallet.to_bytes().len() + 8 == MultisigWallet::spec_space(wallet.members.len()),
{
    lemma_auto_spec_u16_to_from_le_bytes();
    lemma_auto_spec_u32_to_from_le_bytes();
    lemma_auto_spec_u64_to_from_le_bytes();
    lemma_pubkeys_len(wallet.members);
}

/// The space computed for a proposal from its operations and the number of members is the
/// length of the proposal's record plus what its absent optional fields would take: a
/// record never outgrows its space, and fills it exactly when every member approves and
/// the proposal has been executed.
pub proof fn theorem_transaction_space(transaction: MultisigTransactionView)
    ensures
        transaction.record().len() + transaction.slack() == MultisigTransaction::spec_space(
            transaction.instructions,
            transaction.approved.len(),
        ),
        transaction.record().len() <= MultisigTransaction::spec_space(
            transaction.instructions,
            transaction.approved.len(),
        ),
        transaction.full() <==> transaction.record().len() == MultisigTransaction::spec_space(
            transaction.instructions,
            transaction.approved.len(),
        ),
        transaction.to_bytes().len() + 8 == transaction.record().len(),
{
    lemma_auto_spec_u32_to_from_le_bytes();
    lemma_auto_spec_u64_to_from_le_bytes();
    lemma_instructions_len(transaction.instructions);
    lemma_approvals_len(transaction.approved);
    assert(transaction.to_bytes().len() == 4 + instructions_space(transaction.instructions) + 32
        + 4 + (transaction.approved.len() + 8 * approval_count(transaction.approved)) + 4 + 8
        + 32 + option_pubkey_bytes(transaction.executor).len() + option_i64_bytes(
        transaction.executed_at,
    ).len());
    assert(MultisigTransaction::spec_space(transaction.instructions, transaction.approved.len())
        == 8 + 4 + instructions_space(transaction.instructions) + 32 + 4 + 9
        * transaction.approved.len() + 4 + 8 + 32 + 33 + 9);
}

} // verus!
