//! Reading the entities back from their persisted form.
//!
//! A reader takes the bytes at hand and, where they begin with the written form of a
//! value, gives that value and the number of bytes it took. Bytes that follow are left
//! alone: a record is stored in the space that was reserved for it, which may be more than
//! it fills.
//!
//! The theorems in this file say that the readers undo the writers of the layout.
use vstd::prelude::*;
use vstd::array::spec_array_update;
use vstd::bytes::lemma_auto_spec_u16_to_from_le_bytes;
use vstd::bytes::lemma_auto_spec_u32_to_from_le_bytes;
use vstd::bytes::lemma_auto_spec_u64_to_from_le_bytes;
use vstd::bytes::spec_u16_from_le_bytes;
use vstd::bytes::spec_u16_to_le_bytes;
use vstd::bytes::spec_u32_from_le_bytes;
use vstd::bytes::spec_u32_to_le_bytes;
use vstd::bytes::spec_u64_from_le_bytes;
use vstd::bytes::spec_u64_to_le_bytes;
use vstd::bytes::u16_from_le_bytes;
use vstd::bytes::u32_from_le_bytes;
use vstd::bytes::u64_from_le_bytes;
use vstd::slice::slice_subrange;
use vstd::slice::slice_to_vec;
use crate::layout::account_meta_bytes;
use crate::layout::account_metas_bytes;
use crate::layout::approvals_bytes;
use crate::layout::bool_bytes;
use crate::layout::i64_bytes;
use crate::layout::instructions_bytes;
use crate::layout::instructions_encodable;
use crate::layout::len_bytes;
use crate::layout::option_i64_bytes;
use crate::layout::option_pubkey_bytes;
use crate::layout::pubkeys_bytes;
use crate::layout::transaction_discriminator;
use crate::layout::transaction_discriminator_bytes;
use crate::layout::wallet_discriminator;
use crate::layout::wallet_discriminator_bytes;
use crate::pubkey::lemma_pubkey_ext;
use crate::pubkey::Pubkey;
use crate::state::instruction_views;
use crate::state::AccountMeta;
use crate::state::Instruction;
use crate::state::InstructionView;
use crate::state::MultisigTransaction;
use crate::state::MultisigTransactionView;
use crate::state::MultisigWallet;
use crate::state::MultisigWalletView;

verus! {

/// The array whose first `k` bytes are those of `s` and whose other bytes are zero.
pub open spec fn array_of(s: Seq<u8>, k: nat) -> [u8; 32]
    decreases k,
{
    if k == 0 {
        [
            0u8, 0u8, 0u8, 0u8, 0u8, 0u8, 0u8, 0u8, 0u8, 0u8, 0u8, 0u8, 0u8, 0u8, 0u8, 0u8, 0u8,
            0u8, 0u8, 0u8, 0u8, 0u8, 0u8, 0u8, 0u8, 0u8, 0u8, 0u8, 0u8, 0u8, 0u8, 0u8,
        ]
    } else {
        spec_array_update(array_of(s, (k - 1) as nat), k - 1, s[k - 1])
    }
}

/// The identity made of the first 32 bytes of `s`.
pub open spec fn pubkey_of(s: Seq<u8>) -> Pubkey {
    Pubkey { bytes: array_of(s, 32) }
}

/// `array_of` copies the bytes it is asked to copy.
pub proof fn lemma_array_of(s: Seq<u8>, k: nat)
    requires
        k <= 32,
        k <= s.len(),
    ensures
        forall|j: int| 0 <= j < k ==> array_of(s, k)@[j] == s[j],
    decreases k,
{
    if k > 0 {
        lemma_array_of(s, (k - 1) as nat);
    }
}

/// An identity is made of its own bytes, and of nothing else.
pub proof fn lemma_pubkey_of(s: Seq<u8>)
    requires
        s.len() >= 32,
    ensures
        pubkey_of(s).seq() == s.subrange(0, 32),
        forall|p: Pubkey| p.seq() == s.subrange(0, 32) ==> p == pubkey_of(s),
{
    lemma_array_of(s, 32);
    assert(pubkey_of(s).seq() =~= s.subrange(0, 32));
    assert forall|p: Pubkey| p.seq() == s.subrange(0, 32) implies p == pubkey_of(s) by {
        lemma_pubkey_ext(p, pubkey_of(s));
    }
}

/// Reads a number of two bytes.
pub open spec fn read_u16(b: Seq<u8>) -> Option<(u16, nat)> {
    if b.len() >= 2 {
        Some((spec_u16_from_le_bytes(b.subrange(0, 2)), 2))
    } else {
        None
    }
}

/// Reads a number of four bytes.
pub open spec fn read_u32(b: Seq<u8>) -> Option<(u32, nat)> {
    if b.len() >= 4 {
        Some((spec_u32_from_le_bytes(b.subrange(0, 4)), 4))
    } else {
        None
    }
}

/// Reads a number of eight bytes.
pub open spec fn read_u64(b: Seq<u8>) -> Option<(u64, nat)> {
    if b.len() >= 8 {
        Some((spec_u64_from_le_bytes(b.subrange(0, 8)), 8))
    } else {
        None
    }
}

/// Reads a signed number of eight bytes.
pub open spec fn read_i64(b: Seq<u8>) -> Option<(i64, nat)> {
    match read_u64(b) {
        Some((x, n)) => Some((x as i64, n)),
        None => None,
    }
}

/// Reads one byte.
pub open spec fn read_u8(b: Seq<u8>) -> Option<(u8, nat)> {
    if b.len() >= 1 {
        Some((b[0], 1))
    } else {
        None
    }
}

/// Reads a flag: a byte that is zero or one.
pub open spec fn read_bool(b: Seq<u8>) -> Option<(bool, nat)> {
    if b.len() >= 1 && b[0] == 0 {
        Some((false, 1))
    } else if b.len() >= 1 && b[0] == 1 {
        Some((true, 1))
    } else {
        None
    }
}

/// Reads an identity.
pub open spec fn read_pubkey(b: Seq<u8>) -> Option<(Pubkey, nat)> {
    if b.len() >= 32 {
        Some((pubkey_of(b), 32))
    } else {
        None
    }
}

/// Reads an optional time.
pub open spec fn read_option_i64(b: Seq<u8>) -> Option<(Option<i64>, nat)> {
    match read_bool(b) {
        None => None,
        Some((false, _)) => Some((None, 1)),
        Some((true, _)) => match read_i64(b.skip(1)) {
            None => None,
            Some((x, n)) => Some((Some(x), 1 + n)),
        },
    }
}

/// Reads an optional identity.
pub open spec fn read_option_pubkey(b: Seq<u8>) -> Option<(Option<Pubkey>, nat)> {
    match read_bool(b) {
        None => None,
        Some((false, _)) => Some((None, 1)),
        Some((true, _)) => match read_pubkey(b.skip(1)) {
            None => None,
            Some((p, n)) => Some((Some(p), 1 + n)),
        },
    }
}

/// Reads `n` identities.
pub open spec fn read_pubkeys(b: Seq<u8>, n: nat) -> Option<(Seq<Pubkey>, nat)>
    decreases n,
{
    if n == 0 {
        Some((Seq::empty(), 0))
    } else {
        match read_pubkeys(b, (n - 1) as nat) {
            None => None,
            Some((keys, used)) => match read_pubkey(b.skip(used as int)) {
                None => None,
                Some((key, more)) => Some((keys.push(key), used + more)),
            },
        }
    }
}

/// Reads an account reference.
pub open spec fn read_account_meta(b: Seq<u8>) -> Option<(AccountMeta, nat)> {
    match read_pubkey(b) {
        None => None,
        Some((pubkey, n0)) => match read_bool(b.skip(n0 as int)) {
            None => None,
            Some((is_signer, n1)) => match read_bool(b.skip((n0 + n1) as int)) {
                None => None,
                Some((is_writable, n2)) => Some(
                    (AccountMeta { pubkey, is_signer, is_writable }, n0 + n1 + n2),
                ),
            },
        },
    }
}

/// Reads `n` account references.
pub open spec fn read_account_metas(b: Seq<u8>, n: nat) -> Option<(Seq<AccountMeta>, nat)>
    decreases n,
{
    if n == 0 {
        Some((Seq::empty(), 0))
    } else {
        match read_account_metas(b, (n - 1) as nat) {
            None => None,
            Some((metas, used)) => match read_account_meta(b.skip(used as int)) {
                None => None,
                Some((meta, more)) => Some((metas.push(meta), used + more)),
            },
        }
    }
}

/// Reads `n` bytes as they are.
pub open spec fn read_bytes(b: Seq<u8>, n: nat) -> Option<(Seq<u8>, nat)> {
    if b.len() >= n {
        Some((b.subrange(0, n as int), n))
    } else {
        None
    }
}

/// Reads a descriptor.
pub open spec fn read_instruction(b: Seq<u8>) -> Option<(InstructionView, nat)> {
    match read_pubkey(b) {
        None => None,
        Some((program_id, n0)) => match read_u32(b.skip(n0 as int)) {
            None => None,
            Some((count, n1)) => match read_account_metas(
                b.skip((n0 + n1) as int),
                count as nat,
            ) {
                None => None,
                Some((keys, n2)) => match read_u32(b.skip((n0 + n1 + n2) as int)) {
                    None => None,
                    Some((size, n3)) => match read_bytes(
                        b.skip((n0 + n1 + n2 + n3) as int),
                        size as nat,
                    ) {
                        None => None,
                        Some((data, n4)) => Some(
                            (InstructionView { program_id, keys, data }, n0 + n1 + n2 + n3 + n4),
                        ),
                    },
                },
            },
        },
    }
}

/// Reads `n` descriptors.
pub open spec fn read_instructions(b: Seq<u8>, n: nat) -> Option<(Seq<InstructionView>, nat)>
    decreases n,
{
    if n == 0 {
        Some((Seq::empty(), 0))
    } else {
        match read_instructions(b, (n - 1) as nat) {
            None => None,
            Some((ixs, used)) => match read_instruction(b.skip(used as int)) {
                None => None,
                Some((ix, more)) => Some((ixs.push(ix), used + more)),
            },
        }
    }
}

/// Reads `n` approval slots.
pub open spec fn read_approvals(b: Seq<u8>, n: nat) -> Option<(Seq<Option<i64>>, nat)>
    decreases n,
{
    if n == 0 {
        Some((Seq::empty(), 0))
    } else {
        match read_approvals(b, (n - 1) as nat) {
            None => None,
            Some((slots, used)) => match read_option_i64(b.skip(used as int)) {
                None => None,
                Some((slot, more)) => Some((slots.push(slot), used + more)),
            },
        }
    }
}

/// Reads the fields of a proposal.
pub open spec fn read_transaction(b: Seq<u8>) -> Option<(MultisigTransactionView, nat)> {
    match read_u32(b) {
        None => None,
        Some((count, n0)) => match read_instructions(b.skip(n0 as int), count as nat) {
            None => None,
            Some((instructions, n1)) => match read_pubkey(b.skip((n0 + n1) as int)) {
                None => None,
                Some((multisig_wallet, n2)) => match read_u32(b.skip((n0 + n1 + n2) as int)) {
                    None => None,
                    Some((slots, n3)) => match read_approvals(
                        b.skip((n0 + n1 + n2 + n3) as int),
                        slots as nat,
                    ) {
                        None => None,
                        Some((approved, n4)) => read_transaction_history(
                            b,
                            instructions,
                            multisig_wallet,
                            approved,
                            n0 + n1 + n2 + n3 + n4,
                        ),
                    },
                },
            },
        },
    }
}

/// Reads the fields of a proposal that follow its approval list, which ends at `at`.
#[verifier::opaque]
pub open spec fn read_transaction_history(
    b: Seq<u8>,
    instructions: Seq<InstructionView>,
    multisig_wallet: Pubkey,
    approved: Seq<Option<i64>>,
    at: nat,
) -> Option<(MultisigTransactionView, nat)> {
    match read_u32(b.skip(at as int)) {
        None => None,
        Some((member_set_seqno, n0)) => match read_i64(b.skip((at + n0) as int)) {
            None => None,
            Some((created_at, n1)) => match read_pubkey(b.skip((at + n0 + n1) as int)) {
                None => None,
                Some((proposer, n2)) => match read_option_pubkey(
                    b.skip((at + n0 + n1 + n2) as int),
                ) {
                    None => None,
                    Some((executor, n3)) => match read_option_i64(
                        b.skip((at + n0 + n1 + n2 + n3) as int),
                    ) {
                        None => None,
                        Some((executed_at, n4)) => Some(
                            (
                                MultisigTransactionView {
                                    instructions,
                                    multisig_wallet,
                                    approved,
                                    member_set_seqno,
                                    created_at,
                                    proposer,
                                    executor,
                                    executed_at,
                                },
                                at + n0 + n1 + n2 + n3 + n4,
                            ),
                        ),
                    },
                },
            },
        },
    }
}

/// Reads the record of a proposal: its tag, then its fields.
pub open spec fn read_transaction_record(b: Seq<u8>) -> Option<MultisigTransactionView> {
    if b.len() >= 8 && b.subrange(0, 8) == transaction_discriminator() {
        match read_transaction(b.skip(8)) {
            Some((transaction, _)) => Some(transaction),
            None => None,
        }
    } else {
        None
    }
}

/// Reads the fields of a wallet.
pub open spec fn read_wallet(b: Seq<u8>) -> Option<(MultisigWalletView, nat)> {
    match read_pubkey(b) {
        None => None,
        Some((base, n0)) => match read_u32(b.skip(n0 as int)) {
            None => None,
            Some((count, n1)) => match read_pubkeys(b.skip((n0 + n1) as int), count as nat) {
                None => None,
                Some((members, n2)) => match read_u16(b.skip((n0 + n1 + n2) as int)) {
                    None => None,
                    Some((threshold, n3)) => match read_u64(b.skip((n0 + n1 + n2 + n3) as int)) {
                        None => None,
                        Some((tx_nonce, n4)) => match read_u32(
                            b.skip((n0 + n1 + n2 + n3 + n4) as int),
                        ) {
                            None => None,
                            Some((member_set_seqno, n5)) => match read_u8(
                                b.skip((n0 + n1 + n2 + n3 + n4 + n5) as int),
                            ) {
                                None => None,
                                Some((bump, n6)) => Some(
                                    (
                                        MultisigWalletView {
                                            base,
                                            members,
                                            threshold,
                                            tx_nonce,
                                            member_set_seqno,
                                            bump,
                                        },
                                        n0 + n1 + n2 + n3 + n4 + n5 + n6,
                                    ),
                                ),
                            },
                        },
                    },
                },
            },
        },
    }
}

/// Reads the record of a wallet: its tag, then its fields.
pub open spec fn read_wallet_record(b: Seq<u8>) -> Option<MultisigWalletView> {
    if b.len() >= 8 && b.subrange(0, 8) == wallet_discriminator() {
        match read_wallet(b.skip(8)) {
            Some((wallet, _)) => Some(wallet),
            None => None,
        }
    } else {
        None
    }
}

/// What follows a piece of a sequence is what follows it.
pub proof fn lemma_skip_skip(b: Seq<u8>, i: int, j: int)
    requires
        0 <= i,
        0 <= j,
        i + j <= b.len(),
    ensures
        b.skip(i).skip(j) == b.skip(i + j),
        b.skip(i).subrange(0, j) == b.subrange(i, i + j),
{
    assert(b.skip(i).skip(j) =~= b.skip(i + j));
    assert(b.skip(i).subrange(0, j) =~= b.subrange(i, i + j));
}

/// A sequence that begins with `x` has `x` in front and the rest behind it.
pub proof fn lemma_split(x: Seq<u8>, rest: Seq<u8>)
    ensures
        (x + rest).subrange(0, x.len() as int) == x,
        (x + rest).skip(x.len() as int) == rest,
{
    assert((x + rest).subrange(0, x.len() as int) =~= x);
    assert((x + rest).skip(x.len() as int) =~= rest);
}

/// Whether `bytes` begins with `tag`.
pub(crate) fn starts_with(bytes: &[u8], tag: &Vec<u8>) -> (r: bool)
    requires
        tag@.len() <= bytes@.len(),
    ensures
        r == (bytes@.subrange(0, tag@.len() as int) == tag@),
{
    let mut i: usize = 0;
    while i < tag.len()
        invariant
            i <= tag.len(),
            tag@.len() <= bytes@.len(),
            forall|j: int| 0 <= j < i ==> bytes@[j] == tag@[j],
        decreases tag.len() - i,
    {
        if bytes[i] != tag[i] {
            assert(bytes@.subrange(0, tag@.len() as int)[i as int] != tag@[i as int]);
            return false;
        }
        i += 1;
    }
    assert(bytes@.subrange(0, tag@.len() as int) =~= tag@);
    true
}

/// Reads a number of two bytes at `pos`.
pub(crate) fn get_u16(bytes: &[u8], pos: usize) -> (r: Option<(u16, usize)>)
    requires
        pos <= bytes@.len(),
    ensures
        match r {
            Some((x, next)) => read_u16(bytes@.skip(pos as int)) == Some((x, (next - pos) as nat))
                && pos <= next <= bytes@.len(),
            None => read_u16(bytes@.skip(pos as int)) is None,
        },
{
    if bytes.len() - pos < 2 {
        return None;
    }
    let part = slice_subrange(bytes, pos, pos + 2);
    proof {
        lemma_skip_skip(bytes@, pos as int, 2);
    }
    Some((u16_from_le_bytes(part), pos + 2))
}

/// Reads a number of four bytes at `pos`.
pub(crate) fn get_u32(bytes: &[u8], pos: usize) -> (r: Option<(u32, usize)>)
    requires
        pos <= bytes@.len(),
    ensures
        match r {
            Some((x, next)) => read_u32(bytes@.skip(pos as int)) == Some((x, (next - pos) as nat))
                && pos <= next <= bytes@.len(),
            None => read_u32(bytes@.skip(pos as int)) is None,
        },
{
    if bytes.len() - pos < 4 {
        return None;
    }
    let part = slice_subrange(bytes, pos, pos + 4);
    proof {
        lemma_skip_skip(bytes@, pos as int, 4);
    }
    Some((u32_from_le_bytes(part), pos + 4))
}

/// Reads a number of eight bytes at `pos`.
pub(crate) fn get_u64(bytes: &[u8], pos: usize) -> (r: Option<(u64, usize)>)
    requires
        pos <= bytes@.len(),
    ensures
        match r {
            Some((x, next)) => read_u64(bytes@.skip(pos as int)) == Some((x, (next - pos) as nat))
                && pos <= next <= bytes@.len(),
            None => read_u64(bytes@.skip(pos as int)) is None,
        },
{
    if bytes.len() - pos < 8 {
        return None;
    }
    let part = slice_subrange(bytes, pos, pos + 8);
    proof {
        lemma_skip_skip(bytes@, pos as int, 8);
    }
    Some((u64_from_le_bytes(part), pos + 8))
}

/// Reads a signed number of eight bytes at `pos`.
pub(crate) fn get_i64(bytes: &[u8], pos: usize) -> (r: Option<(i64, usize)>)
    requires
        pos <= bytes@.len(),
    ensures
        match r {
            Some((x, next)) => read_i64(bytes@.skip(pos as int)) == Some((x, (next - pos) as nat))
                && pos <= next <= bytes@.len(),
            None => read_i64(bytes@.skip(pos as int)) is None,
        },
{
    match get_u64(bytes, pos) {
        Some((x, next)) => Some((#[verifier::truncate] (x as i64), next)),
        None => None,
    }
}

/// Reads one byte at `pos`.
pub(crate) fn get_u8(bytes: &[u8], pos: usize) -> (r: Option<(u8, usize)>)
    requires
        pos <= bytes@.len(),
    ensures
        match r {
            Some((x, next)) => read_u8(bytes@.skip(pos as int)) == Some((x, (next - pos) as nat))
                && pos <= next <= bytes@.len(),
            None => read_u8(bytes@.skip(pos as int)) is None,
        },
{
    if bytes.len() - pos < 1 {
        return None;
    }
    Some((bytes[pos], pos + 1))
}

/// Reads a flag at `pos`.
pub(crate) fn get_bool(bytes: &[u8], pos: usize) -> (r: Option<(bool, usize)>)
    requires
        pos <= bytes@.len(),
    ensures
        match r {
            Some((x, next)) => read_bool(bytes@.skip(pos as int)) == Some((x, (next - pos) as nat))
                && pos <= next <= bytes@.len(),
            None => read_bool(bytes@.skip(pos as int)) is None,
        },
{
    if bytes.len() - pos < 1 {
        return None;
    }
    let byte = bytes[pos];
    if byte == 0 {
        Some((false, pos + 1))
    } else if byte == 1 {
        Some((true, pos + 1))
    } else {
        None
    }
}

/// Reads an identity at `pos`.
pub(crate) fn get_pubkey(bytes: &[u8], pos: usize) -> (r: Option<(Pubkey, usize)>)
    requires
        pos <= bytes@.len(),
    ensures
        match r {
            Some((x, next)) => read_pubkey(bytes@.skip(pos as int)) == Some(
                (x, (next - pos) as nat),
            ) && pos <= next <= bytes@.len(),
            None => read_pubkey(bytes@.skip(pos as int)) is None,
        },
{
    if bytes.len() - pos < 32 {
        return None;
    }
    let mut key = [0u8; 32];
    let mut i: usize = 0;
    while i < 32
        invariant
            i <= 32,
            pos + 32 <= bytes.len(),
            forall|j: int| 0 <= j < i ==> key@[j] == bytes@[pos + j],
        decreases 32 - i,
    {
        key[i] = bytes[pos + i];
        i += 1;
    }
    let found = Pubkey { bytes: key };
    proof {
        let rest = bytes@.skip(pos as int);
        lemma_pubkey_of(rest);
        assert(found.seq() =~= rest.subrange(0, 32));
    }
    Some((found, pos + 32))
}

/// Reads an optional time at `pos`.
pub(crate) fn get_option_i64(bytes: &[u8], pos: usize) -> (r: Option<(Option<i64>, usize)>)
    requires
        pos <= bytes@.len(),
    ensures
        match r {
            Some((x, next)) => read_option_i64(bytes@.skip(pos as int)) == Some(
                (x, (next - pos) as nat),
            ) && pos <= next <= bytes@.len(),
            None => read_option_i64(bytes@.skip(pos as int)) is None,
        },
{
    match get_bool(bytes, pos) {
        None => None,
        Some((false, next)) => Some((None, next)),
        Some((true, next)) => {
            proof {
                lemma_skip_skip(bytes@, pos as int, 1);
            }
            match get_i64(bytes, next) {
                None => None,
                Some((x, end)) => Some((Some(x), end)),
            }
        },
    }
}

/// Reads an optional identity at `pos`.
pub(crate) fn get_option_pubkey(bytes: &[u8], pos: usize) -> (r: Option<(Option<Pubkey>, usize)>)
    requires
        pos <= bytes@.len(),
    ensures
        match r {
            Some((x, next)) => read_option_pubkey(bytes@.skip(pos as int)) == Some(
                (x, (next - pos) as nat),
            ) && pos <= next <= bytes@.len(),
            None => read_option_pubkey(bytes@.skip(pos as int)) is None,
        },
{
    match get_bool(bytes, pos) {
        None => None,
        Some((false, next)) => Some((None, next)),
        Some((true, next)) => {
            proof {
                lemma_skip_skip(bytes@, pos as int, 1);
            }
            match get_pubkey(bytes, next) {
                None => None,
                Some((x, end)) => Some((Some(x), end)),
            }
        },
    }
}

/// A reader of `n` identities that fails, fails for every greater `n` too.
pub proof fn lemma_read_pubkeys_none(b: Seq<u8>, i: nat, n: nat)
    requires
        i <= n,
        read_pubkeys(b, i) is None,
    ensures
        read_pubkeys(b, n) is None,
    decreases n,
{
    if i < n {
        lemma_read_pubkeys_none(b, i, (n - 1) as nat);
    }
}

/// Reads `n` identities at `pos`.
pub(crate) fn get_pubkeys(bytes: &[u8], pos: usize, n: usize) -> (r: Option<(Vec<Pubkey>, usize)>)
    requires
        pos <= bytes@.len(),
    ensures
        match r {
            Some((x, next)) => read_pubkeys(bytes@.skip(pos as int), n as nat) == Some(
                (x@, (next - pos) as nat),
            ) && pos <= next <= bytes@.len(),
            None => read_pubkeys(bytes@.skip(pos as int), n as nat) is None,
        },
{
    let ghost rest = bytes@.skip(pos as int);
    let mut keys: Vec<Pubkey> = Vec::new();
    let mut at: usize = pos;
    let mut i: usize = 0;
    while i < n
        invariant
            i <= n,
            pos <= at <= bytes@.len(),
            rest == bytes@.skip(pos as int),
            read_pubkeys(rest, i as nat) == Some((keys@, (at - pos) as nat)),
        decreases n - i,
    {
        proof {
            lemma_skip_skip(bytes@, pos as int, at - pos);
        }
        match get_pubkey(bytes, at) {
            None => {
                proof {
                    lemma_read_pubkeys_none(rest, (i + 1) as nat, n as nat);
                }
                return None;
            },
            Some((key, next)) => {
                keys.push(key);
                at = next;
            },
        }
        i += 1;
    }
    Some((keys, at))
}

impl MultisigWallet {
    /// Reads the fields of a wallet from the front of `bytes`, and says how many bytes they
    /// took. `None` where `bytes` does not begin with the fields of a wallet.
    pub fn try_from_slice(bytes: &[u8]) -> (r: Option<(MultisigWallet, usize)>)
        ensures
            match r {
                Some((wallet, used)) => read_wallet(bytes@) == Some((wallet@, used as nat))
                    && used <= bytes@.len(),
                None => read_wallet(bytes@) is None,
            },
    {
        assert(bytes@.skip(0) =~= bytes@);
        Self::get(bytes, 0)
    }

    /// Reads the fields of a wallet at `pos`.
    fn get(bytes: &[u8], pos: usize) -> (r: Option<(MultisigWallet, usize)>)
        requires
            pos <= bytes@.len(),
        ensures
            match r {
                Some((wallet, next)) => read_wallet(bytes@.skip(pos as int)) == Some(
                    (wallet@, (next - pos) as nat),
                ) && pos <= next <= bytes@.len(),
                None => read_wallet(bytes@.skip(pos as int)) is None,
            },
    {
        let ghost rest = bytes@.skip(pos as int);
        let (base, end1) = get_pubkey(bytes, pos)?;
        proof {
            lemma_skip_skip(bytes@, pos as int, end1 - pos);
        }
        let (count, end2) = get_u32(bytes, end1)?;
        proof {
            lemma_skip_skip(bytes@, pos as int, end2 - pos);
        }
        let (members, end3) = get_pubkeys(bytes, end2, count as usize)?;
        proof {
            lemma_skip_skip(bytes@, pos as int, end3 - pos);
        }
        let (threshold, end4) = get_u16(bytes, end3)?;
        proof {
            lemma_skip_skip(bytes@, pos as int, end4 - pos);
        }
        let (tx_nonce, end5) = get_u64(bytes, end4)?;
        proof {
            lemma_skip_skip(bytes@, pos as int, end5 - pos);
        }
        let (member_set_seqno, end6) = get_u32(bytes, end5)?;
        proof {
            lemma_skip_skip(bytes@, pos as int, end6 - pos);
        }
        let (bump, end7) = get_u8(bytes, end6)?;
        Some((MultisigWallet { base, members, threshold, tx_nonce, member_set_seqno, bump }, end7))
    }

    /// Reads a wallet from its record. `None` where `bytes` does not begin with the record
    /// of a wallet.
    pub fn try_deserialize(bytes: &[u8]) -> (r: Option<MultisigWallet>)
        ensures
            match r {
                Some(wallet) => read_wallet_record(bytes@) == Some(wallet@),
                None => read_wallet_record(bytes@) is None,
            },
    {
        if bytes.len() < 8 || !starts_with(bytes, &wallet_discriminator_bytes()) {
            return None;
        }
        match Self::get(bytes, 8) {
            Some((wallet, _)) => Some(wallet),
            None => None,
        }
    }
}

/// Reads an account reference at `pos`.
pub(crate) fn get_account_meta(bytes: &[u8], pos: usize) -> (r: Option<(AccountMeta, usize)>)
    requires
        pos <= bytes@.len(),
    ensures
        match r {
            Some((x, next)) => read_account_meta(bytes@.skip(pos as int)) == Some(
                (x, (next - pos) as nat),
            ) && pos <= next <= bytes@.len(),
            None => read_account_meta(bytes@.skip(pos as int)) is None,
        },
{
    let (pubkey, end1) = get_pubkey(bytes, pos)?;
    proof {
        lemma_skip_skip(bytes@, pos as int, end1 - pos);
    }
    let (is_signer, end2) = get_bool(bytes, end1)?;
    proof {
        lemma_skip_skip(bytes@, pos as int, end2 - pos);
    }
    let (is_writable, end3) = get_bool(bytes, end2)?;
    Some((AccountMeta { pubkey, is_signer, is_writable }, end3))
}

/// A reader of `n` account references that fails, fails for every greater `n` too.
pub proof fn lemma_read_account_metas_none(b: Seq<u8>, i: nat, n: nat)
    requires
        i <= n,
        read_account_metas(b, i) is None,
    ensures
        read_account_metas(b, n) is None,
    decreases n,
{
    if i < n {
        lemma_read_account_metas_none(b, i, (n - 1) as nat);
    }
}

/// Reads `n` account references at `pos`.
pub(crate) fn get_account_metas(bytes: &[u8], pos: usize, n: usize) -> (r: Option<
    (Vec<AccountMeta>, usize),
>)
    requires
        pos <= bytes@.len(),
    ensures
        match r {
            Some((x, next)) => read_account_metas(bytes@.skip(pos as int), n as nat) == Some(
                (x@, (next - pos) as nat),
            ) && pos <= next <= bytes@.len(),
            None => read_account_metas(bytes@.skip(pos as int), n as nat) is None,
        },
{
    let ghost rest = bytes@.skip(pos as int);
    let mut metas: Vec<AccountMeta> = Vec::new();
    let mut at: usize = pos;
    let mut i: usize = 0;
    while i < n
        invariant
            i <= n,
            pos <= at <= bytes@.len(),
            rest == bytes@.skip(pos as int),
            read_account_metas(rest, i as nat) == Some((metas@, (at - pos) as nat)),
        decreases n - i,
    {
        proof {
            lemma_skip_skip(bytes@, pos as int, at - pos);
        }
        match get_account_meta(bytes, at) {
            None => {
                proof {
                    lemma_read_account_metas_none(rest, (i + 1) as nat, n as nat);
                }
                return None;
            },
            Some((meta, next)) => {
                metas.push(meta);
                at = next;
            },
        }
        i += 1;
    }
    Some((metas, at))
}

/// Reads `n` bytes at `pos` as they are.
pub(crate) fn get_bytes(bytes: &[u8], pos: usize, n: usize) -> (r: Option<(Vec<u8>, usize)>)
    requires
        pos <= bytes@.len(),
    ensures
        match r {
            Some((x, next)) => read_bytes(bytes@.skip(pos as int), n as nat) == Some(
                (x@, (next - pos) as nat),
            ) && pos <= next <= bytes@.len(),
            None => read_bytes(bytes@.skip(pos as int), n as nat) is None,
        },
{
    if bytes.len() - pos < n {
        return None;
    }
    let part = slice_subrange(bytes, pos, pos + n);
    proof {
        lemma_skip_skip(bytes@, pos as int, n as int);
    }
    Some((slice_to_vec(part), pos + n))
}

/// Reads a descriptor at `pos`.
pub(crate) fn get_instruction(bytes: &[u8], pos: usize) -> (r: Option<(Instruction, usize)>)
    requires
        pos <= bytes@.len(),
    ensures
        match r {
            Some((x, next)) => read_instruction(bytes@.skip(pos as int)) == Some(
                (x@, (next - pos) as nat),
            ) && pos <= next <= bytes@.len(),
            None => read_instruction(bytes@.skip(pos as int)) is None,
        },
{
    let (program_id, end1) = get_pubkey(bytes, pos)?;
    proof {
        lemma_skip_skip(bytes@, pos as int, end1 - pos);
    }
    let (count, end2) = get_u32(bytes, end1)?;
    proof {
        lemma_skip_skip(bytes@, pos as int, end2 - pos);
    }
    let (keys, end3) = get_account_metas(bytes, end2, count as usize)?;
    proof {
        lemma_skip_skip(bytes@, pos as int, end3 - pos);
    }
    let (size, end4) = get_u32(bytes, end3)?;
    proof {
        lemma_skip_skip(bytes@, pos as int, end4 - pos);
    }
    let (data, end5) = get_bytes(bytes, end4, size as usize)?;
    Some((Instruction { program_id, keys, data }, end5))
}

/// A reader of `n` descriptors that fails, fails for every greater `n` too.
pub proof fn lemma_read_instructions_none(b: Seq<u8>, i: nat, n: nat)
    requires
        i <= n,
        read_instructions(b, i) is None,
    ensures
        read_instructions(b, n) is None,
    decreases n,
{
    if i < n {
        lemma_read_instructions_none(b, i, (n - 1) as nat);
    }
}

/// Reads `n` descriptors at `pos`.
pub(crate) fn get_instructions(bytes: &[u8], pos: usize, n: usize) -> (r: Option<
    (Vec<Instruction>, usize),
>)
    requires
        pos <= bytes@.len(),
    ensures
        match r {
            Some((x, next)) => read_instructions(bytes@.skip(pos as int), n as nat) == Some(
                (instruction_views(x@), (next - pos) as nat),
            ) && pos <= next <= bytes@.len(),
            None => read_instructions(bytes@.skip(pos as int), n as nat) is None,
        },
{
    let ghost rest = bytes@.skip(pos as int);
    let mut ixs: Vec<Instruction> = Vec::new();
    let mut at: usize = pos;
    let mut i: usize = 0;
    assert(instruction_views(ixs@) =~= Seq::<InstructionView>::empty());
    while i < n
        invariant
            i <= n,
            pos <= at <= bytes@.len(),
            rest == bytes@.skip(pos as int),
            read_instructions(rest, i as nat) == Some(
                (instruction_views(ixs@), (at - pos) as nat),
            ),
        decreases n - i,
    {
        proof {
            lemma_skip_skip(bytes@, pos as int, at - pos);
        }
        match get_instruction(bytes, at) {
            None => {
                proof {
                    lemma_read_instructions_none(rest, (i + 1) as nat, n as nat);
                }
                return None;
            },
            Some((ix, next)) => {
                let ghost before = instruction_views(ixs@);
                ixs.push(ix);
                assert(instruction_views(ixs@) =~= before.push(ix@));
                at = next;
            },
        }
        i += 1;
    }
    Some((ixs, at))
}

/// A reader of `n` approval slots that fails, fails for every greater `n` too.
pub proof fn lemma_read_approvals_none(b: Seq<u8>, i: nat, n: nat)
    requires
        i <= n,
        read_approvals(b, i) is None,
    ensures
        read_approvals(b, n) is None,
    decreases n,
{
    if i < n {
        lemma_read_approvals_none(b, i, (n - 1) as nat);
    }
}

/// Reads `n` approval slots at `pos`.
pub(crate) fn get_approvals(bytes: &[u8], pos: usize, n: usize) -> (r: Option<
    (Vec<Option<i64>>, usize),
>)
    requires
        pos <= bytes@.len(),
    ensures
        match r {
            Some((x, next)) => read_approvals(bytes@.skip(pos as int), n as nat) == Some(
                (x@, (next - pos) as nat),
            ) && pos <= next <= bytes@.len(),
            None => read_approvals(bytes@.skip(pos as int), n as nat) is None,
        },
{
    let ghost rest = bytes@.skip(pos as int);
    let mut slots: Vec<Option<i64>> = Vec::new();
    let mut at: usize = pos;
    let mut i: usize = 0;
    while i < n
        invariant
            i <= n,
            pos <= at <= bytes@.len(),
            rest == bytes@.skip(pos as int),
            read_approvals(rest, i as nat) == Some((slots@, (at - pos) as nat)),
        decreases n - i,
    {
        proof {
            lemma_skip_skip(bytes@, pos as int, at - pos);
        }
        match get_option_i64(bytes, at) {
            None => {
                proof {
                    lemma_read_approvals_none(rest, (i + 1) as nat, n as nat);
                }
                return None;
            },
            Some((slot, next)) => {
                slots.push(slot);
                at = next;
            },
        }
        i += 1;
    }
    Some((slots, at))
}

impl Instruction {
    /// Reads a descriptor from the front of `bytes`, and says how many bytes it took.
    /// `None` where `bytes` does not begin with a descriptor.
    pub fn try_from_slice(bytes: &[u8]) -> (r: Option<(Instruction, usize)>)
        ensures
            match r {
                Some((ix, used)) => read_instruction(bytes@) == Some((ix@, used as nat)) && used
                    <= bytes@.len(),
                None => read_instruction(bytes@) is None,
            },
    {
        assert(bytes@.skip(0) =~= bytes@);
        get_instruction(bytes, 0)
    }
}

impl MultisigTransaction {
    /// Reads the fields of a proposal from the front of `bytes`, and says how many bytes
    /// they took. `None` where `bytes` does not begin with the fields of a proposal.
    pub fn try_from_slice(bytes: &[u8]) -> (r: Option<(MultisigTransaction, usize)>)
        ensures
            match r {
                Some((transaction, used)) => read_transaction(bytes@) == Some(
                    (transaction@, used as nat),
                ) && used <= bytes@.len(),
                None => read_transaction(bytes@) is None,
            },
    {
        assert(bytes@.skip(0) =~= bytes@);
        Self::get(bytes, 0)
    }

    /// Reads the fields of a proposal at `pos`.
    fn get(bytes: &[u8], pos: usize) -> (r: Option<(MultisigTransaction, usize)>)
        requires
            pos <= bytes@.len(),
        ensures
            match r {
                Some((transaction, next)) => read_transaction(bytes@.skip(pos as int)) == Some(
                    (transaction@, (next - pos) as nat),
                ) && pos <= next <= bytes@.len(),
                None => read_transaction(bytes@.skip(pos as int)) is None,
            },
    {
        let (count, end1) = get_u32(bytes, pos)?;
        proof {
            lemma_skip_skip(bytes@, pos as int, end1 - pos);
        }
        let (instructions, end2) = get_instructions(bytes, end1, count as usize)?;
        proof {
            lemma_skip_skip(bytes@, pos as int, end2 - pos);
        }
        let (multisig_wallet, end3) = get_pubkey(bytes, end2)?;
        proof {
            lemma_skip_skip(bytes@, pos as int, end3 - pos);
        }
        let (slots, end4) = get_u32(bytes, end3)?;
        proof {
            lemma_skip_skip(bytes@, pos as int, end4 - pos);
        }
        let (approved, end5) = get_approvals(bytes, end4, slots as usize)?;
        Self::get_history(bytes, pos, end5, instructions, multisig_wallet, approved)
    }

    /// Reads the fields of a proposal that follow its approval list, which ends at `at`, and
    /// puts the proposal together.
    fn get_history(
        bytes: &[u8],
        pos: usize,
        at: usize,
        instructions: Vec<Instruction>,
        multisig_wallet: Pubkey,
        approved: Vec<Option<i64>>,
    ) -> (r: Option<(MultisigTransaction, usize)>)
        requires
            pos <= at <= bytes@.len(),
        ensures
            match r {
                Some((transaction, next)) => read_transaction_history(
                    bytes@.skip(pos as int),
                    instruction_views(instructions@),
                    multisig_wallet,
                    approved@,
                    (at - pos) as nat,
                ) == Some((transaction@, (next - pos) as nat)) && pos <= next <= bytes@.len(),
                None => read_transaction_history(
                    bytes@.skip(pos as int),
                    instruction_views(instructions@),
                    multisig_wallet,
                    approved@,
                    (at - pos) as nat,
                ) is None,
            },
    {
        proof {
            reveal(read_transaction_history);
            lemma_skip_skip(bytes@, pos as int, at - pos);
        }
        let (member_set_seqno, end6) = get_u32(bytes, at)?;
        proof {
            lemma_skip_skip(bytes@, pos as int, end6 - pos);
        }
        let (created_at, end7) = get_i64(bytes, end6)?;
        proof {
            lemma_skip_skip(bytes@, pos as int, end7 - pos);
        }
        let (proposer, end8) = get_pubkey(bytes, end7)?;
        proof {
            lemma_skip_skip(bytes@, pos as int, end8 - pos);
        }
        let (executor, end9) = get_option_pubkey(bytes, end8)?;
        proof {
            lemma_skip_skip(bytes@, pos as int, end9 - pos);
        }
        let (executed_at, end10) = get_option_i64(bytes, end9)?;
        Some(
            (
                MultisigTransaction {
                    instructions,
                    multisig_wallet,
                    approved,
                    member_set_seqno,
                    created_at,
                    proposer,
                    executor,
                    executed_at,
                },
                end10,
            ),
        )
    }

    /// Reads a proposal from its record. `None` where `bytes` does not begin with the
    /// record of a proposal.
    pub fn try_deserialize(bytes: &[u8]) -> (r: Option<MultisigTransaction>)
        ensures
            match r {
                Some(transaction) => read_transaction_record(bytes@) == Some(transaction@),
                None => read_transaction_record(bytes@) is None,
            },
    {
        if bytes.len() < 8 || !starts_with(bytes, &transaction_discriminator_bytes()) {
            return None;
        }
        match Self::get(bytes, 8) {
            Some((transaction, _)) => Some(transaction),
            None => None,
        }
    }
}

/// Reading undoes writing, for a number of two bytes.
pub proof fn lemma_read_u16(x: u16, tail: Seq<u8>)
    ensures
        read_u16(spec_u16_to_le_bytes(x) + tail) == Some((x, 2nat)),
        (spec_u16_to_le_bytes(x) + tail).skip(2) == tail,
{
    lemma_auto_spec_u16_to_from_le_bytes();
    lemma_split(spec_u16_to_le_bytes(x), tail);
}

/// Reading undoes writing, for a number of four bytes.
pub proof fn lemma_read_u32(x: u32, tail: Seq<u8>)
    ensures
        read_u32(spec_u32_to_le_bytes(x) + tail) == Some((x, 4nat)),
        (spec_u32_to_le_bytes(x) + tail).skip(4) == tail,
{
    lemma_auto_spec_u32_to_from_le_bytes();
    lemma_split(spec_u32_to_le_bytes(x), tail);
}

/// Reading undoes writing, for the count of a list.
pub proof fn lemma_read_len(n: nat, tail: Seq<u8>)
    requires
        n <= u32::MAX,
    ensures
        read_u32(len_bytes(n) + tail) == Some((n as u32, 4nat)),
        (n as u32) as nat == n,
        (len_bytes(n) + tail).skip(4) == tail,
{
    lemma_read_u32(n as u32, tail);
}

/// Reading undoes writing, for a number of eight bytes.
pub proof fn lemma_read_u64(x: u64, tail: Seq<u8>)
    ensures
        read_u64(spec_u64_to_le_bytes(x) + tail) == Some((x, 8nat)),
        (spec_u64_to_le_bytes(x) + tail).skip(8) == tail,
{
    lemma_auto_spec_u64_to_from_le_bytes();
    lemma_split(spec_u64_to_le_bytes(x), tail);
}

/// Reading undoes writing, for a signed number of eight bytes.
pub proof fn lemma_read_i64(x: i64, tail: Seq<u8>)
    ensures
        read_i64(i64_bytes(x) + tail) == Some((x, 8nat)),
        (i64_bytes(x) + tail).skip(8) == tail,
{
    lemma_read_u64(x as u64, tail);
    assert((x as u64) as i64 == x) by (bit_vector);
}

/// Reading undoes writing, for a flag.
pub proof fn lemma_read_bool(x: bool, tail: Seq<u8>)
    ensures
        read_bool(bool_bytes(x) + tail) == Some((x, 1nat)),
        (bool_bytes(x) + tail).skip(1) == tail,
{
    lemma_split(bool_bytes(x), tail);
}

/// Reading undoes writing, for one byte.
pub proof fn lemma_read_u8(x: u8, tail: Seq<u8>)
    ensures
        read_u8(seq![x] + tail) == Some((x, 1nat)),
        (seq![x] + tail).skip(1) == tail,
{
    lemma_split(seq![x], tail);
}

/// Reading undoes writing, for an identity.
pub proof fn lemma_read_pubkey(x: Pubkey, tail: Seq<u8>)
    ensures
        read_pubkey(x.seq() + tail) == Some((x, 32nat)),
        (x.seq() + tail).skip(32) == tail,
{
    lemma_pubkey_ext(x, x);
    lemma_split(x.seq(), tail);
    lemma_pubkey_of(x.seq() + tail);
}

/// Reading undoes writing, for an optional time.
pub proof fn lemma_read_option_i64(x: Option<i64>, tail: Seq<u8>)
    ensures
        read_option_i64(option_i64_bytes(x) + tail) == Some((x, option_i64_bytes(x).len())),
        (option_i64_bytes(x) + tail).skip(option_i64_bytes(x).len() as int) == tail,
{
    let b = option_i64_bytes(x) + tail;
    lemma_split(option_i64_bytes(x), tail);
    match x {
        None => {
            assert(b[0] == 0);
        },
        Some(t) => {
            assert(b[0] == 1);
            assert(b.skip(1) =~= i64_bytes(t) + tail);
            lemma_read_i64(t, tail);
        },
    }
}

/// Reading undoes writing, for an optional identity.
pub proof fn lemma_read_option_pubkey(x: Option<Pubkey>, tail: Seq<u8>)
    ensures
        read_option_pubkey(option_pubkey_bytes(x) + tail) == Some(
            (x, option_pubkey_bytes(x).len()),
        ),
        (option_pubkey_bytes(x) + tail).skip(option_pubkey_bytes(x).len() as int) == tail,
{
    let b = option_pubkey_bytes(x) + tail;
    lemma_split(option_pubkey_bytes(x), tail);
    match x {
        None => {
            assert(b[0] == 0);
        },
        Some(p) => {
            assert(b[0] == 1);
            assert(b.skip(1) =~= p.seq() + tail);
            lemma_read_pubkey(p, tail);
        },
    }
}

/// Reading undoes writing, for a list of identities.
pub proof fn lemma_read_pubkeys(keys: Seq<Pubkey>, tail: Seq<u8>)
    ensures
        read_pubkeys(pubkeys_bytes(keys) + tail, keys.len()) == Some(
            (keys, pubkeys_bytes(keys).len()),
        ),
        (pubkeys_bytes(keys) + tail).skip(pubkeys_bytes(keys).len() as int) == tail,
    decreases keys.len(),
{
    let b = pubkeys_bytes(keys) + tail;
    lemma_split(pubkeys_bytes(keys), tail);
    if keys.len() > 0 {
        let front = keys.drop_last();
        let rest = keys.last().seq() + tail;
        assert(b =~= pubkeys_bytes(front) + rest);
        lemma_read_pubkeys(front, rest);
        lemma_read_pubkey(keys.last(), tail);
        assert(front.push(keys.last()) =~= keys);
    }
}

/// Reading undoes writing, for the fields of a wallet: whatever follows them.
pub proof fn theorem_read_wallet(wallet: MultisigWalletView, tail: Seq<u8>)
    requires
        wallet.encodable(),
    ensures
        read_wallet(wallet.to_bytes() + tail) == Some((wallet, wallet.to_bytes().len())),
{
    let r6 = seq![wallet.bump] + tail;
    let r5 = spec_u32_to_le_bytes(wallet.member_set_seqno) + r6;
    let r4 = spec_u64_to_le_bytes(wallet.tx_nonce) + r5;
    let r3 = spec_u16_to_le_bytes(wallet.threshold) + r4;
    let r2 = pubkeys_bytes(wallet.members) + r3;
    let r1 = len_bytes(wallet.members.len()) + r2;
    let b = wallet.to_bytes() + tail;
    assert(b =~= wallet.base.seq() + r1);
    lemma_read_pubkey(wallet.base, r1);
    lemma_read_len(wallet.members.len(), r2);
    lemma_read_pubkeys(wallet.members, r3);
    lemma_read_u16(wallet.threshold, r4);
    lemma_read_u64(wallet.tx_nonce, r5);
    lemma_read_u32(wallet.member_set_seqno, r6);
    lemma_read_u8(wallet.bump, tail);
    let n2 = pubkeys_bytes(wallet.members).len() as int;
    assert(b.skip(32) == r1);
    assert(b.skip(36) == r2) by {
        lemma_skip_skip(b, 32, 4);
    }
    assert(b.skip(36 + n2) == r3) by {
        lemma_skip_skip(b, 36, n2);
    }
    assert(b.skip(38 + n2) == r4) by {
        lemma_skip_skip(b, 36 + n2, 2);
    }
    assert(b.skip(46 + n2) == r5) by {
        lemma_skip_skip(b, 38 + n2, 8);
    }
    assert(b.skip(50 + n2) == r6) by {
        lemma_skip_skip(b, 46 + n2, 4);
    }
}

/// A wallet that can be written is read back from its record, whatever follows the record
/// in the space that was reserved for it.
pub proof fn theorem_wallet_round_trip(wallet: MultisigWalletView, tail: Seq<u8>)
    requires
        wallet.encodable(),
    ensures
        read_wallet_record(wallet.record() + tail) == Some(wallet),
{
    let b = wallet.record() + tail;
    assert(b =~= wallet_discriminator() + (wallet.to_bytes() + tail));
    lemma_split(wallet_discriminator(), wallet.to_bytes() + tail);
    theorem_read_wallet(wallet, tail);
}

/// Reading undoes writing, for an account reference.
pub proof fn lemma_read_account_meta(meta: AccountMeta, tail: Seq<u8>)
    ensures
        read_account_meta(account_meta_bytes(meta) + tail) == Some((meta, 34nat)),
        account_meta_bytes(meta).len() == 34,
        (account_meta_bytes(meta) + tail).skip(34) == tail,
{
    let r2 = bool_bytes(meta.is_writable) + tail;
    let r1 = bool_bytes(meta.is_signer) + r2;
    let b = account_meta_bytes(meta) + tail;
    assert(b =~= meta.pubkey.seq() + r1);
    lemma_read_pubkey(meta.pubkey, r1);
    lemma_read_bool(meta.is_signer, r2);
    lemma_read_bool(meta.is_writable, tail);
    assert(b.skip(33) == r2) by {
        lemma_skip_skip(b, 32, 1);
    }
    assert(b.skip(34) == tail) by {
        lemma_skip_skip(b, 33, 1);
    }
}

/// Reading undoes writing, for a list of account references.
pub proof fn lemma_read_account_metas(metas: Seq<AccountMeta>, tail: Seq<u8>)
    ensures
        read_account_metas(account_metas_bytes(metas) + tail, metas.len()) == Some(
            (metas, account_metas_bytes(metas).len()),
        ),
        (account_metas_bytes(metas) + tail).skip(account_metas_bytes(metas).len() as int) == tail,
    decreases metas.len(),
{
    let b = account_metas_bytes(metas) + tail;
    lemma_split(account_metas_bytes(metas), tail);
    if metas.len() > 0 {
        let front = metas.drop_last();
        let rest = account_meta_bytes(metas.last()) + tail;
        assert(b =~= account_metas_bytes(front) + rest);
        lemma_read_account_metas(front, rest);
        lemma_read_account_meta(metas.last(), tail);
        assert(front.push(metas.last()) =~= metas);
    }
}

/// Reading undoes writing, for a descriptor.
pub proof fn lemma_read_instruction(ix: InstructionView, tail: Seq<u8>)
    requires
        ix.encodable(),
    ensures
        read_instruction(ix.to_bytes() + tail) == Some((ix, ix.to_bytes().len())),
        (ix.to_bytes() + tail).skip(ix.to_bytes().len() as int) == tail,
{
    let r4 = ix.data + tail;
    let r3 = len_bytes(ix.data.len()) + r4;
    let r2 = account_metas_bytes(ix.keys) + r3;
    let r1 = len_bytes(ix.keys.len()) + r2;
    let b = ix.to_bytes() + tail;
    assert(b =~= ix.program_id.seq() + r1);
    lemma_split(ix.to_bytes(), tail);
    lemma_read_pubkey(ix.program_id, r1);
    lemma_read_len(ix.keys.len(), r2);
    lemma_read_account_metas(ix.keys, r3);
    lemma_read_len(ix.data.len(), r4);
    lemma_split(ix.data, tail);
    let n2 = account_metas_bytes(ix.keys).len() as int;
    assert(b.skip(32) == r1);
    assert(b.skip(36) == r2) by {
        lemma_skip_skip(b, 32, 4);
    }
    assert(b.skip(36 + n2) == r3) by {
        lemma_skip_skip(b, 36, n2);
    }
    assert(b.skip(40 + n2) == r4) by {
        lemma_skip_skip(b, 36 + n2, 4);
    }
}

/// Reading undoes writing, for a list of descriptors.
pub proof fn lemma_read_instructions(ixs: Seq<InstructionView>, tail: Seq<u8>)
    requires
        instructions_encodable(ixs),
    ensures
        read_instructions(instructions_bytes(ixs) + tail, ixs.len()) == Some(
            (ixs, instructions_bytes(ixs).len()),
        ),
        (instructions_bytes(ixs) + tail).skip(instructions_bytes(ixs).len() as int) == tail,
    decreases ixs.len(),
{
    let b = instructions_bytes(ixs) + tail;
    lemma_split(instructions_bytes(ixs), tail);
    if ixs.len() > 0 {
        let front = ixs.drop_last();
        let rest = ixs.last().to_bytes() + tail;
        assert(b =~= instructions_bytes(front) + rest);
        assert forall|i: int| 0 <= i < front.len() implies (#[trigger] front[i]).encodable() by {
            assert(front[i] == ixs[i]);
        }
        lemma_read_instructions(front, rest);
        lemma_read_instruction(ixs.last(), tail);
        assert(front.push(ixs.last()) =~= ixs);
    }
}

/// Reading undoes writing, for an approval list.
pub proof fn lemma_read_approvals(slots: Seq<Option<i64>>, tail: Seq<u8>)
    ensures
        read_approvals(approvals_bytes(slots) + tail, slots.len()) == Some(
            (slots, approvals_bytes(slots).len()),
        ),
        (approvals_bytes(slots) + tail).skip(approvals_bytes(slots).len() as int) == tail,
    decreases slots.len(),
{
    let b = approvals_bytes(slots) + tail;
    lemma_split(approvals_bytes(slots), tail);
    if slots.len() > 0 {
        let front = slots.drop_last();
        let rest = option_i64_bytes(slots.last()) + tail;
        assert(b =~= approvals_bytes(front) + rest);
        lemma_read_approvals(front, rest);
        lemma_read_option_i64(slots.last(), tail);
        assert(front.push(slots.last()) =~= slots);
    }
}

/// The fields of a proposal that follow its approval list, as they are written, followed
/// by `tail`.
pub open spec fn history_then(transaction: MultisigTransactionView, tail: Seq<u8>) -> Seq<u8> {
    spec_u32_to_le_bytes(transaction.member_set_seqno) + (i64_bytes(transaction.created_at) + (
    transaction.proposer.seq() + (option_pubkey_bytes(transaction.executor) + (option_i64_bytes(
        transaction.executed_at,
    ) + tail))))
}

/// The fields of a proposal as they are written, followed by `tail`.
pub open spec fn fields_then(transaction: MultisigTransactionView, tail: Seq<u8>) -> Seq<u8> {
    len_bytes(transaction.instructions.len()) + (instructions_bytes(transaction.instructions) + (
    transaction.multisig_wallet.seq() + (len_bytes(transaction.approved.len()) + (approvals_bytes(
        transaction.approved,
    ) + history_then(transaction, tail)))))
}

/// Sequences can be put together in any grouping.
pub proof fn lemma_concat_assoc(a: Seq<u8>, b: Seq<u8>, c: Seq<u8>)
    ensures
        (a + b) + c == a + (b + c),
{
    assert((a + b) + c =~= a + (b + c));
}

/// The written fields of a proposal are the fields one after the other.
proof fn lemma_fields_then(transaction: MultisigTransactionView, tail: Seq<u8>)
    ensures
        transaction.to_bytes() + tail == fields_then(transaction, tail),
{
    let t = transaction;
    let x0 = len_bytes(t.instructions.len());
    let x1 = instructions_bytes(t.instructions);
    let x2 = t.multisig_wallet.seq();
    let x3 = len_bytes(t.approved.len());
    let x4 = approvals_bytes(t.approved);
    let x5 = spec_u32_to_le_bytes(t.member_set_seqno);
    let x6 = i64_bytes(t.created_at);
    let x7 = t.proposer.seq();
    let x8 = option_pubkey_bytes(t.executor);
    let x9 = option_i64_bytes(t.executed_at);
    let s9 = x9 + tail;
    let s8 = x8 + s9;
    let s7 = x7 + s8;
    let s6 = x6 + s7;
    let s5 = x5 + s6;
    let s4 = x4 + s5;
    let s3 = x3 + s4;
    let s2 = x2 + s3;
    let s1 = x1 + s2;
    let head1 = x0 + x1;
    let head2 = head1 + x2;
    let head3 = head2 + x3;
    let head4 = head3 + x4;
    let head5 = head4 + x5;
    let head6 = head5 + x6;
    let head7 = head6 + x7;
    let head8 = head7 + x8;
    lemma_concat_assoc(head8, x9, tail);
    lemma_concat_assoc(head7, x8, s9);
    lemma_concat_assoc(head6, x7, s8);
    lemma_concat_assoc(head5, x6, s7);
    lemma_concat_assoc(head4, x5, s6);
    lemma_concat_assoc(head3, x4, s5);
    lemma_concat_assoc(head2, x3, s4);
    lemma_concat_assoc(head1, x2, s3);
    lemma_concat_assoc(x0, x1, s2);
}

/// Reading undoes writing, for the fields of a proposal that follow its approval list.
proof fn lemma_read_transaction_history(
    transaction: MultisigTransactionView,
    b: Seq<u8>,
    at: nat,
    tail: Seq<u8>,
)
    requires
        at <= b.len(),
        b.skip(at as int) == history_then(transaction, tail),
    ensures
        read_transaction_history(
            b,
            transaction.instructions,
            transaction.multisig_wallet,
            transaction.approved,
            at,
        ) == Some(
            (
                transaction,
                at + 44 + option_pubkey_bytes(transaction.executor).len() + option_i64_bytes(
                    transaction.executed_at,
                ).len(),
            ),
        ),
{
    reveal(read_transaction_history);
    let t = transaction;
    let r4 = option_i64_bytes(t.executed_at) + tail;
    let r3 = option_pubkey_bytes(t.executor) + r4;
    let r2 = t.proposer.seq() + r3;
    let r1 = i64_bytes(t.created_at) + r2;
    lemma_read_u32(t.member_set_seqno, r1);
    lemma_read_i64(t.created_at, r2);
    lemma_read_pubkey(t.proposer, r3);
    lemma_read_option_pubkey(t.executor, r4);
    lemma_read_option_i64(t.executed_at, tail);
    let n3 = option_pubkey_bytes(t.executor).len() as int;
    let a = at as int;
    assert(b.skip(a + 4) == r1) by {
        lemma_skip_skip(b, a, 4);
    }
    assert(b.skip(a + 12) == r2) by {
        lemma_skip_skip(b, a + 4, 8);
    }
    assert(b.skip(a + 44) == r3) by {
        lemma_skip_skip(b, a + 12, 32);
    }
    assert(b.skip(a + 44 + n3) == r4) by {
        lemma_skip_skip(b, a + 44, n3);
    }
}

/// Reading undoes writing, for the fields of a proposal: whatever follows them.
pub proof fn theorem_read_transaction(transaction: MultisigTransactionView, tail: Seq<u8>)
    requires
        transaction.encodable(),
    ensures
        read_transaction(transaction.to_bytes() + tail) == Some(
            (transaction, transaction.to_bytes().len()),
        ),
{
    let t = transaction;
    let r5 = history_then(t, tail);
    let r4 = approvals_bytes(t.approved) + r5;
    let r3 = len_bytes(t.approved.len()) + r4;
    let r2 = t.multisig_wallet.seq() + r3;
    let r1 = instructions_bytes(t.instructions) + r2;
    let b = t.to_bytes() + tail;
    lemma_fields_then(t, tail);
    lemma_read_len(t.instructions.len(), r1);
    lemma_read_instructions(t.instructions, r2);
    lemma_read_pubkey(t.multisig_wallet, r3);
    lemma_read_len(t.approved.len(), r4);
    lemma_read_approvals(t.approved, r5);
    let n1 = instructions_bytes(t.instructions).len() as int;
    let n4 = approvals_bytes(t.approved).len() as int;
    assert(b.skip(4 + n1) == r2) by {
        lemma_skip_skip(b, 4, n1);
    }
    assert(b.skip(36 + n1) == r3) by {
        lemma_skip_skip(b, 4 + n1, 32);
    }
    assert(b.skip(40 + n1) == r4) by {
        lemma_skip_skip(b, 36 + n1, 4);
    }
    assert(b.skip(40 + n1 + n4) == r5) by {
        lemma_skip_skip(b, 40 + n1, n4);
    }
    lemma_read_transaction_history(t, b, (40 + n1 + n4) as nat, tail);
    lemma_transaction_len(t, tail);
}

/// The length of the written fields of a proposal, field by field.
proof fn lemma_transaction_len(transaction: MultisigTransactionView, tail: Seq<u8>)
    ensures
        transaction.to_bytes().len() == 40 + instructions_bytes(transaction.instructions).len()
            + approvals_bytes(transaction.approved).len() + 44 + option_pubkey_bytes(
            transaction.executor,
        ).len() + option_i64_bytes(transaction.executed_at).len(),
{
    lemma_auto_spec_u32_to_from_le_bytes();
    lemma_auto_spec_u64_to_from_le_bytes();
}

/// A proposal that can be written is read back from its record, whatever follows the
/// record in the space that was reserved for it.
pub proof fn theorem_transaction_round_trip(transaction: MultisigTransactionView, tail: Seq<u8>)
    requires
        transaction.encodable(),
    ensures
        read_transaction_record(transaction.record() + tail) == Some(transaction),
{
    let b = transaction.record() + tail;
    assert(b =~= transaction_discriminator() + (transaction.to_bytes() + tail));
    lemma_split(transaction_discriminator(), transaction.to_bytes() + tail);
    theorem_read_transaction(transaction, tail);
}

/// A piece that was read at an offset extends what stands before it.
pub proof fn lemma_extend(b: Seq<u8>, at: int, n: int)
    requires
        0 <= at,
        0 <= n,
        at + n <= b.len(),
    ensures
        b.subrange(0, at + n) == b.subrange(0, at) + b.skip(at).subrange(0, n),
{
    assert(b.subrange(0, at + n) =~= b.subrange(0, at) + b.skip(at).subrange(0, n));
}

/// What is read as a number of two bytes is that number as it is written.
pub proof fn lemma_written_u16(b: Seq<u8>)
    ensures
        read_u16(b) matches Some((x, n)) ==> n <= b.len() && b.subrange(0, n as int)
            == spec_u16_to_le_bytes(x),
{
    lemma_auto_spec_u16_to_from_le_bytes();
}

/// What is read as a number of four bytes is that number as it is written.
pub proof fn lemma_written_u32(b: Seq<u8>)
    ensures
        read_u32(b) matches Some((x, n)) ==> n <= b.len() && b.subrange(0, n as int)
            == spec_u32_to_le_bytes(x),
{
    lemma_auto_spec_u32_to_from_le_bytes();
}

/// What is read as a number of eight bytes is that number as it is written.
pub proof fn lemma_written_u64(b: Seq<u8>)
    ensures
        read_u64(b) matches Some((x, n)) ==> n <= b.len() && b.subrange(0, n as int)
            == spec_u64_to_le_bytes(x),
{
    lemma_auto_spec_u64_to_from_le_bytes();
}

/// What is read as a signed number of eight bytes is that number as it is written.
pub proof fn lemma_written_i64(b: Seq<u8>)
    ensures
        read_i64(b) matches Some((x, n)) ==> n <= b.len() && b.subrange(0, n as int) == i64_bytes(
            x,
        ),
{
    lemma_written_u64(b);
    if b.len() >= 8 {
        let x = spec_u64_from_le_bytes(b.subrange(0, 8));
        assert((x as i64) as u64 == x) by (bit_vector);
    }
}

/// What is read as a flag is that flag as it is written.
pub proof fn lemma_written_bool(b: Seq<u8>)
    ensures
        read_bool(b) matches Some((x, n)) ==> n <= b.len() && b.subrange(0, n as int) == bool_bytes(
            x,
        ),
{
    if read_bool(b) is Some {
        let x = read_bool(b)->Some_0.0;
        assert(b.subrange(0, 1) =~= bool_bytes(x));
    }
}

/// What is read as an identity is that identity as it is written.
pub proof fn lemma_written_pubkey(b: Seq<u8>)
    ensures
        read_pubkey(b) matches Some((x, n)) ==> n <= b.len() && b.subrange(0, n as int) == x.seq(),
{
    if b.len() >= 32 {
        lemma_pubkey_of(b);
    }
}

/// What is read as an optional time is that value as it is written.
pub proof fn lemma_written_option_i64(b: Seq<u8>)
    ensures
        read_option_i64(b) matches Some((x, n)) ==> n <= b.len() && b.subrange(0, n as int)
            == option_i64_bytes(x),
{
    if read_option_i64(b) is Some {
        let (x, n) = read_option_i64(b)->Some_0;
        lemma_written_bool(b);
        match x {
            None => {
                assert(b.subrange(0, 1) =~= option_i64_bytes(x));
            },
            Some(t) => {
                lemma_written_i64(b.skip(1));
                lemma_extend(b, 1, 8);
                assert(b.subrange(0, 1) =~= seq![1u8]);
            },
        }
    }
}

/// What is read as an optional identity is that value as it is written.
pub proof fn lemma_written_option_pubkey(b: Seq<u8>)
    ensures
        read_option_pubkey(b) matches Some((x, n)) ==> n <= b.len() && b.subrange(0, n as int)
            == option_pubkey_bytes(x),
{
    if read_option_pubkey(b) is Some {
        let (x, n) = read_option_pubkey(b)->Some_0;
        lemma_written_bool(b);
        match x {
            None => {
                assert(b.subrange(0, 1) =~= option_pubkey_bytes(x));
            },
            Some(p) => {
                lemma_written_pubkey(b.skip(1));
                lemma_extend(b, 1, 32);
                assert(b.subrange(0, 1) =~= seq![1u8]);
            },
        }
    }
}

/// What is read as a list of identities is that list as it is written.
pub proof fn lemma_written_pubkeys(b: Seq<u8>, n: nat)
    ensures
        read_pubkeys(b, n) matches Some((keys, used)) ==> keys.len() == n && used <= b.len()
            && b.subrange(0, used as int) == pubkeys_bytes(keys),
    decreases n,
{
    if read_pubkeys(b, n) is Some {
        let (keys, used) = read_pubkeys(b, n)->Some_0;
        if n == 0 {
            assert(b.subrange(0, 0) =~= pubkeys_bytes(keys));
        } else {
            lemma_written_pubkeys(b, (n - 1) as nat);
            let (front, at) = read_pubkeys(b, (n - 1) as nat)->Some_0;
            lemma_written_pubkey(b.skip(at as int));
            lemma_extend(b, at as int, 32);
            assert(keys.drop_last() =~= front);
        }
    }
}

/// What is read as an account reference is that reference as it is written.
pub proof fn lemma_written_account_meta(b: Seq<u8>)
    ensures
        read_account_meta(b) matches Some((x, n)) ==> n <= b.len() && b.subrange(0, n as int)
            == account_meta_bytes(x),
{
    if read_account_meta(b) is Some {
        lemma_written_pubkey(b);
        lemma_written_bool(b.skip(32));
        lemma_written_bool(b.skip(33));
        lemma_extend(b, 32, 1);
        lemma_extend(b, 33, 1);
    }
}

/// What is read as a list of account references is that list as it is written.
pub proof fn lemma_written_account_metas(b: Seq<u8>, n: nat)
    ensures
        read_account_metas(b, n) matches Some((metas, used)) ==> metas.len() == n && used
            <= b.len() && b.subrange(0, used as int) == account_metas_bytes(metas),
    decreases n,
{
    if read_account_metas(b, n) is Some {
        let (metas, used) = read_account_metas(b, n)->Some_0;
        if n == 0 {
            assert(b.subrange(0, 0) =~= account_metas_bytes(metas));
        } else {
            lemma_written_account_metas(b, (n - 1) as nat);
            let (front, at) = read_account_metas(b, (n - 1) as nat)->Some_0;
            lemma_written_account_meta(b.skip(at as int));
            lemma_extend(b, at as int, used - at);
            assert(metas.drop_last() =~= front);
        }
    }
}

/// What is read as a descriptor is that descriptor as it is written, and can be written.
pub proof fn lemma_written_instruction(b: Seq<u8>)
    ensures
        read_instruction(b) matches Some((ix, n)) ==> ix.encodable() && n <= b.len()
            && b.subrange(0, n as int) == ix.to_bytes(),
{
    if read_instruction(b) is Some {
        let (ix, n) = read_instruction(b)->Some_0;
        lemma_written_pubkey(b);
        lemma_written_u32(b.skip(32));
        let count = read_u32(b.skip(32))->Some_0.0;
        lemma_written_account_metas(b.skip(36), count as nat);
        let n2 = read_account_metas(b.skip(36), count as nat)->Some_0.1 as int;
        lemma_written_u32(b.skip(36 + n2));
        let size = read_u32(b.skip(36 + n2))->Some_0.0;
        lemma_extend(b, 32, 4);
        lemma_extend(b, 36, n2);
        lemma_extend(b, 36 + n2, 4);
        lemma_extend(b, 40 + n2, size as int);
    }
}

/// What is read as a list of descriptors is that list as it is written, and can be
/// written.
pub proof fn lemma_written_instructions(b: Seq<u8>, n: nat)
    ensures
        read_instructions(b, n) matches Some((ixs, used)) ==> ixs.len() == n
            && instructions_encodable(ixs) && used <= b.len() && b.subrange(0, used as int)
            == instructions_bytes(ixs),
    decreases n,
{
    if read_instructions(b, n) is Some {
        let (ixs, used) = read_instructions(b, n)->Some_0;
        if n == 0 {
            assert(b.subrange(0, 0) =~= instructions_bytes(ixs));
        } else {
            lemma_written_instructions(b, (n - 1) as nat);
            let (front, at) = read_instructions(b, (n - 1) as nat)->Some_0;
            lemma_written_instruction(b.skip(at as int));
            lemma_extend(b, at as int, used - at);
            assert(ixs.drop_last() =~= front);
            assert forall|i: int| 0 <= i < ixs.len() implies (#[trigger] ixs[i]).encodable() by {
                if i < front.len() {
                    assert(ixs[i] == front[i]);
                }
            }
        }
    }
}

/// What is read as an approval list is that list as it is written.
pub proof fn lemma_written_approvals(b: Seq<u8>, n: nat)
    ensures
        read_approvals(b, n) matches Some((slots, used)) ==> slots.len() == n && used <= b.len()
            && b.subrange(0, used as int) == approvals_bytes(slots),
    decreases n,
{
    if read_approvals(b, n) is Some {
        let (slots, used) = read_approvals(b, n)->Some_0;
        if n == 0 {
            assert(b.subrange(0, 0) =~= approvals_bytes(slots));
        } else {
            lemma_written_approvals(b, (n - 1) as nat);
            let (front, at) = read_approvals(b, (n - 1) as nat)->Some_0;
            lemma_written_option_i64(b.skip(at as int));
            lemma_extend(b, at as int, used - at);
            assert(slots.drop_last() =~= front);
        }
    }
}

/// The fields of a wallet are read only from bytes that are those fields as they are
/// written: the reader accepts nothing else, and a wallet that was read can be written.
pub proof fn theorem_wallet_read_is_written(b: Seq<u8>)
    ensures
        read_wallet(b) matches Some((wallet, n)) ==> wallet.encodable() && n <= b.len()
            && b.subrange(0, n as int) == wallet.to_bytes(),
        read_wallet_record(b) matches Some(wallet) ==> wallet.encodable()
            && wallet.record().is_prefix_of(b),
{
    if read_wallet(b) is Some {
        lemma_written_wallet(b);
    }
    if read_wallet_record(b) is Some {
        let rest = b.skip(8);
        lemma_written_wallet(rest);
        let n = read_wallet(rest)->Some_0.1 as int;
        lemma_extend(b, 8, n);
    }
}

/// What is read as the fields of a wallet is those fields as they are written.
proof fn lemma_written_wallet(b: Seq<u8>)
    requires
        read_wallet(b) is Some,
    ensures
        read_wallet(b)->Some_0.0.encodable(),
        read_wallet(b)->Some_0.1 <= b.len(),
        b.subrange(0, read_wallet(b)->Some_0.1 as int) == read_wallet(b)->Some_0.0.to_bytes(),
{
    lemma_written_pubkey(b);
    lemma_written_u32(b.skip(32));
    let count = read_u32(b.skip(32))->Some_0.0;
    lemma_written_pubkeys(b.skip(36), count as nat);
    let n2 = read_pubkeys(b.skip(36), count as nat)->Some_0.1 as int;
    lemma_written_u16(b.skip(36 + n2));
    lemma_written_u64(b.skip(38 + n2));
    lemma_written_u32(b.skip(46 + n2));
    lemma_extend(b, 32, 4);
    lemma_extend(b, 36, n2);
    lemma_extend(b, 36 + n2, 2);
    lemma_extend(b, 38 + n2, 8);
    lemma_extend(b, 46 + n2, 4);
    lemma_extend(b, 50 + n2, 1);
    assert(b.skip(50 + n2).subrange(0, 1) =~= seq![b.skip(50 + n2)[0]]);
}

/// What is read as the fields of a proposal that follow its approval list is those fields
/// as they are written.
proof fn lemma_written_history(
    b: Seq<u8>,
    instructions: Seq<InstructionView>,
    multisig_wallet: Pubkey,
    approved: Seq<Option<i64>>,
    at: nat,
)
    requires
        at <= b.len(),
        read_transaction_history(b, instructions, multisig_wallet, approved, at) is Some,
    ensures
        ({
            let (t, n) = read_transaction_history(
                b,
                instructions,
                multisig_wallet,
                approved,
                at,
            )->Some_0;
            &&& t.instructions == instructions
            &&& t.multisig_wallet == multisig_wallet
            &&& t.approved == approved
            &&& at <= n <= b.len()
            &&& b.subrange(0, n as int) == b.subrange(0, at as int) + spec_u32_to_le_bytes(
                t.member_set_seqno,
            ) + i64_bytes(t.created_at) + t.proposer.seq() + option_pubkey_bytes(t.executor)
                + option_i64_bytes(t.executed_at)
        }),
{
    reveal(read_transaction_history);
    let a = at as int;
    lemma_written_u32(b.skip(a));
    lemma_written_i64(b.skip(a + 4));
    lemma_written_pubkey(b.skip(a + 12));
    lemma_written_option_pubkey(b.skip(a + 44));
    let n3 = read_option_pubkey(b.skip(a + 44))->Some_0.1 as int;
    lemma_written_option_i64(b.skip(a + 44 + n3));
    let n4 = read_option_i64(b.skip(a + 44 + n3))->Some_0.1 as int;
    lemma_extend(b, a, 4);
    lemma_extend(b, a + 4, 8);
    lemma_extend(b, a + 12, 32);
    lemma_extend(b, a + 44, n3);
    lemma_extend(b, a + 44 + n3, n4);
}

/// What is read as the fields of a proposal is those fields as they are written.
proof fn lemma_written_transaction(b: Seq<u8>)
    requires
        read_transaction(b) is Some,
    ensures
        read_transaction(b)->Some_0.0.encodable(),
        read_transaction(b)->Some_0.1 <= b.len(),
        b.subrange(0, read_transaction(b)->Some_0.1 as int) == read_transaction(
            b,
        )->Some_0.0.to_bytes(),
{
    lemma_written_u32(b);
    let count = read_u32(b)->Some_0.0;
    lemma_written_instructions(b.skip(4), count as nat);
    let (instructions, used1) = read_instructions(b.skip(4), count as nat)->Some_0;
    let n1 = used1 as int;
    lemma_written_pubkey(b.skip(4 + n1));
    let multisig_wallet = read_pubkey(b.skip(4 + n1))->Some_0.0;
    lemma_written_u32(b.skip(36 + n1));
    let slots = read_u32(b.skip(36 + n1))->Some_0.0;
    lemma_written_approvals(b.skip(40 + n1), slots as nat);
    let (approved, used4) = read_approvals(b.skip(40 + n1), slots as nat)->Some_0;
    let n4 = used4 as int;
    lemma_extend(b, 4, n1);
    lemma_extend(b, 4 + n1, 32);
    lemma_extend(b, 36 + n1, 4);
    lemma_extend(b, 40 + n1, n4);
    lemma_written_history(b, instructions, multisig_wallet, approved, (40 + n1 + n4) as nat);
}

/// The fields of a proposal are read only from bytes that are those fields as they are
/// written: the reader accepts nothing else, and a proposal that was read can be written.
pub proof fn theorem_transaction_read_is_written(b: Seq<u8>)
    ensures
        read_transaction(b) matches Some((transaction, n)) ==> transaction.encodable() && n
            <= b.len() && b.subrange(0, n as int) == transaction.to_bytes(),
        read_transaction_record(b) matches Some(transaction) ==> transaction.encodable()
            && transaction.record().is_prefix_of(b),
{
    if read_transaction(b) is Some {
        lemma_written_transaction(b);
    }
    if read_transaction_record(b) is Some {
        let rest = b.skip(8);
        lemma_written_transaction(rest);
        let n = read_transaction(rest)->Some_0.1 as int;
        lemma_extend(b, 8, n);
    }
}

} // verus!
