//! Deterministic addresses: where a wallet and its proposals live.
//!
//! An address is derived from a list of byte strings (the seeds) and the identity of the
//! program that owns it. No private key belongs to such an address, so only that program
//! can authorize operations in its name.
use vstd::prelude::*;
use vstd::bytes::spec_u64_to_le_bytes;
use vstd::bytes::u64_to_le_bytes;
use crate::pubkey::Pubkey;
use crate::state::MultisigWallet;

verus! {

/// The address and the bump byte that the host's derivation yields for a list of seeds
/// under a program, or `None` where it yields none.
pub uninterp spec fn program_address(seeds: Seq<Seq<u8>>, program_id: Pubkey) -> Option<
    (Pubkey, u8),
>;

/// The byte strings of a list of seeds, in order.
pub open spec fn seeds_view(seeds: Seq<Vec<u8>>) -> Seq<Seq<u8>> {
    seeds.map_values(|s: Vec<u8>| s@)
}

/// Calls `solana_program::pubkey::Pubkey::try_find_program_address`, which hashes the
/// seeds, one candidate bump byte and the program's identity until the hash is no curve
/// point. Trusted: the call's outcome depends on the seeds and the program alone, which is
/// what makes [`program_address`] a function.
#[verifier::external_body]
fn try_find_program_address(seeds: &Vec<Vec<u8>>, program_id: &Pubkey) -> (r: Option<(Pubkey, u8)>)
    ensures
        r == program_address(seeds_view(seeds@), *program_id),
{
    let parts: Vec<&[u8]> = seeds.iter().map(|s| s.as_slice()).collect();
    let id = solana_program::pubkey::Pubkey::new_from_array(program_id.bytes);
    match solana_program::pubkey::Pubkey::try_find_program_address(&parts, &id) {
        Some((key, bump)) => Some((Pubkey { bytes: key.to_bytes() }, bump)),
        None => None,
    }
}

/// The identity of this program, `H1wPJB59dvpLrMmdcJ6dxQSMmXsm6TSRxkNUtC4CFDs1`.
pub open spec fn spec_id() -> Pubkey {
    Pubkey {
        bytes: [
            237u8, 248u8, 123u8, 197u8, 25u8, 138u8, 80u8, 66u8, 98u8, 154u8, 207u8, 25u8,
            141u8, 224u8, 113u8, 108u8, 22u8, 236u8, 27u8, 183u8, 51u8, 109u8, 91u8, 230u8,
            21u8, 155u8, 116u8, 160u8, 172u8, 145u8, 69u8, 4u8,
        ],
    }
}

/// The identity of this program.
pub fn id() -> (r: Pubkey)
    ensures
        r == spec_id(),
{
    let r = Pubkey {
        bytes: [
            237u8, 248u8, 123u8, 197u8, 25u8, 138u8, 80u8, 66u8, 98u8, 154u8, 207u8, 25u8,
            141u8, 224u8, 113u8, 108u8, 22u8, 236u8, 27u8, 183u8, 51u8, 109u8, 91u8, 230u8,
            21u8, 155u8, 116u8, 160u8, 172u8, 145u8, 69u8, 4u8,
        ],
    };
    assert(r.bytes =~= spec_id().bytes);
    r
}

/// The bytes of `MultisigWallet`, the first seed of every wallet address.
pub open spec fn wallet_tag() -> Seq<u8> {
    seq![
        77u8, 117u8, 108u8, 116u8, 105u8, 115u8, 105u8, 103u8, 87u8, 97u8, 108u8, 108u8, 101u8,
        116u8,
    ]
}

/// The bytes of `MultisigTransaction`, the first seed of every proposal address.
pub open spec fn transaction_tag() -> Seq<u8> {
    seq![
        77u8, 117u8, 108u8, 116u8, 105u8, 115u8, 105u8, 103u8, 84u8, 114u8, 97u8, 110u8, 115u8,
        97u8, 99u8, 116u8, 105u8, 111u8, 110u8,
    ]
}

/// The seeds of the wallet made from the entropy seed `base`.
pub open spec fn wallet_seeds(base: Pubkey) -> Seq<Seq<u8>> {
    seq![wallet_tag(), base.seq()]
}

/// The seeds of the proposal that a wallet makes when its counter stands at `tx_nonce`:
/// the counter enters as eight bytes, least significant first.
pub open spec fn transaction_seeds(multisig_wallet: Pubkey, tx_nonce: u64) -> Seq<Seq<u8>> {
    seq![transaction_tag(), multisig_wallet.seq(), spec_u64_to_le_bytes(tx_nonce)]
}

/// The seeds under which a wallet signs: those of its address, and the bump byte that it
/// recorded when it was created.
pub open spec fn signer_seeds(base: Pubkey, bump: u8) -> Seq<Seq<u8>> {
    seq![wallet_tag(), base.seq(), seq![bump]]
}

/// The address and bump of the wallet made from `base`.
pub open spec fn wallet_address(base: Pubkey) -> Option<(Pubkey, u8)> {
    program_address(wallet_seeds(base), spec_id())
}

/// The address and bump of a wallet's proposal number `tx_nonce`.
pub open spec fn transaction_address(multisig_wallet: Pubkey, tx_nonce: u64) -> Option<
    (Pubkey, u8),
> {
    program_address(transaction_seeds(multisig_wallet, tx_nonce), spec_id())
}

/// The address of the wallet made from `base`.
pub open spec fn wallet_key(base: Pubkey) -> Option<Pubkey> {
    match wallet_address(base) {
        Some((address, _)) => Some(address),
        None => None,
    }
}

/// The address of a wallet's proposal number `tx_nonce`.
pub open spec fn transaction_key(multisig_wallet: Pubkey, tx_nonce: u64) -> Option<Pubkey> {
    match transaction_address(multisig_wallet, tx_nonce) {
        Some((address, _)) => Some(address),
        None => None,
    }
}

/// The first seed of every wallet address.
pub fn wallet_tag_bytes() -> (r: Vec<u8>)
    ensures
        r@ == wallet_tag(),
{
    let r: Vec<u8> = vec![
        77u8, 117u8, 108u8, 116u8, 105u8, 115u8, 105u8, 103u8, 87u8, 97u8, 108u8, 108u8, 101u8,
        116u8,
    ];
    assert(r@ =~= wallet_tag());
    r
}

/// The first seed of every proposal address.
pub fn transaction_tag_bytes() -> (r: Vec<u8>)
    ensures
        r@ == transaction_tag(),
{
    let r: Vec<u8> = vec![
        77u8, 117u8, 108u8, 116u8, 105u8, 115u8, 105u8, 103u8, 84u8, 114u8, 97u8, 110u8, 115u8,
        97u8, 99u8, 116u8, 105u8, 111u8, 110u8,
    ];
    assert(r@ =~= transaction_tag());
    r
}

/// The seeds under which the wallet signs the operations that its members had executed.
/// They are handed to the host with each operation, and to nobody else.
pub fn multisig_wallet_seeds(wallet: &MultisigWallet) -> (r: Vec<Vec<u8>>)
    ensures
        seeds_view(r@) == signer_seeds(wallet.base, wallet.bump),
{
    let mut seeds: Vec<Vec<u8>> = Vec::new();
    seeds.push(wallet_tag_bytes());
    seeds.push(wallet.base.to_vec());
    let mut bump: Vec<u8> = Vec::new();
    bump.push(wallet.bump);
    assert(bump@ =~= seq![wallet.bump]);
    seeds.push(bump);
    assert(seeds_view(seeds@) =~= signer_seeds(wallet.base, wallet.bump));
    seeds
}

/// Derives the wallet made from `base`: its address and the bump byte to record in it.
pub fn derive_wallet(base: &Pubkey) -> (r: Option<(Pubkey, u8)>)
    ensures
        r == wallet_address(*base),
{
    let mut seeds: Vec<Vec<u8>> = Vec::new();
    seeds.push(wallet_tag_bytes());
    seeds.push(base.to_vec());
    assert(seeds_view(seeds@) =~= wallet_seeds(*base));
    try_find_program_address(&seeds, &id())
}

/// Derives the proposal that a wallet makes when its counter stands at `tx_nonce`.
pub fn derive_transaction(multisig_wallet: &Pubkey, tx_nonce: u64) -> (r: Option<(Pubkey, u8)>)
    ensures
        r == transaction_address(*multisig_wallet, tx_nonce),
{
    let mut seeds: Vec<Vec<u8>> = Vec::new();
    seeds.push(transaction_tag_bytes());
    seeds.push(multisig_wallet.to_vec());
    seeds.push(u64_to_le_bytes(tx_nonce));
    assert(seeds_view(seeds@) =~= transaction_seeds(*multisig_wallet, tx_nonce));
    try_find_program_address(&seeds, &id())
}

/// The address of the wallet made from `base`, where the derivation yields one.
pub fn find_multisig_wallet_address(base: &Pubkey) -> (r: Option<Pubkey>)
    ensures
        r == wallet_key(*base),
{
    match derive_wallet(base) {
        Some((address, _)) => Some(address),
        None => None,
    }
}

/// The address of a wallet's proposal number `tx_nonce`, where the derivation yields one.
pub fn find_multisig_transaction_address(multisig_wallet: &Pubkey, tx_nonce: u64) -> (r: Option<
    Pubkey,
>)
    ensures
        r == transaction_key(*multisig_wallet, tx_nonce),
{
    match derive_transaction(multisig_wallet, tx_nonce) {
        Some((address, _)) => Some(address),
        None => None,
    }
}

} // verus!
