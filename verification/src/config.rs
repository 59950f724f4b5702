//! Where a command-line client takes its cluster and its signer from: an argument where
//! one is given, else the configuration file.
use vstd::prelude::*;
use solana_program::pubkey::ParsePubkeyError;
use std::str::FromStr;
use crate::pubkey::Pubkey;

verus! {

/// Why the host's library takes a string for no address: it is of the wrong size, or holds a
/// character that is no base-58 digit.
#[verifier::external_type_specification]
#[verifier::external_body]
pub struct ExParsePubkeyError(ParsePubkeyError);

/// The address that a string denotes in base 58, or `None` where it denotes none.
pub uninterp spec fn base58_pubkey(text: Seq<char>) -> Option<Pubkey>;

/// Calls `solana_program::pubkey::Pubkey::from_str`, which decodes 32 bytes from base 58.
/// Trusted: whether and to what a string decodes depends on the string alone, which is what
/// makes [`base58_pubkey`] a function.
#[verifier::external_body]
fn parse_pubkey(text: &str) -> (r: Result<Pubkey, ParsePubkeyError>)
    ensures
        match r {
            Ok(pubkey) => base58_pubkey(text@) == Some(pubkey),
            Err(_) => base58_pubkey(text@) is None,
        },
{
    match solana_program::pubkey::Pubkey::from_str(text) {
        Ok(key) => Ok(Pubkey { bytes: key.to_bytes() }),
        Err(e) => Err(e),
    }
}

/// Parses an address from its base-58 string.
pub fn pubkey_arg(pubkey: &str) -> (r: Result<Pubkey, ParsePubkeyError>)
    ensures
        match r {
            Ok(key) => base58_pubkey(pubkey@) == Some(key),
            Err(_) => base58_pubkey(pubkey@) is None,
        },
{
    parse_pubkey(pubkey)
}

/// The address that an argument gives where it is an address in base 58. `None` says that
/// the argument is to be read as the place of a signer, whose address is then meant.
pub fn pubkey_or_signer_path(input: &str) -> (r: Option<Pubkey>)
    ensures
        r == base58_pubkey(input@),
{
    match pubkey_arg(input) {
        Ok(key) => Some(key),
        Err(_) => None,
    }
}

/// The addresses that are there, in order.
pub open spec fn resolved_members(resolved: Seq<Option<Pubkey>>) -> Seq<Pubkey>
    decreases resolved.len(),
{
    if resolved.len() == 0 {
        Seq::empty()
    } else {
        resolved_members(resolved.drop_last()) + match resolved.last() {
            Some(key) => seq![key],
            None => Seq::<Pubkey>::empty(),
        }
    }
}

/// The member list that a client asks for: the members that could be resolved, in the
/// order of the arguments, and after them the client's own signer where it is to be
/// included. An argument that could not be resolved is left out.
pub fn member_list(resolved: &Vec<Option<Pubkey>>, signer: Option<Pubkey>) -> (r: Vec<Pubkey>)
    ensures
        r@ == resolved_members(resolved@) + match signer {
            Some(key) => seq![key],
            None => Seq::<Pubkey>::empty(),
        },
{
    let mut members: Vec<Pubkey> = Vec::new();
    let mut i: usize = 0;
    assert(members@ =~= resolved_members(resolved@.subrange(0, 0)));
    while i < resolved.len()
        invariant
            i <= resolved.len(),
            members@ == resolved_members(resolved@.subrange(0, i as int)),
        decreases resolved.len() - i,
    {
        if let Some(key) = resolved[i] {
            members.push(key);
        }
        proof {
            let next = resolved@.subrange(0, i + 1);
            assert(next.drop_last() =~= resolved@.subrange(0, i as int));
            assert(members@ =~= resolved_members(next));
        }
        i += 1;
    }
    assert(resolved@.subrange(0, i as int) =~= resolved@);
    if let Some(key) = signer {
        members.push(key);
    }
    members
}

/// What a client reads of the command-line tools' configuration file.
#[derive(Clone, Debug, PartialEq, Eq)]
pub struct Config {
    /// The address of the cluster.
    pub json_rpc_url: String,
    /// Where the default signer is kept.
    pub keypair_path: String,
}

/// The value to use where an argument may have been given and a configuration may be at
/// hand: the argument goes first. `None` says that neither is there.
pub open spec fn first_given(argument: Option<String>, configured: Option<String>) -> Option<
    String,
> {
    match argument {
        Some(value) => Some(value),
        None => configured,
    }
}

/// The `-u/--url` argument: the target URL for the cluster.
#[derive(Clone, Debug, PartialEq, Eq)]
pub struct UrlArg {
    /// The target URL for the cluster, where one was given.
    pub url: Option<String>,
}

impl UrlArg {
    /// The URL to connect to: the argument, else the configuration's. `None` where there
    /// is neither, and the configuration file has to be loaded first.
    pub fn resolve(&self, config: Option<&Config>) -> (r: Option<String>)
        ensures
            r == first_given(
                self.url,
                match config {
                    Some(c) => Some(c.json_rpc_url),
                    None => None,
                },
            ),
    {
        if let Some(url) = &self.url {
            return Some(url.clone());
        }
        if let Some(config) = config {
            return Some(config.json_rpc_url.clone());
        }
        None
    }
}

/// The `-k/--keypair` argument: the signer of the client's requests.
#[derive(Clone, Debug, PartialEq, Eq)]
pub struct KeypairArg {
    /// Where the signer is kept, where a place was given.
    pub keypair: Option<String>,
    /// Skip the validation of a seed phrase (not recommended).
    pub skip_seed_phrase_validation: bool,
    /// Confirm the signer by hand before proceeding.
    pub confirm_key: bool,
}

impl KeypairArg {
    /// The place to read the signer from: the argument, else the configuration's. `None`
    /// where there is neither, and the configuration file has to be loaded first.
    pub fn resolve(&self, config: Option<&Config>) -> (r: Option<String>)
        ensures
            r == first_given(
                self.keypair,
                match config {
                    Some(c) => Some(c.keypair_path),
                    None => None,
                },
            ),
    {
        if let Some(path) = &self.keypair {
            return Some(path.clone());
        }
        if let Some(config) = config {
            return Some(config.keypair_path.clone());
        }
        None
    }
}

} // verus!
