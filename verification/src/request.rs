//! The requests as they travel: a tag of eight bytes that names the request, followed by
//! its arguments in their persisted form.
use vstd::prelude::*;
use vstd::bytes::spec_u16_to_le_bytes;
use crate::layout::all_encodable;
use crate::layout::instructions_bytes;
use crate::layout::instructions_encodable;
use crate::layout::len_bytes;
use crate::layout::pubkeys_bytes;
use crate::layout::put_instructions;
use crate::layout::put_len;
use crate::layout::put_pubkeys;
use crate::layout::put_u16;
use crate::parse::get_instructions;
use crate::parse::get_pubkeys;
use crate::parse::get_u16;
use crate::parse::get_u32;
use crate::parse::lemma_read_instructions;
use crate::parse::lemma_read_len;
use crate::parse::lemma_read_pubkeys;
use crate::parse::lemma_extend;
use crate::parse::lemma_read_u16;
use crate::parse::lemma_skip_skip;
use crate::parse::lemma_split;
use crate::parse::lemma_written_instructions;
use crate::parse::lemma_written_pubkeys;
use crate::parse::lemma_written_u16;
use crate::parse::lemma_written_u32;
use crate::parse::read_instructions;
use crate::parse::starts_with;
use crate::parse::read_pubkeys;
use crate::parse::read_u16;
use crate::parse::read_u32;
use crate::pubkey::Pubkey;
use crate::state::instruction_views;
use crate::state::Instruction;
use crate::state::InstructionView;

verus! {

/// A request to the multisig, with its arguments.
#[derive(Clone, Debug, PartialEq)]
pub enum Request {
    /// Create a wallet with this threshold and these members.
    NewMultisig { threshold: u16, members: Vec<Pubkey> },
    /// Propose these operations.
    NewTransaction { instructions: Vec<Instruction> },
    /// Approve a proposal.
    Approve,
    /// Retract the approval of a proposal.
    Unapprove,
    /// Execute a proposal.
    Execute,
    /// Set the threshold of the wallet.
    ChangeThreshold { threshold: u16 },
    /// Replace the members of the wallet.
    ChangeMembers { members: Vec<Pubkey> },
}

/// What a [`Request`] holds.
#[verifier::ext_equal]
pub enum RequestView {
    NewMultisig { threshold: u16, members: Seq<Pubkey> },
    NewTransaction { instructions: Seq<InstructionView> },
    Approve,
    Unapprove,
    Execute,
    ChangeThreshold { threshold: u16 },
    ChangeMembers { members: Seq<Pubkey> },
}

impl View for Request {
    type V = RequestView;

    open spec fn view(&self) -> RequestView {
        match self {
            Request::NewMultisig { threshold, members } => RequestView::NewMultisig {
                threshold: *threshold,
                members: members@,
            },
            Request::NewTransaction { instructions } => RequestView::NewTransaction {
                instructions: instruction_views(instructions@),
            },
            Request::Approve => RequestView::Approve,
            Request::Unapprove => RequestView::Unapprove,
            Request::Execute => RequestView::Execute,
            Request::ChangeThreshold { threshold } => RequestView::ChangeThreshold {
                threshold: *threshold,
            },
            Request::ChangeMembers { members } => RequestView::ChangeMembers { members: members@ },
        }
    }
}

/// The tag of a request to create a wallet.
pub open spec fn new_multisig_tag() -> Seq<u8> {
    seq![148u8, 150u8, 214u8, 133u8, 252u8, 109u8, 36u8, 236u8]
}

/// The tag of a request to propose a transaction.
pub open spec fn new_transaction_tag() -> Seq<u8> {
    seq![146u8, 11u8, 177u8, 2u8, 249u8, 202u8, 151u8, 134u8]
}

/// The tag of a request to approve.
pub open spec fn approve_tag() -> Seq<u8> {
    seq![69u8, 74u8, 217u8, 36u8, 115u8, 117u8, 97u8, 76u8]
}

/// The tag of a request to retract an approval.
pub open spec fn unapprove_tag() -> Seq<u8> {
    seq![5u8, 92u8, 229u8, 161u8, 250u8, 166u8, 122u8, 171u8]
}

/// The tag of a request to execute.
pub open spec fn execute_tag() -> Seq<u8> {
    seq![130u8, 221u8, 242u8, 154u8, 13u8, 193u8, 189u8, 29u8]
}

/// The tag of a request to set the threshold.
pub open spec fn change_threshold_tag() -> Seq<u8> {
    seq![146u8, 151u8, 213u8, 63u8, 121u8, 79u8, 9u8, 29u8]
}

/// The tag of a request to replace the members.
pub open spec fn change_members_tag() -> Seq<u8> {
    seq![161u8, 177u8, 33u8, 130u8, 210u8, 73u8, 48u8, 215u8]
}

impl RequestView {
    /// The tag that names the request.
    pub open spec fn tag(self) -> Seq<u8> {
        match self {
            RequestView::NewMultisig { .. } => new_multisig_tag(),
            RequestView::NewTransaction { .. } => new_transaction_tag(),
            RequestView::Approve => approve_tag(),
            RequestView::Unapprove => unapprove_tag(),
            RequestView::Execute => execute_tag(),
            RequestView::ChangeThreshold { .. } => change_threshold_tag(),
            RequestView::ChangeMembers { .. } => change_members_tag(),
        }
    }

    /// The arguments as they are written.
    pub open spec fn arguments(self) -> Seq<u8> {
        match self {
            RequestView::NewMultisig { threshold, members } => spec_u16_to_le_bytes(threshold) + (
            len_bytes(members.len()) + pubkeys_bytes(members)),
            RequestView::NewTransaction { instructions } => len_bytes(instructions.len())
                + instructions_bytes(instructions),
            RequestView::Approve => Seq::empty(),
            RequestView::Unapprove => Seq::empty(),
            RequestView::Execute => Seq::empty(),
            RequestView::ChangeThreshold { threshold } => spec_u16_to_le_bytes(threshold),
            RequestView::ChangeMembers { members } => len_bytes(members.len()) + pubkeys_bytes(
                members,
            ),
        }
    }

    /// Whether the request can be written: each of its lists can be counted in four bytes.
    pub open spec fn encodable(self) -> bool {
        match self {
            RequestView::NewMultisig { members, .. } => members.len() <= u32::MAX,
            RequestView::NewTransaction { instructions } => instructions.len() <= u32::MAX
                && instructions_encodable(instructions),
            RequestView::ChangeMembers { members } => members.len() <= u32::MAX,
            _ => true,
        }
    }

    /// The request as it is written: its tag, then its arguments.
    pub open spec fn to_bytes(self) -> Seq<u8> {
        self.tag() + self.arguments()
    }
}

/// Reads the arguments of the request that `tag` names.
pub open spec fn read_arguments(tag: Seq<u8>, b: Seq<u8>) -> Option<RequestView> {
    if tag == new_multisig_tag() {
        match read_u16(b) {
            None => None,
            Some((threshold, n0)) => match read_u32(b.skip(n0 as int)) {
                None => None,
                Some((count, n1)) => match read_pubkeys(b.skip((n0 + n1) as int), count as nat) {
                    None => None,
                    Some((members, _)) => Some(RequestView::NewMultisig { threshold, members }),
                },
            },
        }
    } else if tag == new_transaction_tag() {
        match read_u32(b) {
            None => None,
            Some((count, n0)) => match read_instructions(b.skip(n0 as int), count as nat) {
                None => None,
                Some((instructions, _)) => Some(RequestView::NewTransaction { instructions }),
            },
        }
    } else if tag == approve_tag() {
        Some(RequestView::Approve)
    } else if tag == unapprove_tag() {
        Some(RequestView::Unapprove)
    } else if tag == execute_tag() {
        Some(RequestView::Execute)
    } else if tag == change_threshold_tag() {
        match read_u16(b) {
            None => None,
            Some((threshold, _)) => Some(RequestView::ChangeThreshold { threshold }),
        }
    } else if tag == change_members_tag() {
        match read_u32(b) {
            None => None,
            Some((count, n0)) => match read_pubkeys(b.skip(n0 as int), count as nat) {
                None => None,
                Some((members, _)) => Some(RequestView::ChangeMembers { members }),
            },
        }
    } else {
        None
    }
}

/// Reads a request: its tag, then the arguments that go with the tag. Bytes that follow
/// the arguments are left alone.
pub open spec fn read_request(b: Seq<u8>) -> Option<RequestView> {
    if b.len() >= 8 {
        read_arguments(b.subrange(0, 8), b.skip(8))
    } else {
        None
    }
}

/// The tag of a request to create a wallet.
pub fn new_multisig_tag_bytes() -> (r: Vec<u8>)
    ensures
        r@ == new_multisig_tag(),
{
    let r: Vec<u8> = vec![148u8, 150u8, 214u8, 133u8, 252u8, 109u8, 36u8, 236u8];
    assert(r@ =~= new_multisig_tag());
    r
}

/// The tag of a request to propose a transaction.
pub fn new_transaction_tag_bytes() -> (r: Vec<u8>)
    ensures
        r@ == new_transaction_tag(),
{
    let r: Vec<u8> = vec![146u8, 11u8, 177u8, 2u8, 249u8, 202u8, 151u8, 134u8];
    assert(r@ =~= new_transaction_tag());
    r
}

/// The tag of a request to approve.
pub fn approve_tag_bytes() -> (r: Vec<u8>)
    ensures
        r@ == approve_tag(),
{
    let r: Vec<u8> = vec![69u8, 74u8, 217u8, 36u8, 115u8, 117u8, 97u8, 76u8];
    assert(r@ =~= approve_tag());
    r
}

/// The tag of a request to retract an approval.
pub fn unapprove_tag_bytes() -> (r: Vec<u8>)
    ensures
        r@ == unapprove_tag(),
{
    let r: Vec<u8> = vec![5u8, 92u8, 229u8, 161u8, 250u8, 166u8, 122u8, 171u8];
    assert(r@ =~= unapprove_tag());
    r
}

/// The tag of a request to execute.
pub fn execute_tag_bytes() -> (r: Vec<u8>)
    ensures
        r@ == execute_tag(),
{
    let r: Vec<u8> = vec![130u8, 221u8, 242u8, 154u8, 13u8, 193u8, 189u8, 29u8];
    assert(r@ =~= execute_tag());
    r
}

/// The tag of a request to set the threshold.
pub fn change_threshold_tag_bytes() -> (r: Vec<u8>)
    ensures
        r@ == change_threshold_tag(),
{
    let r: Vec<u8> = vec![146u8, 151u8, 213u8, 63u8, 121u8, 79u8, 9u8, 29u8];
    assert(r@ =~= change_threshold_tag());
    r
}

/// The tag of a request to replace the members.
pub fn change_members_tag_bytes() -> (r: Vec<u8>)
    ensures
        r@ == change_members_tag(),
{
    let r: Vec<u8> = vec![161u8, 177u8, 33u8, 130u8, 210u8, 73u8, 48u8, 215u8];
    assert(r@ =~= change_members_tag());
    r
}

impl Request {
    /// Whether the request can be written.
    pub fn is_encodable(&self) -> (r: bool)
        ensures
            r == self@.encodable(),
    {
        match self {
            Request::NewMultisig { members, .. } => members.len() <= u32::MAX as usize,
            Request::NewTransaction { instructions } => instructions.len() <= u32::MAX as usize
                && all_encodable(instructions),
            Request::ChangeMembers { members } => members.len() <= u32::MAX as usize,
            _ => true,
        }
    }

    /// The request as it is written, or `None` where one of its lists is too long to be
    /// counted.
    pub fn data(&self) -> (r: Option<Vec<u8>>)
        ensures
            match r {
                Some(bytes) => self@.encodable() && bytes@ == self@.to_bytes(),
                None => !self@.encodable(),
            },
    {
        if !self.is_encodable() {
            return None;
        }
        match self {
            Request::NewMultisig { threshold, members } => {
                let mut out = new_multisig_tag_bytes();
                put_u16(&mut out, *threshold);
                put_len(&mut out, members.len());
                put_pubkeys(&mut out, members);
                assert(out@ =~= self@.to_bytes());
                Some(out)
            },
            Request::NewTransaction { instructions } => {
                let mut out = new_transaction_tag_bytes();
                put_len(&mut out, instructions.len());
                put_instructions(&mut out, instructions);
                assert(out@ =~= self@.to_bytes());
                Some(out)
            },
            Request::Approve => {
                let out = approve_tag_bytes();
                assert(out@ =~= self@.to_bytes());
                Some(out)
            },
            Request::Unapprove => {
                let out = unapprove_tag_bytes();
                assert(out@ =~= self@.to_bytes());
                Some(out)
            },
            Request::Execute => {
                let out = execute_tag_bytes();
                assert(out@ =~= self@.to_bytes());
                Some(out)
            },
            Request::ChangeThreshold { threshold } => {
                let mut out = change_threshold_tag_bytes();
                put_u16(&mut out, *threshold);
                Some(out)
            },
            Request::ChangeMembers { members } => {
                let mut out = change_members_tag_bytes();
                put_len(&mut out, members.len());
                put_pubkeys(&mut out, members);
                assert(out@ =~= self@.to_bytes());
                Some(out)
            },
        }
    }

    /// Reads a request. `None` where `data` does not begin with a request.
    pub fn try_from_slice(data: &[u8]) -> (r: Option<Request>)
        ensures
            match r {
                Some(request) => read_request(data@) == Some(request@),
                None => read_request(data@) is None,
            },
    {
        if data.len() < 8 {
            return None;
        }
        if starts_with(data, &new_multisig_tag_bytes()) {
            let (threshold, end1) = get_u16(data, 8)?;
            proof {
                lemma_skip_skip(data@, 8, end1 - 8);
            }
            let (count, end2) = get_u32(data, end1)?;
            proof {
                lemma_skip_skip(data@, 8, end2 - 8);
            }
            let (members, _) = get_pubkeys(data, end2, count as usize)?;
            Some(Request::NewMultisig { threshold, members })
        } else if starts_with(data, &new_transaction_tag_bytes()) {
            let (count, end1) = get_u32(data, 8)?;
            proof {
                lemma_skip_skip(data@, 8, end1 - 8);
            }
            let (instructions, _) = get_instructions(data, end1, count as usize)?;
            Some(Request::NewTransaction { instructions })
        } else if starts_with(data, &approve_tag_bytes()) {
            Some(Request::Approve)
        } else if starts_with(data, &unapprove_tag_bytes()) {
            Some(Request::Unapprove)
        } else if starts_with(data, &execute_tag_bytes()) {
            Some(Request::Execute)
        } else if starts_with(data, &change_threshold_tag_bytes()) {
            let (threshold, _) = get_u16(data, 8)?;
            Some(Request::ChangeThreshold { threshold })
        } else if starts_with(data, &change_members_tag_bytes()) {
            let (count, end1) = get_u32(data, 8)?;
            proof {
                lemma_skip_skip(data@, 8, end1 - 8);
            }
            let (members, _) = get_pubkeys(data, end1, count as usize)?;
            Some(Request::ChangeMembers { members })
        } else {
            None
        }
    }
}

/// No two requests have the same tag.
pub proof fn lemma_tags_differ()
    ensures
        new_multisig_tag() != new_transaction_tag(),
        new_multisig_tag() != approve_tag(),
        new_multisig_tag() != unapprove_tag(),
        new_multisig_tag() != execute_tag(),
        new_multisig_tag() != change_threshold_tag(),
        new_multisig_tag() != change_members_tag(),
        new_transaction_tag() != approve_tag(),
        new_transaction_tag() != unapprove_tag(),
        new_transaction_tag() != execute_tag(),
        new_transaction_tag() != change_threshold_tag(),
        new_transaction_tag() != change_members_tag(),
        approve_tag() != unapprove_tag(),
        approve_tag() != execute_tag(),
        approve_tag() != change_threshold_tag(),
        approve_tag() != change_members_tag(),
        unapprove_tag() != execute_tag(),
        unapprove_tag() != change_threshold_tag(),
        unapprove_tag() != change_members_tag(),
        execute_tag() != change_threshold_tag(),
        execute_tag() != change_members_tag(),
        change_threshold_tag() != change_members_tag(),
{
    assert(new_multisig_tag()[0] == 148);
    assert(new_transaction_tag()[0] == 146 && new_transaction_tag()[1] == 11);
    assert(approve_tag()[0] == 69);
    assert(unapprove_tag()[0] == 5);
    assert(execute_tag()[0] == 130);
    assert(change_threshold_tag()[0] == 146 && change_threshold_tag()[1] == 151);
    assert(change_members_tag()[0] == 161);
}

/// A request that can be written is read back from what was written, whatever follows it.
pub proof fn theorem_request_round_trip(request: RequestView, tail: Seq<u8>)
    requires
        request.encodable(),
    ensures
        read_request(request.to_bytes() + tail) == Some(request),
{
    lemma_tags_differ();
    let rest = request.arguments() + tail;
    let b = request.to_bytes() + tail;
    assert(request.tag().len() == 8);
    assert(b =~= request.tag() + rest);
    lemma_split(request.tag(), rest);
    match request {
        RequestView::NewMultisig { threshold, members } => {
            let r2 = pubkeys_bytes(members) + tail;
            let r1 = len_bytes(members.len()) + r2;
            assert(rest =~= spec_u16_to_le_bytes(threshold) + r1);
            lemma_read_u16(threshold, r1);
            lemma_read_len(members.len(), r2);
            lemma_read_pubkeys(members, tail);
            assert(rest.skip(6) == r2) by {
                lemma_skip_skip(rest, 2, 4);
            }
        },
        RequestView::NewTransaction { instructions } => {
            let r1 = instructions_bytes(instructions) + tail;
            assert(rest =~= len_bytes(instructions.len()) + r1);
            lemma_read_len(instructions.len(), r1);
            lemma_read_instructions(instructions, tail);
        },
        RequestView::ChangeThreshold { threshold } => {
            lemma_read_u16(threshold, tail);
        },
        RequestView::ChangeMembers { members } => {
            let r1 = pubkeys_bytes(members) + tail;
            assert(rest =~= len_bytes(members.len()) + r1);
            lemma_read_len(members.len(), r1);
            lemma_read_pubkeys(members, tail);
        },
        _ => {},
    }
}

/// A request is read only from bytes that begin with that request as it is written: the
/// reader accepts nothing else, and a request that was read can be written.
pub proof fn theorem_request_read_is_written(b: Seq<u8>)
    ensures
        read_request(b) matches Some(request) ==> request.encodable()
            && request.to_bytes().is_prefix_of(b),
{
    if read_request(b) is Some {
        let request = read_request(b)->Some_0;
        let tag = b.subrange(0, 8);
        let rest = b.skip(8);
        assert(request.tag() == tag);
        match request {
            RequestView::NewMultisig { threshold, members } => {
                lemma_written_u16(rest);
                lemma_written_u32(rest.skip(2));
                let count = read_u32(rest.skip(2))->Some_0.0;
                lemma_written_pubkeys(rest.skip(6), count as nat);
                let n = read_pubkeys(rest.skip(6), count as nat)->Some_0.1 as int;
                lemma_extend(rest, 2, 4);
                lemma_extend(rest, 6, n);
                lemma_extend(b, 8, 6 + n);
                assert(request.arguments() =~= rest.subrange(0, 6 + n));
            },
            RequestView::NewTransaction { instructions } => {
                lemma_written_u32(rest);
                let count = read_u32(rest)->Some_0.0;
                lemma_written_instructions(rest.skip(4), count as nat);
                let n = read_instructions(rest.skip(4), count as nat)->Some_0.1 as int;
                lemma_extend(rest, 4, n);
                lemma_extend(b, 8, 4 + n);
            },
            RequestView::ChangeThreshold { threshold } => {
                lemma_written_u16(rest);
                lemma_extend(b, 8, 2);
            },
            RequestView::ChangeMembers { members } => {
                lemma_written_u32(rest);
                let count = read_u32(rest)->Some_0.0;
                lemma_written_pubkeys(rest.skip(4), count as nat);
                let n = read_pubkeys(rest.skip(4), count as nat)->Some_0.1 as int;
                lemma_extend(rest, 4, n);
                lemma_extend(b, 8, 4 + n);
            },
            _ => {
                assert(request.to_bytes() =~= tag);
            },
        }
    }
}

} // verus!
