//! What holds of the requests taken together.
//!
//! Every statement is about the outcome functions of the request views, which are what the
//! contracts of the executable requests are stated in.
use vstd::prelude::*;
use vstd::bytes::lemma_auto_spec_u64_to_from_le_bytes;
use vstd::bytes::spec_u64_from_le_bytes;
use vstd::bytes::spec_u64_to_le_bytes;
use solana_program::program_error::ProgramError;
use crate::error::Error;
use crate::error::MultisigError;
use crate::instructions::administration::AdministrationView;
use crate::instructions::approval::ApprovalView;
use crate::instructions::new_multisig::NewMultisigView;
use crate::instructions::new_transaction::no_approvals;
use crate::instructions::new_transaction::NewTransactionView;
use crate::pda::transaction_key;
use crate::pda::transaction_seeds;
use crate::pda::wallet_address;
use crate::pda::wallet_key;
use crate::pubkey::Pubkey;
use crate::state::approval_count;
use crate::state::InstructionView;
use crate::state::MultisigTransactionView;
use crate::state::MultisigWalletView;

verus! {

/// Filling an empty slot adds one approval, clearing a filled one takes one away, and
/// writing a slot leaves the others as they are.
pub proof fn lemma_approval_count_update(approved: Seq<Option<i64>>, i: int, value: Option<i64>)
    requires
        0 <= i < approved.len(),
    ensures
        approval_count(approved.update(i, value)) + (if approved[i] is Some {
            1int
        } else {
            0int
        }) == approval_count(approved) + (if value is Some {
            1int
        } else {
            0int
        }),
    decreases approved.len(),
{
    let last = approved.len() - 1;
    if i == last {
        assert(approved.update(i, value).drop_last() =~= approved.drop_last());
    } else {
        lemma_approval_count_update(approved.drop_last(), i, value);
        assert(approved.update(i, value).drop_last() =~= approved.drop_last().update(i, value));
    }
}

/// A caller's slot is a slot of the proposal, at a position where the caller stands in
/// the member list.
pub proof fn lemma_slot(request: ApprovalView)
    ensures
        request.slot() matches Ok(i) ==> {
            &&& 0 <= i < request.transaction.data.approved.len()
            &&& i < request.multisig_wallet.data.members.len()
            &&& request.multisig_wallet.data.members[i] == request.member
        },
        request.slot() is Ok ==> request.multisig_wallet.data.members.contains(request.member),
{
    request.multisig_wallet.data.members.index_of_first_ensures(request.member);
}

/// A wallet is created exactly when its threshold is at least one and at most the number
/// of its members, no member is listed twice, and it stands at the address derived from its
/// entropy seed. A policy that is refused is refused with its own error, wherever the wallet
/// stands. A wallet that is created has that policy, has made no proposal and has seen no
/// change of members.
pub proof fn theorem_creation(request: NewMultisigView, threshold: u16, members: Seq<Pubkey>)
    ensures
        request.new_multisig(threshold, members) is Ok <==> {
            &&& 1 <= threshold <= members.len()
            &&& members.no_duplicates()
            &&& wallet_key(request.base) == Some(request.multisig_wallet.key)
        },
        threshold == 0 || threshold > members.len() ==> request.new_multisig(threshold, members)
            == Err::<NewMultisigView, _>(Error::Multisig(MultisigError::InvalidThreshold)),
        1 <= threshold <= members.len() && !members.no_duplicates() ==> request.new_multisig(
            threshold,
            members,
        ) == Err::<NewMultisigView, _>(Error::Multisig(MultisigError::DuplicateMembers)),
        request.new_multisig(threshold, members) matches Ok(after) ==> {
            &&& after.multisig_wallet.key == request.multisig_wallet.key
            &&& after.multisig_wallet.data.valid_policy()
            &&& after.multisig_wallet.data.well_formed()
            &&& after.multisig_wallet.data.members == members
            &&& after.multisig_wallet.data.threshold == threshold
            &&& after.multisig_wallet.data.base == request.base
            &&& after.multisig_wallet.data.tx_nonce == 0
            &&& after.multisig_wallet.data.member_set_seqno == 0
            &&& wallet_address(request.base) == Some(
                (after.multisig_wallet.key, after.multisig_wallet.data.bump),
            )
        },
{
}

/// An approval fills the caller's slot and no other: one more member approves, and nothing
/// else about the proposal or the wallet changes.
pub proof fn theorem_approve_counts(request: ApprovalView, now: i64)
    ensures
        request.approve(now) matches Ok(after) ==> {
            &&& after.transaction.data.num_approvals() == request.transaction.data.num_approvals()
                + 1
            &&& after.transaction.data.approved.len() == request.transaction.data.approved.len()
            &&& after.multisig_wallet == request.multisig_wallet
            &&& after.member == request.member
            &&& !after.transaction.data.executed()
        },
{
    lemma_slot(request);
    if request.approve(now) is Ok {
        let i = request.slot()->Ok_0;
        lemma_approval_count_update(request.transaction.data.approved, i, Some(now));
    }
}

/// A retraction clears the caller's slot and no other: one member fewer approves.
pub proof fn theorem_unapprove_counts(request: ApprovalView)
    ensures
        request.unapprove() matches Ok(after) ==> {
            &&& after.transaction.data.num_approvals() + 1
                == request.transaction.data.num_approvals()
            &&& after.transaction.data.approved.len() == request.transaction.data.approved.len()
            &&& after.multisig_wallet == request.multisig_wallet
            &&& after.member == request.member
            &&& !after.transaction.data.executed()
        },
{
    lemma_slot(request);
    if request.unapprove() is Ok {
        let i = request.slot()->Ok_0;
        lemma_approval_count_update(request.transaction.data.approved, i, None);
    }
}

/// In a wallet that lists no member twice, a member has one slot: the slot at any position
/// at which the member stands is the caller's. An approval of a slot that is filled is
/// refused with `AlreadyApproved`, a retraction of one that is empty with
/// `AlreadyUnapproved`, and either leaves the time that the slot holds as it is.
pub proof fn theorem_slot_of_unique_member(request: ApprovalView, i: int, now: i64)
    requires
        request.multisig_wallet.data.members.no_duplicates(),
        0 <= i < request.multisig_wallet.data.members.len(),
        request.multisig_wallet.data.members[i] == request.member,
    ensures
        i < request.transaction.data.approved.len() ==> request.slot() == Ok::<
            int,
            MultisigError,
        >(i),
        i < request.transaction.data.approved.len() && request.transaction.data.approved[i]
            is Some ==> request.handle_approve(now) == Err::<ApprovalView, _>(
            MultisigError::AlreadyApproved,
        ),
        i < request.transaction.data.approved.len() && request.transaction.data.approved[i]
            is None ==> request.handle_unapprove() == Err::<ApprovalView, _>(
            MultisigError::AlreadyUnapproved,
        ),
{
    request.multisig_wallet.data.members.index_of_first_ensures(request.member);
}

/// A member that has just approved cannot approve again: the second request fails with
/// `AlreadyApproved`, at whatever time it is made.
pub proof fn theorem_approve_twice(request: ApprovalView, first: i64, second: i64)
    ensures
        request.approve(first) matches Ok(after) ==> after.approve(second) == Err::<ApprovalView, _>(
            MultisigError::AlreadyApproved,
        ),
{
    lemma_slot(request);
}

/// A member that has just retracted its approval cannot retract it again: the second
/// request fails with `AlreadyUnapproved`.
pub proof fn theorem_unapprove_twice(request: ApprovalView)
    ensures
        request.unapprove() matches Ok(after) ==> after.unapprove() == Err::<ApprovalView, _>(
            MultisigError::AlreadyUnapproved,
        ),
{
    lemma_slot(request);
}

/// A retraction undoes an approval: approving and then retracting leaves the request as it
/// was.
pub proof fn theorem_unapprove_undoes_approve(request: ApprovalView, now: i64)
    ensures
        request.approve(now) matches Ok(after) ==> after.unapprove() == Ok::<_, MultisigError>(
            request,
        ),
{
    lemma_slot(request);
    if request.approve(now) is Ok {
        let after = request.approve(now)->Ok_0;
        let i = request.slot()->Ok_0;
        let approved = request.transaction.data.approved;
        assert(approved.update(i, Some(now)).update(i, None) =~= approved);
        assert(after.unapprove()->Ok_0 =~~= request);
    }
}

/// The quorum gate. Of a request that passes the common checks: with fewer approvals than
/// the threshold it fails with `NotEnoughApprovals`, whatever the host would report; with
/// as many or more, and every operation issued without failure, it succeeds, records the
/// caller and the time, and leaves the proposal executed; and where an operation failed,
/// that failure is handed on. In a well-formed wallet nothing is executed that nobody
/// approves.
pub proof fn theorem_quorum_gate(
    request: ApprovalView,
    issued: Result<MultisigWalletView, ProgramError>,
    now: i64,
)
    requires
        request.validate() is Ok,
    ensures
        request.transaction.data.num_approvals() < request.multisig_wallet.data.threshold
            ==> request.execute(issued, now) == Err::<ApprovalView, _>(
            Error::Multisig(MultisigError::NotEnoughApprovals),
        ),
        request.transaction.data.num_approvals() >= request.multisig_wallet.data.threshold
            ==> match issued {
            Ok(wallet) => request.execute(issued, now) matches Ok(after) && {
                &&& after.transaction.data.executed()
                &&& after.transaction.data.executor == Some(request.member)
                &&& after.transaction.data.executed_at == Some(now)
                &&& after.transaction.data.approved == request.transaction.data.approved
                &&& after.transaction.data.instructions == request.transaction.data.instructions
                &&& after.multisig_wallet.data == wallet
                &&& after.multisig_wallet.key == request.multisig_wallet.key
            },
            Err(e) => request.execute(issued, now) == Err::<ApprovalView, _>(Error::Program(e)),
        },
        request.authorize() is Ok <==> request.transaction.data.num_approvals()
            >= request.multisig_wallet.data.threshold,
        request.multisig_wallet.data.well_formed() && request.authorize() is Ok
            ==> request.transaction.data.num_approvals() >= 1,
{
}

/// An executed proposal is final. No request against it succeeds, whoever makes it and
/// whatever the wallet has become; and a member's request that names the proposal's own
/// wallet fails with `AlreadyExecuted`.
pub proof fn theorem_executed_is_final(
    request: ApprovalView,
    issued: Result<MultisigWalletView, ProgramError>,
    now: i64,
)
    requires
        request.transaction.data.executed(),
    ensures
        request.approve(now) is Err,
        request.unapprove() is Err,
        request.authorize() is Err,
        request.execute(issued, now) is Err,
        request.transaction.data.multisig_wallet == request.multisig_wallet.key
            && request.multisig_wallet.data.members.contains(request.member) ==> {
            &&& request.approve(now) == Err::<ApprovalView, _>(MultisigError::AlreadyExecuted)
            &&& request.unapprove() == Err::<ApprovalView, _>(MultisigError::AlreadyExecuted)
            &&& request.authorize() == Err::<(), _>(MultisigError::AlreadyExecuted)
            &&& request.execute(issued, now) == Err::<ApprovalView, _>(
                Error::Multisig(MultisigError::AlreadyExecuted),
            )
        },
{
}

/// A successful execution leaves the proposal executed, so that by
/// [`theorem_executed_is_final`] every later request against it fails; and no other
/// request ever does: until it is executed a proposal stays open.
pub proof fn theorem_only_execution_is_terminal(
    request: ApprovalView,
    issued: Result<MultisigWalletView, ProgramError>,
    now: i64,
)
    ensures
        request.execute(issued, now) matches Ok(after) ==> after.transaction.data.executed(),
        request.execute(issued, now) is Ok ==> !request.transaction.data.executed(),
        request.approve(now) matches Ok(after) ==> !after.transaction.data.executed(),
        request.unapprove() matches Ok(after) ==> !after.transaction.data.executed(),
{
}

/// A change of the wallet's policy needs the wallet's own signature, and keeps the wallet
/// well formed: a threshold is taken exactly when it is at least one and at most the number
/// of members, so that no wallet ever asks for no approval; and new members are taken only
/// where there are as many as the threshold asks for.
pub proof fn theorem_administration(request: AdministrationView, threshold: u16, members: Seq<Pubkey>)
    ensures
        !request.wallet_signed ==> request.change_threshold(threshold) == Err::<
            AdministrationView,
            _,
        >(Error::ConstraintSigner) && request.change_members(members) == Err::<
            AdministrationView,
            _,
        >(Error::ConstraintSigner),
        request.wallet_signed ==> (request.change_threshold(threshold) is Ok <==> 1 <= threshold
            <= request.multisig_wallet.data.members.len()),
        request.wallet_signed && (threshold == 0 || threshold
            > request.multisig_wallet.data.members.len()) ==> request.change_threshold(threshold)
            == Err::<AdministrationView, _>(Error::Multisig(MultisigError::InvalidThreshold)),
        request.change_threshold(threshold) matches Ok(after) ==> {
            &&& after.multisig_wallet.data.well_formed()
            &&& after.multisig_wallet.data.threshold == threshold
            &&& after.multisig_wallet.data.members == request.multisig_wallet.data.members
            &&& after.multisig_wallet.data.member_set_seqno
                == request.multisig_wallet.data.member_set_seqno
            &&& after.multisig_wallet.key == request.multisig_wallet.key
        },
        request.change_members(members) matches Ok(after) ==> {
            &&& request.multisig_wallet.data.well_formed() ==> after.multisig_wallet.data.well_formed()
            &&& after.multisig_wallet.data.members == members
            &&& after.multisig_wallet.data.threshold == request.multisig_wallet.data.threshold
            &&& after.multisig_wallet.data.member_set_seqno
                == request.multisig_wallet.data.member_set_seqno + 1
            &&& after.multisig_wallet.key == request.multisig_wallet.key
        },
{
}

/// A change of members closes the proposals made before it: a proposal that was made under
/// another member set than the wallet's current one takes no approval, no retraction and
/// no execution.
pub proof fn theorem_stale_proposal(
    request: ApprovalView,
    issued: Result<MultisigWalletView, ProgramError>,
    now: i64,
)
    requires
        request.transaction.data.member_set_seqno != request.multisig_wallet.data.member_set_seqno,
    ensures
        request.approve(now) is Err,
        request.unapprove() is Err,
        request.authorize() is Err,
        request.execute(issued, now) is Err,
{
}

/// A proposal keeps step with its wallet: it was made under a member set that the wallet
/// has had, and while that is still the wallet's member set it has one slot for each
/// member.
pub open spec fn in_step(transaction: MultisigTransactionView, wallet: MultisigWalletView) -> bool {
    &&& transaction.member_set_seqno <= wallet.member_set_seqno
    &&& transaction.member_set_seqno == wallet.member_set_seqno ==> transaction.approved.len()
        == wallet.members.len()
}

/// A proposal's marks of execution go together: both are there or neither is.
pub open spec fn marks_agree(transaction: MultisigTransactionView) -> bool {
    transaction.executor is Some <==> transaction.executed_at is Some
}

/// What the requests keep. A new proposal is in step with its wallet and bears no mark of
/// execution; approvals and retractions keep a proposal in step and its marks in agreement;
/// an execution sets both marks; and a change of the wallet's policy keeps every proposal
/// in step that was in step before. Of a request that passes the common checks on a
/// proposal in step, the caller's slot is there.
pub proof fn theorem_in_step(
    proposal: NewTransactionView,
    instructions: Seq<InstructionView>,
    request: ApprovalView,
    issued: Result<MultisigWalletView, ProgramError>,
    change: AdministrationView,
    transaction: MultisigTransactionView,
    threshold: u16,
    members: Seq<Pubkey>,
    now: i64,
)
    ensures
        proposal.new_transaction(instructions, now) matches Ok(after) ==> in_step(
            after.transaction.data,
            after.multisig_wallet.data,
        ) && marks_agree(after.transaction.data),
        in_step(request.transaction.data, request.multisig_wallet.data) ==> {
            &&& request.approve(now) matches Ok(after) ==> in_step(
                after.transaction.data,
                after.multisig_wallet.data,
            )
            &&& request.unapprove() matches Ok(after) ==> in_step(
                after.transaction.data,
                after.multisig_wallet.data,
            )
            &&& request.validate() is Ok ==> request.slot() is Ok
        },
        marks_agree(request.transaction.data) ==> {
            &&& request.approve(now) matches Ok(after) ==> marks_agree(after.transaction.data)
            &&& request.unapprove() matches Ok(after) ==> marks_agree(after.transaction.data)
        },
        request.execute(issued, now) matches Ok(after) ==> marks_agree(after.transaction.data),
        in_step(transaction, change.multisig_wallet.data) ==> {
            &&& change.change_threshold(threshold) matches Ok(after) ==> in_step(
                transaction,
                after.multisig_wallet.data,
            )
            &&& change.change_members(members) matches Ok(after) ==> in_step(
                transaction,
                after.multisig_wallet.data,
            )
        },
{
    lemma_slot(request);
    request.multisig_wallet.data.members.index_of_first_ensures(request.member);
}

/// A proposal is made exactly when its proposer is a member and it stands at the wallet's
/// next address. Somebody who is no member is refused as such, wherever the proposal
/// stands. A proposal that is made belongs to the wallet, is open, has one empty slot for
/// each member, and the wallet has counted it and is otherwise unchanged.
pub proof fn theorem_proposal(request: NewTransactionView, instructions: Seq<InstructionView>, now: i64)
    ensures
        request.new_transaction(instructions, now) is Ok <==> {
            &&& request.multisig_wallet.data.members.contains(request.proposer)
            &&& request.next_address() == Some(request.transaction.key)
        },
        !request.multisig_wallet.data.members.contains(request.proposer)
            ==> request.new_transaction(instructions, now) == Err::<NewTransactionView, _>(
            Error::Multisig(MultisigError::NotAMember),
        ),
        request.new_transaction(instructions, now) matches Ok(after) ==> {
            &&& after.transaction.key == request.transaction.key
            &&& after.transaction.data.multisig_wallet == request.multisig_wallet.key
            &&& after.transaction.data.instructions == instructions
            &&& after.transaction.data.approved.len()
                == request.multisig_wallet.data.members.len()
            &&& after.transaction.data.num_approvals() == 0
            &&& !after.transaction.data.executed()
            &&& after.transaction.data.member_set_seqno
                == request.multisig_wallet.data.member_set_seqno
            &&& after.transaction.data.proposer == request.proposer
            &&& after.transaction.data.created_at == now
            &&& after.multisig_wallet.key == request.multisig_wallet.key
            &&& after.multisig_wallet.data == (MultisigWalletView {
                tx_nonce: (request.multisig_wallet.data.tx_nonce + 1) as u64,
                ..request.multisig_wallet.data
            })
        },
{
    let n = request.multisig_wallet.data.members.len();
    lemma_no_approvals_count(n);
}

/// Nobody approves in a list of empty slots.
pub proof fn lemma_no_approvals_count(n: nat)
    ensures
        approval_count(no_approvals(n)) == 0,
    decreases n,
{
    if n > 0 {
        lemma_no_approvals_count((n - 1) as nat);
        assert(no_approvals(n).drop_last() =~= no_approvals((n - 1) as nat));
    }
}

/// A run of proposals to one wallet: each request is made to the wallet as the request
/// before it left it, while the wallet's counter has room, and each succeeds.
pub open spec fn proposal_run(
    requests: Seq<NewTransactionView>,
    instructions: Seq<Seq<InstructionView>>,
    times: Seq<i64>,
) -> bool {
    &&& instructions.len() == requests.len()
    &&& times.len() == requests.len()
    &&& forall|i: int|
        0 <= i < requests.len() ==> (#[trigger] requests[i]).multisig_wallet.data.tx_nonce
            < u64::MAX && requests[i].new_transaction(instructions[i], times[i]) is Ok
    &&& forall|i: int|
        0 <= i < requests.len() - 1 ==> (#[trigger] requests[i + 1]).multisig_wallet
            == requests[i].new_transaction(instructions[i], times[i])->Ok_0.multisig_wallet
}

/// In a run of proposals the wallet keeps its address and counts one proposal at a time.
pub proof fn lemma_proposal_run_counter(
    requests: Seq<NewTransactionView>,
    instructions: Seq<Seq<InstructionView>>,
    times: Seq<i64>,
    i: int,
)
    requires
        proposal_run(requests, instructions, times),
        0 <= i < requests.len(),
    ensures
        requests[i].multisig_wallet.key == requests[0].multisig_wallet.key,
        requests[i].multisig_wallet.data.tx_nonce == requests[0].multisig_wallet.data.tx_nonce + i,
    decreases i,
{
    if i > 0 {
        lemma_proposal_run_counter(requests, instructions, times, i - 1);
        let before = requests[i - 1];
        assert(before.multisig_wallet.data.tx_nonce < u64::MAX);
        assert(requests[(i - 1) + 1].multisig_wallet == before.new_transaction(
            instructions[i - 1],
            times[i - 1],
        )->Ok_0.multisig_wallet);
    }
}

/// The counter enters a proposal's address in a way that tells any two counts apart.
pub proof fn lemma_transaction_seeds_differ(multisig_wallet: Pubkey, a: u64, b: u64)
    requires
        a != b,
    ensures
        transaction_seeds(multisig_wallet, a) != transaction_seeds(multisig_wallet, b),
{
    lemma_auto_spec_u64_to_from_le_bytes();
    let sa = transaction_seeds(multisig_wallet, a);
    let sb = transaction_seeds(multisig_wallet, b);
    if sa == sb {
        assert(sa[2] == sb[2]);
        assert(spec_u64_from_le_bytes(spec_u64_to_le_bytes(a)) == a);
        assert(spec_u64_from_le_bytes(spec_u64_to_le_bytes(b)) == b);
    }
}

/// The count under which the `i`-th proposal of a run is made: the wallet's count at the
/// start of the run, and `i` more.
pub open spec fn run_count(requests: Seq<NewTransactionView>, i: int) -> u64 {
    (requests[0].multisig_wallet.data.tx_nonce + i) as u64
}

/// Every proposal of a wallet gets the address of its own count. In a run of proposals that
/// starts when the wallet's counter stands at `c`, the `i`-th proposal stands at the
/// address derived from the wallet's address and `c + i`; for a new wallet, from `i`. No
/// two of them are derived from the same seeds.
pub proof fn theorem_proposal_addresses(
    requests: Seq<NewTransactionView>,
    instructions: Seq<Seq<InstructionView>>,
    times: Seq<i64>,
)
    requires
        proposal_run(requests, instructions, times),
    ensures
        forall|i: int|
            0 <= i < requests.len() ==> #[trigger] run_count(requests, i)
                == requests[0].multisig_wallet.data.tx_nonce + i,
        forall|i: int|
            0 <= i < requests.len() ==> transaction_key(
                requests[0].multisig_wallet.key,
                run_count(requests, i),
            ) == Some((#[trigger] requests[i]).transaction.key),
        forall|i: int, j: int|
            0 <= i < j < requests.len() ==> transaction_seeds(
                requests[0].multisig_wallet.key,
                #[trigger] run_count(requests, i),
            ) != transaction_seeds(
                requests[0].multisig_wallet.key,
                #[trigger] run_count(requests, j),
            ),
{
    let key = requests[0].multisig_wallet.key;
    assert forall|i: int| 0 <= i < requests.len() implies #[trigger] run_count(requests, i)
        == requests[0].multisig_wallet.data.tx_nonce + i by {
        lemma_proposal_run_counter(requests, instructions, times, i);
    }
    assert forall|i: int| 0 <= i < requests.len() implies transaction_key(
        key,
        run_count(requests, i),
    ) == Some((#[trigger] requests[i]).transaction.key) by {
        lemma_proposal_run_counter(requests, instructions, times, i);
    }
    assert forall|i: int, j: int| 0 <= i < j < requests.len() implies transaction_seeds(
        key,
        #[trigger] run_count(requests, i),
    ) != transaction_seeds(key, #[trigger] run_count(requests, j)) by {
        lemma_transaction_seeds_differ(key, run_count(requests, i), run_count(requests, j));
    }
}

} // verus!
