//! Properties of the proposal rules that span calls: the quorum is an exact
//! ceiling, a tie is never a majority, execution implies every gate, the
//! `can_execute` view agrees with `execute`, expiry is absorbing, and the
//! dependency graph has no cycle.
use vstd::prelude::*;
use crate::proposal::{
    active, bars_of, clears, executable, executing, majority_of, quorum_of, settle_moves, settled,
    settles, stale, approving, lifecycle, refund, rejecting, Proposal, ProposalContract, ProposalState,
};
use crate::shared::{Address, Error, Movement, PROPOSAL_QUORUM_PERCENT};

verus! {

/// The quorum is `percent`% of the allow-list (clamped to 100%) rounded up,
/// exactly: the smallest tally `q` with `q * 100 >= eligible * percent`, and
/// never more than the allow-list.
pub proof fn lemma_quorum_is_exact_ceiling(eligible: u32, percent: u32)
    ensures
        ({
            let p: int = if percent > 100 {
                100
            } else {
                percent as int
            };
            &&& quorum_of(eligible, percent) * 100 >= eligible * p
            &&& (quorum_of(eligible, percent) - 1) * 100 < eligible * p
            &&& 0 <= quorum_of(eligible, percent) <= eligible
        }),
{
    let p: int = if percent > 100 {
        100
    } else {
        percent as int
    };
    let x = eligible * p;
    assert(0 <= x <= eligible * 100) by (nonlinear_arith)
        requires
            x == eligible * p,
            0 <= p <= 100,
            eligible >= 0,
    ;
    let q = (x + 99) / 100;
    assert(q * 100 >= x && (q - 1) * 100 < x) by (nonlinear_arith)
        requires
            q == (x + 99) / 100,
            x >= 0,
    ;
    assert(0 <= q <= eligible) by (nonlinear_arith)
        requires
            q == (x + 99) / 100,
            0 <= x <= eligible * 100,
    ;
}

/// A tie is never a majority: the majority bar is one past half of the
/// allow-list, so a tally reaches it exactly when it is more than half.
pub proof fn lemma_tie_is_never_majority(approvals: u32, eligible: u32)
    ensures
        approvals >= majority_of(eligible) <==> 2 * approvals > eligible,
        2 * approvals == eligible ==> approvals < majority_of(eligible),
{
}

/// Execution implies every gate: a successful `execute` step is the
/// proposer's, on an `Approved` record whose tally reaches the threshold,
/// the quorum and a strict majority of the allow-list, whose timelock has
/// elapsed, and whose prerequisites have all executed.
pub proof fn lemma_execution_requires_every_gate(
    p: Proposal,
    caller: Address,
    now: u64,
    timelock: u64,
    deps: Result<(), Error>,
)
    requires
        p.approvers@.len() <= u32::MAX,
    ensures
        executing(p, caller, now, timelock, deps) is Ok ==> {
            let n = p.approvers@.len() as u32;
            &&& caller@ == p.proposer@
            &&& p.state == ProposalState::Approved
            &&& p.approvals >= p.threshold
            &&& p.approvals >= quorum_of(n, PROPOSAL_QUORUM_PERCENT)
            &&& 2 * p.approvals > n
            &&& (timelock == 0 || p.approved_at == 0 || now >= p.approved_at + timelock)
            &&& deps is Ok
        },
{
    let n = p.approvers@.len() as u32;
    lemma_quorum_is_exact_ceiling(n, PROPOSAL_QUORUM_PERCENT);
}

/// The `can_execute` view never contradicts `execute`: on a record that a
/// call at `now` does not settle, the view's answer is exactly whether the
/// proposer's `execute` succeeds; on a record that it settles, the view
/// says no (and `execute` only records the expiry).
pub proof fn lemma_can_execute_agrees_with_execute(
    p: Proposal,
    now: u64,
    timelock: u64,
    deps: Result<(), Error>,
)
    requires
        p.approvers@.len() <= u32::MAX,
    ensures
        !settles(p, now) ==> ((executable(settled(p, now), now, timelock) && clears(
            bars_of(p.approvers@.len() as u32, p.threshold),
            p.approvals,
        ) && deps is Ok) <==> executing(p, p.proposer, now, timelock, deps) is Ok),
        settles(p, now) ==> !executable(settled(p, now), now, timelock),
{
}

/// Expiry is absorbing: a call on an `Expired` proposal settles it again
/// with no change and no movement, and a live proposal past its deadline
/// is settled into `Expired` (never executed) by any call.
pub proof fn lemma_expiry_is_absorbing(p: Proposal, now: u64)
    ensures
        p.state == ProposalState::Expired ==> settles(p, now) && settled(p, now) == p
            && settle_moves(p, now).len() == 0,
        (p.state == ProposalState::Pending || p.state == ProposalState::Approved) && stale(p, now)
            ==> settles(p, now) && settled(p, now).state == ProposalState::Expired,
        !active(settled(p, now), now) || !settles(p, now),
{
}

/// Whether `path` walks the dependency graph of `c`: each id names a stored
/// proposal and the next id is one of its prerequisites.
pub open spec fn dependency_path(c: ProposalContract, path: Seq<u64>) -> bool {
    forall|k: int|
        0 <= k < path.len() - 1 ==> #[trigger] c.proposal(path[k]) is Some && c.proposal(
            path[k],
        )->0.dependencies@.contains(path[k + 1])
}

/// Every prerequisite edge points to a strictly smaller id.
pub proof fn lemma_dependencies_point_back(c: ProposalContract, id: u64, d: u64)
    requires
        c.wf(),
        c.proposal(id) is Some,
        c.proposal(id)->0.dependencies@.contains(d),
    ensures
        1 <= d < id,
{
    c.lemma_wf_links(id);
    let deps = c.proposal(id)->0.dependencies@;
    let k = choose|k: int| 0 <= k < deps.len() && deps[k] == d;
    assert(1 <= deps[k] < id);
}

/// The dependency graph is acyclic: along any walk of prerequisite edges
/// the ids strictly decrease, so no walk of one edge or more returns to
/// where it started.
pub proof fn lemma_dependency_graph_is_acyclic(c: ProposalContract, path: Seq<u64>)
    requires
        c.wf(),
        path.len() >= 2,
        dependency_path(c, path),
    ensures
        path.last() < path[0],
    decreases path.len(),
{
    assert(c.proposal(path[0]) is Some);
    lemma_dependencies_point_back(c, path[0], path[1]);
    if path.len() > 2 {
        let rest = path.subrange(1, path.len() as int);
        assert forall|k: int| 0 <= k < rest.len() - 1 implies #[trigger] c.proposal(rest[k]) is Some
            && c.proposal(rest[k])->0.dependencies@.contains(rest[k + 1]) by {
            assert(rest[k] == path[k + 1]);
            assert(rest[k + 1] == path[k + 2]);
            assert(c.proposal(path[k + 1]) is Some);
        }
        lemma_dependency_graph_is_acyclic(c, rest);
        assert(rest.last() == path.last());
    }
}


/// Only a pending proposal can be rejected: on a live record that does not
/// settle at `now`, `reject` refuses every proposal that is not `Pending`
/// (an `Approved` one in particular) with `InvalidProposalState` and leaves
/// the ledger unchanged, and whenever it succeeds the proposal was
/// `Pending` and is now `Rejected`.
pub proof fn lemma_reject_only_pending(
    old: ProposalContract,
    new: ProposalContract,
    id: u64,
    now: u64,
    caller: Address,
    r: Result<Vec<Movement>, Error>,
)
    requires
        old.proposal(id) is Some,
        !settles(old.proposal(id)->0, now),
        lifecycle(
            old,
            new,
            id,
            now,
            rejecting(old.proposal(id)->0, caller),
            refund(old.proposal(id)->0),
            r,
        ),
    ensures
        old.proposal(id)->0.state != ProposalState::Pending ==> r == Err::<Vec<Movement>, Error>(
            Error::InvalidProposalState,
        ) && new == old,
        r is Ok ==> old.proposal(id)->0.state == ProposalState::Pending && new.proposal(id)
            is Some && new.proposal(id)->0.state == ProposalState::Rejected,
{
}


/// An approval counts one vote on a pending proposal: it is refused on any
/// other state, and when accepted the count grows by exactly one, the
/// proposal becomes `Approved` (stamped now) exactly when the new count
/// reaches the threshold, and nothing else about the proposal changes.
pub proof fn lemma_approval_counts_one_vote(p: Proposal, voted: bool, caller: Address, now: u64)
    ensures
        p.state != ProposalState::Pending ==> approving(p, voted, caller, now) == Err::<
            Proposal,
            Error,
        >(Error::InvalidProposalState),
        approving(p, voted, caller, now) matches Ok(np) ==> {
            &&& p.state == ProposalState::Pending
            &&& !voted
            &&& np.approvals == p.approvals + 1
            &&& (np.state == ProposalState::Approved) == (p.approvals + 1 >= p.threshold)
            &&& (np.state != ProposalState::Approved ==> np.state == ProposalState::Pending
                && np.approved_at == p.approved_at)
            &&& (np.state == ProposalState::Approved ==> np.approved_at == now)
            &&& np.proposer == p.proposer && np.approvers == p.approvers && np.threshold
                == p.threshold && np.deposit == p.deposit
        },
{
}

} // verus!
