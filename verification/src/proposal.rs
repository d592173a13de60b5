//! Proposals: an action awaiting approval, driven through its lifecycle
//!
//! ```text
//! Pending ─▶ Approved ─▶ Executed ─▶ Closed
//!    │           │
//!    ▼           ▼
//! Rejected    Failed          (any live state) ─▶ Cancelled / Expired
//! ```
//!
//! An approver allow-list and a threshold decide when a proposal becomes
//! `Approved`. Execution then re-checks the tally against three bars (the
//! configured threshold, a participation quorum of the allow-list rounded
//! up, and a strict majority of the allow-list), waits out a mandatory
//! timelock after approval, and requires every declared prerequisite
//! proposal to have executed. Prerequisites always have smaller ids, so the
//! dependency graph is acyclic by construction.
//!
//! A proposal with a deadline (`expires_at != 0`) goes stale at that instant.
//! Every call that meets a stale live proposal first records `Expired` and
//! refunds its deposit, and then reports success without doing anything
//! else; later calls find it already `Expired` and do nothing.
use vstd::prelude::*;
use crate::shared::{
    copy_assets, copy_strings, lists, lists_key, require_non_empty, require_time_reached, Address,
    AssetAmount, Error, Movement, MAX_APPROVERS, MAX_DEPENDENCIES, PROPOSAL_QUORUM_PERCENT,
};

verus! {

/// Lifecycle of a proposal.
#[derive(Clone, Copy, Debug, PartialEq, Eq, Structural)]
pub enum ProposalState {
    Pending,
    Approved,
    Executed,
    Rejected,
    Cancelled,
    Expired,
    Closed,
    Failed,
}

impl ProposalState {
    /// Whether the proposal completed its action (`Executed` or `Closed`).
    pub open spec fn spec_has_executed(self) -> bool {
        self == ProposalState::Executed || self == ProposalState::Closed
    }

    /// Whether the proposal completed its action (`Executed` or `Closed`);
    /// the only states that satisfy a dependent proposal.
    pub fn has_executed(&self) -> (r: bool)
        ensures
            r == self.spec_has_executed(),
    {
        *self == ProposalState::Executed || *self == ProposalState::Closed
    }

    /// Whether the deposit has been settled: returned on execution,
    /// rejection, cancellation or expiry. A pending, approved or failed
    /// proposal still holds it.
    pub open spec fn spec_deposit_settled(self) -> bool {
        self == ProposalState::Executed || self == ProposalState::Closed || self
            == ProposalState::Rejected || self == ProposalState::Cancelled || self
            == ProposalState::Expired
    }

    /// Whether the deposit has been settled.
    pub fn deposit_settled(&self) -> (r: bool)
        ensures
            r == self.spec_deposit_settled(),
    {
        match self {
            ProposalState::Executed | ProposalState::Closed | ProposalState::Rejected
            | ProposalState::Cancelled | ProposalState::Expired => true,
            ProposalState::Pending | ProposalState::Approved | ProposalState::Failed => false,
        }
    }
}

/// A stored proposal. `approvers` is the allow-list of addresses eligible to
/// approve; `threshold` approvals move it to `Approved`. `dependencies` are
/// the ids of proposals that must have executed before this one may.
#[derive(Debug)]
pub struct Proposal {
    pub proposer: Address,
    pub org: String,
    pub wallet: String,
    pub policy: String,
    pub approvers: Vec<Address>,
    /// Prerequisite ids, deduplicated, each strictly below this proposal's id.
    pub dependencies: Vec<u64>,
    pub threshold: u32,
    pub approvals: u32,
    pub state: ProposalState,
    pub created_at: u64,
    /// When the proposal reached `Approved` (`0` until then).
    pub approved_at: u64,
    /// The deposit; only its first leg is pulled and refunded.
    pub deposit: Vec<AssetAmount>,
    /// The deadline (`0` = never stale).
    pub expires_at: u64,
    /// How long after creation the proposer may cancel (`0` = no limit).
    pub grace_period: u64,
}

/// Two proposal records hold the same data (vector fields by content).
pub open spec fn same_proposal(a: Proposal, b: Proposal) -> bool {
    &&& a.proposer == b.proposer
    &&& a.org == b.org
    &&& a.wallet == b.wallet
    &&& a.policy == b.policy
    &&& a.approvers@ == b.approvers@
    &&& a.dependencies@ == b.dependencies@
    &&& a.threshold == b.threshold
    &&& a.approvals == b.approvals
    &&& a.state == b.state
    &&& a.created_at == b.created_at
    &&& a.approved_at == b.approved_at
    &&& a.deposit@ == b.deposit@
    &&& a.expires_at == b.expires_at
    &&& a.grace_period == b.grace_period
}

fn copy_ids(v: &Vec<u64>) -> (r: Vec<u64>)
    ensures
        r@ == v@,
{
    let mut r: Vec<u64> = Vec::new();
    let mut i: usize = 0;
    while i < v.len()
        invariant
            i <= v@.len(),
            r@ == v@.subrange(0, i as int),
        decreases v@.len() - i,
    {
        r.push(v[i]);
        i = i + 1;
        assert(r@ =~= v@.subrange(0, i as int));
    }
    assert(v@.subrange(0, v@.len() as int) =~= v@);
    r
}

/// Whether a proposal with deadline `expires_at` is stale at `now`: it has a
/// deadline and `now` has reached it (the boundary is inclusive).
pub open spec fn stale(p: Proposal, now: u64) -> bool {
    p.expires_at != 0 && now >= p.expires_at
}

/// Whether a proposal is live: not stale, and `Pending` or `Approved`.
pub open spec fn active(p: Proposal, now: u64) -> bool {
    !stale(p, now) && (p.state == ProposalState::Pending || p.state == ProposalState::Approved)
}

/// The outcome of the timelock gate: nothing to wait for when the timelock
/// is off or the proposal was never approved; otherwise `now` must have
/// reached `approved_at + timelock`, which must be a representable instant.
pub open spec fn timelock_gate(now: u64, timelock: u64, approved_at: u64) -> Result<(), Error> {
    if timelock == 0 || approved_at == 0 {
        Ok(())
    } else if approved_at + timelock > u64::MAX {
        Err(Error::Overflow)
    } else if now < approved_at + timelock {
        Err(Error::TimelockNotExpired)
    } else {
        Ok(())
    }
}

/// Whether `execute` would accept the record itself at `now`: live,
/// `Approved`, and past its timelock.
pub open spec fn executable(p: Proposal, now: u64, timelock: u64) -> bool {
    active(p, now) && p.state == ProposalState::Approved && timelock_gate(
        now,
        timelock,
        p.approved_at,
    ) is Ok
}

/// Refuse to release a proposal until its timelock has elapsed.
pub fn require_timelock_elapsed(now: u64, timelock: u64, proposal: &Proposal) -> (r: Result<(), Error>)
    ensures
        r == timelock_gate(now, timelock, proposal.approved_at),
{
    if timelock == 0 || proposal.approved_at == 0 {
        return Ok(());
    }
    if proposal.approved_at > u64::MAX - timelock {
        return Err(Error::Overflow);
    }
    require_time_reached(now, proposal.approved_at + timelock)
}

impl Proposal {
    /// A field-for-field copy of this record.
    pub fn copied(&self) -> (r: Proposal)
        ensures
            same_proposal(r, *self),
    {
        Proposal {
            proposer: self.proposer.clone(),
            org: self.org.clone(),
            wallet: self.wallet.clone(),
            policy: self.policy.clone(),
            approvers: copy_strings(&self.approvers),
            dependencies: copy_ids(&self.dependencies),
            threshold: self.threshold,
            approvals: self.approvals,
            state: self.state,
            created_at: self.created_at,
            approved_at: self.approved_at,
            deposit: copy_assets(&self.deposit),
            expires_at: self.expires_at,
            grace_period: self.grace_period,
        }
    }

    /// Whether the deadline has been reached at `now` (inclusive); a
    /// proposal without a deadline never is.
    pub fn is_expired(&self, now: u64) -> (r: bool)
        ensures
            r == stale(*self, now),
    {
        self.expires_at != 0 && now >= self.expires_at
    }

    /// Whether the proposal may still change state at `now`: not stale, and
    /// `Pending` or `Approved`.
    pub fn is_active(&self, now: u64) -> (r: bool)
        ensures
            r == active(*self, now),
    {
        !self.is_expired(now) && (self.state == ProposalState::Pending || self.state
            == ProposalState::Approved)
    }

    /// Whether `execute` would accept this record at `now` under the given
    /// timelock: live, `Approved`, and past the timelock.
    pub fn can_execute(&self, now: u64, timelock: u64) -> (r: bool)
        ensures
            r == executable(*self, now, timelock),
    {
        self.is_active(now) && self.state == ProposalState::Approved && require_timelock_elapsed(
            now,
            timelock,
            self,
        ).is_ok()
    }
}

// ---------------------------------------------------------------------------
// Vote bars.
// ---------------------------------------------------------------------------

/// `percent`% of `eligible`, clamped to 100%, rounded up.
pub open spec fn quorum_of(eligible: u32, percent: u32) -> int {
    let p: int = if percent > 100 {
        100
    } else {
        percent as int
    };
    (eligible * p + 99) / 100
}

/// One past half of `eligible`: the smallest strict majority.
pub open spec fn majority_of(eligible: u32) -> int {
    eligible / 2 + 1
}

/// The three bars a tally must clear before a proposal executes.
#[derive(Clone, Copy, Debug, PartialEq, Eq, Structural)]
pub struct VoteBars {
    /// The approval threshold the proposal declared.
    pub threshold: u32,
    /// Participation quorum: the protocol percentage of the allow-list,
    /// rounded up.
    pub quorum: u32,
    /// Strict majority: one past half of the allow-list.
    pub majority: u32,
}

/// The bars of a proposal with this allow-list size and threshold.
pub open spec fn bars_of(eligible: u32, threshold: u32) -> VoteBars {
    VoteBars {
        threshold,
        quorum: quorum_of(eligible, PROPOSAL_QUORUM_PERCENT) as u32,
        majority: majority_of(eligible) as u32,
    }
}

/// Whether a tally clears every bar.
pub open spec fn clears(bars: VoteBars, approvals: u32) -> bool {
    approvals >= bars.threshold && approvals >= bars.quorum && approvals >= bars.majority
}

impl VoteBars {
    /// All three bars for `proposal`, re-derived from its allow-list size.
    pub fn for_proposal(proposal: &Proposal) -> (r: VoteBars)
        requires
            proposal.approvers@.len() <= u32::MAX,
        ensures
            r == bars_of(proposal.approvers@.len() as u32, proposal.threshold),
    {
        let eligible = proposal.approvers.len() as u32;
        VoteBars {
            threshold: proposal.threshold,
            quorum: Self::quorum_required(eligible, PROPOSAL_QUORUM_PERCENT),
            majority: Self::majority_required(eligible),
        }
    }

    /// The number of approvals that makes a vote among `eligible` voters
    /// quorate: `percent`% of them (clamped to 100%), rounded up, computed
    /// with integer scaling only.
    pub fn quorum_required(eligible: u32, percent: u32) -> (r: u32)
        ensures
            r == quorum_of(eligible, percent),
            r <= eligible,
    {
        let p: u64 = if percent > 100 {
            100
        } else {
            percent as u64
        };
        assert((eligible as u64) * p <= u32::MAX * 100) by (nonlinear_arith)
            requires
                p <= 100,
                eligible <= u32::MAX,
        ;
        let scaled: u64 = (eligible as u64) * p;
        assert(scaled <= eligible * 100) by (nonlinear_arith)
            requires
                scaled == eligible * p,
                p <= 100,
        ;
        let q: u64 = (scaled + 99) / 100;
        assert(q <= eligible) by (nonlinear_arith)
            requires
                q == (scaled + 99) / 100,
                scaled <= eligible * 100,
        ;
        q as u32
    }

    /// The smallest number of approvals that exceeds half of `eligible`: a
    /// strict majority (an exact tie never reaches it).
    pub fn majority_required(eligible: u32) -> (r: u32)
        ensures
            r == majority_of(eligible),
    {
        eligible / 2 + 1
    }

    /// Whether `approvals` is a strict majority of `eligible` voters.
    pub fn has_majority(approvals: u32, eligible: u32) -> (r: bool)
        ensures
            r == (approvals >= majority_of(eligible)),
            r == (2 * approvals > eligible),
    {
        approvals >= Self::majority_required(eligible)
    }

    /// Whether a tally of `approvals` clears every bar.
    pub fn met_by(&self, approvals: u32) -> (r: bool)
        ensures
            r == clears(*self, approvals),
    {
        approvals >= self.threshold && approvals >= self.quorum && approvals >= self.majority
    }

    /// Refuse a tally that misses any bar with `ThresholdNotMet`.
    pub fn ensure_met(&self, approvals: u32) -> (r: Result<(), Error>)
        ensures
            r == (if clears(*self, approvals) {
                Ok::<(), Error>(())
            } else {
                Err(Error::ThresholdNotMet)
            }),
    {
        if self.met_by(approvals) {
            Ok(())
        } else {
            Err(Error::ThresholdNotMet)
        }
    }
}

// ---------------------------------------------------------------------------
// Lifecycle model.
// ---------------------------------------------------------------------------

/// The deposit refund of a proposal: its first leg back to the proposer.
pub open spec fn refund(p: Proposal) -> Seq<Movement> {
    if p.deposit@.len() > 0 {
        seq![
            Movement::Payout {
                asset: p.deposit@[0].asset,
                to: p.proposer,
                amount: p.deposit@[0].amount,
            },
        ]
    } else {
        Seq::empty()
    }
}

/// The deposit pulled at creation: the first leg, from the proposer.
pub open spec fn deposit_pull(proposer: Address, deposit: Seq<AssetAmount>) -> Seq<Movement> {
    if deposit.len() > 0 {
        seq![Movement::Deposit { asset: deposit[0].asset, from: proposer, amount: deposit[0].amount }]
    } else {
        Seq::empty()
    }
}

/// Whether a call at `now` records the proposal's expiry: it is live
/// (`Pending` or `Approved`) and stale.
pub open spec fn expires_now(p: Proposal, now: u64) -> bool {
    (p.state == ProposalState::Pending || p.state == ProposalState::Approved) && stale(p, now)
}

/// Whether a call at `now` ends in the expiry settlement (recorded now or
/// earlier) instead of doing what it was asked.
pub open spec fn settles(p: Proposal, now: u64) -> bool {
    p.state == ProposalState::Expired || expires_now(p, now)
}

/// The record after the expiry settlement at `now`.
pub open spec fn settled(p: Proposal, now: u64) -> Proposal {
    if expires_now(p, now) {
        Proposal { state: ProposalState::Expired, ..p }
    } else {
        p
    }
}

/// The movements of the expiry settlement at `now`.
pub open spec fn settle_moves(p: Proposal, now: u64) -> Seq<Movement> {
    if expires_now(p, now) {
        refund(p)
    } else {
        Seq::empty()
    }
}

/// `approve` on a record that does not settle: a pending proposal, an
/// approver who has not voted yet; the threshold moves it to `Approved` and
/// stamps the approval time.
pub open spec fn approving(p: Proposal, voted: bool, caller: Address, now: u64) -> Result<Proposal, Error> {
    if p.state != ProposalState::Pending {
        Err(Error::InvalidProposalState)
    } else if !lists(p.approvers@, caller) {
        Err(Error::NotAnApprover)
    } else if voted {
        Err(Error::AlreadySigned)
    } else if p.approvals == u32::MAX {
        Err(Error::Overflow)
    } else if p.approvals + 1 >= p.threshold {
        Ok(
            Proposal {
                approvals: (p.approvals + 1) as u32,
                state: ProposalState::Approved,
                approved_at: now,
                ..p
            },
        )
    } else {
        Ok(Proposal { approvals: (p.approvals + 1) as u32, ..p })
    }
}

/// `reject`: an approver turns a pending proposal down.
pub open spec fn rejecting(p: Proposal, caller: Address) -> Result<Proposal, Error> {
    if p.state != ProposalState::Pending {
        Err(Error::InvalidProposalState)
    } else if !lists(p.approvers@, caller) {
        Err(Error::NotAnApprover)
    } else {
        Ok(Proposal { state: ProposalState::Rejected, ..p })
    }
}

/// The end of the cancellation window, saturating.
pub open spec fn cancel_window_end(p: Proposal) -> u64 {
    if p.created_at + p.grace_period > u64::MAX {
        u64::MAX
    } else {
        (p.created_at + p.grace_period) as u64
    }
}

/// `cancel`: the proposer withdraws a proposal that has not run, within the
/// cancellation window (inclusive) when there is one.
pub open spec fn cancelling(p: Proposal, caller: Address, now: u64) -> Result<Proposal, Error> {
    if caller@ != p.proposer@ {
        Err(Error::Unauthorized)
    } else if p.state == ProposalState::Executed || p.state == ProposalState::Closed || p.state
        == ProposalState::Cancelled {
        Err(Error::InvalidProposalState)
    } else if p.grace_period != 0 && now > cancel_window_end(p) {
        Err(Error::CancellationWindowClosed)
    } else {
        Ok(Proposal { state: ProposalState::Cancelled, ..p })
    }
}

/// The proposal stored under `id`, if any.
pub open spec fn record_of(records: Seq<Option<Proposal>>, id: u64) -> Option<Proposal> {
    if 1 <= id <= records.len() {
        records[id - 1]
    } else {
        None
    }
}

/// The first unmet prerequisite among `deps` from position `i` on: a
/// missing record (`NotFound`) or one that has not executed.
pub open spec fn deps_from(records: Seq<Option<Proposal>>, deps: Seq<u64>, i: int) -> Result<(), Error>
    decreases deps.len() - i,
{
    if i < 0 || i >= deps.len() {
        Ok(())
    } else {
        match record_of(records, deps[i]) {
            None => Err(Error::NotFound),
            Some(q) => if !q.state.spec_has_executed() {
                Err(Error::PrerequisiteNotMet)
            } else {
                deps_from(records, deps, i + 1)
            },
        }
    }
}

/// `execute`: the proposer runs an approved proposal whose tally clears
/// every bar, whose timelock has elapsed and whose prerequisites have all
/// executed (`deps` is the outcome of that last check).
pub open spec fn executing(p: Proposal, caller: Address, now: u64, timelock: u64, deps: Result<(), Error>) -> Result<
    Proposal,
    Error,
> {
    if caller@ != p.proposer@ {
        Err(Error::Unauthorized)
    } else if p.state != ProposalState::Approved {
        Err(Error::ProposalNotApproved)
    } else if !clears(bars_of(p.approvers@.len() as u32, p.threshold), p.approvals) {
        Err(Error::ThresholdNotMet)
    } else if timelock_gate(now, timelock, p.approved_at) is Err {
        Err(timelock_gate(now, timelock, p.approved_at)->Err_0)
    } else if deps is Err {
        Err(deps->Err_0)
    } else {
        Ok(Proposal { state: ProposalState::Executed, ..p })
    }
}

/// `fail`: the proposer records that an approved proposal's action failed.
pub open spec fn failing(p: Proposal, caller: Address) -> Result<Proposal, Error> {
    if caller@ != p.proposer@ {
        Err(Error::Unauthorized)
    } else if p.state != ProposalState::Approved {
        Err(Error::ProposalNotApproved)
    } else {
        Ok(Proposal { state: ProposalState::Failed, ..p })
    }
}

/// `close`: the proposer closes an executed proposal.
pub open spec fn closing(p: Proposal, caller: Address) -> Result<Proposal, Error> {
    if caller@ != p.proposer@ {
        Err(Error::Unauthorized)
    } else if p.state != ProposalState::Executed {
        Err(Error::InvalidProposalState)
    } else {
        Ok(Proposal { state: ProposalState::Closed, ..p })
    }
}

/// `cleanup_expired` on the settled record: it must be stale and have
/// settled its deposit.
pub open spec fn purgeable(p: Proposal, now: u64) -> Result<(), Error> {
    if !stale(settled(p, now), now) {
        Err(Error::InvalidProposalState)
    } else if !settled(p, now).state.spec_deposit_settled() {
        Err(Error::InvalidProposalState)
    } else {
        Ok(())
    }
}

/// The argument checks of `create`, in order, before any id is assigned.
pub open spec fn create_checks(
    org: String,
    approvers: Seq<Address>,
    threshold: u32,
    deposit: Seq<AssetAmount>,
    deps: Seq<u64>,
    expires_at: u64,
    now: u64,
) -> Result<(), Error> {
    if org@.len() == 0 {
        Err(Error::InvalidInput)
    } else if approvers.len() == 0 || approvers.len() > MAX_APPROVERS {
        Err(Error::InvalidInput)
    } else if threshold == 0 || threshold > approvers.len() {
        Err(Error::InvalidThreshold)
    } else if deposit.len() > 0 && deposit[0].amount <= 0 {
        Err(Error::InvalidAmount)
    } else if expires_at != 0 && expires_at <= now {
        Err(Error::InvalidInput)
    } else if deps.len() > MAX_DEPENDENCIES {
        Err(Error::InvalidInput)
    } else {
        Ok(())
    }
}

/// The first bad prerequisite among `deps` from position `i` on: one that
/// does not point strictly below `id` (a cycle, or a self-reference), or one
/// that names no stored proposal.
pub open spec fn dep_scan(records: Seq<Option<Proposal>>, deps: Seq<u64>, id: u64, i: int) -> Option<Error>
    decreases deps.len() - i,
{
    if i < 0 || i >= deps.len() {
        None
    } else if deps[i] >= id {
        Some(Error::CircularDependencyDetected)
    } else if record_of(records, deps[i]) is None {
        Some(Error::NotFound)
    } else {
        dep_scan(records, deps, id, i + 1)
    }
}

/// `deps` with later repetitions dropped, first occurrences kept in order.
pub open spec fn dedup(deps: Seq<u64>) -> Seq<u64>
    decreases deps.len(),
{
    if deps.len() == 0 {
        Seq::empty()
    } else {
        let prev = dedup(deps.drop_last());
        if prev.contains(deps.last()) {
            prev
        } else {
            prev.push(deps.last())
        }
    }
}

/// Whether a stored record under `id` is linked soundly: a bounded
/// allow-list, and distinct prerequisites that all point strictly below
/// `id` (so the dependency graph can have no cycle).
pub open spec fn well_linked(p: Proposal, id: int) -> bool {
    &&& p.approvers@.len() <= MAX_APPROVERS
    &&& forall|k: int| 0 <= k < p.dependencies@.len() ==> 1 <= #[trigger] p.dependencies@[k] < id
    &&& forall|a: int, b: int|
        0 <= a < b < p.dependencies@.len() ==> #[trigger] p.dependencies@[a]
            != #[trigger] p.dependencies@[b]
}

/// The record `create` stores.
pub open spec fn fresh_record(
    p: Proposal,
    proposer: Address,
    org: String,
    wallet: String,
    policy: String,
    approvers: Seq<Address>,
    deps: Seq<u64>,
    threshold: u32,
    deposit: Seq<AssetAmount>,
    expires_at: u64,
    grace_period: u64,
    now: u64,
) -> bool {
    &&& p.proposer == proposer
    &&& p.org == org
    &&& p.wallet == wallet
    &&& p.policy == policy
    &&& p.approvers@ == approvers
    &&& p.dependencies@ == dedup(deps)
    &&& p.threshold == threshold
    &&& p.approvals == 0
    &&& p.state == ProposalState::Pending
    &&& p.created_at == now
    &&& p.approved_at == 0
    &&& p.deposit@ == deposit
    &&& p.expires_at == expires_at
    &&& p.grace_period == grace_period
}

/// The proposal ledger: the timelock, every proposal by id (a purged id
/// keeps its slot, empty), and who has approved each.
pub struct ProposalContract {
    initialized: bool,
    timelock: u64,
    proposals: Vec<Option<Proposal>>,
    voters: Vec<Vec<Address>>,
}

/// `new` replaces `old`'s record `id` by `p`, and nothing else changes.
pub open spec fn replaced(old: ProposalContract, new: ProposalContract, id: u64, p: Proposal) -> bool {
    &&& new.records() == old.records().update(id - 1, Some(p))
    &&& new.voter_records() == old.voter_records()
    &&& new.is_initialized() == old.is_initialized()
    &&& new.timelock_of() == old.timelock_of()
}

/// `new` is `old` after the expiry settlement of record `id` at `now`.
pub open spec fn settled_into(old: ProposalContract, new: ProposalContract, id: u64, now: u64) -> bool {
    replaced(old, new, id, settled(old.proposal(id)->0, now))
}

/// What a lifecycle call on record `id` at `now` does, given the outcome
/// `step` of its own rules on the live record and the movements `moves` it
/// makes when those succeed: a missing record is `NotFound`; a stale or
/// expired record is settled instead; otherwise `step` decides, and a
/// refusal changes nothing.
pub open spec fn lifecycle(
    old: ProposalContract,
    new: ProposalContract,
    id: u64,
    now: u64,
    step: Result<Proposal, Error>,
    moves: Seq<Movement>,
    r: Result<Vec<Movement>, Error>,
) -> bool {
    match old.proposal(id) {
        None => r == Err::<Vec<Movement>, Error>(Error::NotFound) && new == old,
        Some(p) => if settles(p, now) {
            r matches Ok(m) && m@ == settle_moves(p, now) && settled_into(old, new, id, now)
        } else {
            match step {
                Err(e) => r == Err::<Vec<Movement>, Error>(e) && new == old,
                Ok(np) => r matches Ok(m) && m@ == moves && replaced(old, new, id, np),
            }
        },
    }
}

impl ProposalContract {
    /// Records linked soundly, one approval list per slot, and no proposal
    /// before initialization.
    pub open spec fn wf(self) -> bool {
        &&& self.records().len() == self.voter_records().len()
        &&& !self.is_initialized() ==> self.records().len() == 0
        &&& forall|i: int|
            0 <= i < self.records().len() && #[trigger] self.records()[i] is Some ==> well_linked(
                self.records()[i]->0,
                i + 1,
            )
    }

    /// Whether `initialize` has run.
    pub closed spec fn is_initialized(self) -> bool {
        self.initialized
    }

    /// The mandatory delay between approval and execution.
    pub closed spec fn timelock_of(self) -> u64 {
        self.timelock
    }

    /// Every slot, in id order (`None` once purged).
    pub closed spec fn records(self) -> Seq<Option<Proposal>> {
        self.proposals@
    }

    /// Who has approved each proposal, in id order.
    pub closed spec fn voter_records(self) -> Seq<Seq<Address>> {
        self.voters@.map_values(|v: Vec<Address>| v@)
    }

    /// The proposal stored under `id`, if any.
    pub open spec fn proposal(self, id: u64) -> Option<Proposal> {
        record_of(self.records(), id)
    }

    /// Whether `caller` has approved proposal `id`.
    pub open spec fn has_voted(self, id: u64, caller: Address) -> bool {
        lists(self.voter_records()[id - 1], caller)
    }

    /// A well-formed ledger links each stored proposal soundly.
    pub proof fn lemma_wf_links(self, id: u64)
        requires
            self.wf(),
            self.proposal(id) is Some,
        ensures
            well_linked(self.proposal(id)->0, id as int),
    {
        assert(self.proposals@[id - 1] is Some);
    }

    /// An uninitialized ledger.
    pub fn new() -> (c: Self)
        ensures
            c.wf(),
            !c.is_initialized(),
            c.records().len() == 0,
            c.voter_records().len() == 0,
    {
        ProposalContract { initialized: false, timelock: 0, proposals: Vec::new(), voters: Vec::new() }
    }

    /// Initialize once, with the mandatory delay (seconds) between approval
    /// and execution; `0` disables it.
    pub fn initialize(&mut self, timelock: u64) -> (r: Result<(), Error>)
        requires
            old(self).wf(),
        ensures
            final(self).wf(),
            old(self).is_initialized() ==> r == Err::<(), Error>(Error::AlreadyInitialized)
                && *final(self) == *old(self),
            !old(self).is_initialized() ==> r is Ok && final(self).is_initialized()
                && final(self).timelock_of() == timelock && final(self).records()
                == old(self).records() && final(self).voter_records() == old(self).voter_records(),
    {
        if self.initialized {
            return Err(Error::AlreadyInitialized);
        }
        self.initialized = true;
        self.timelock = timelock;
        Ok(())
    }

    /// Quorum calculation helper: `percent`% of `eligible`, clamped to 100%
    /// and rounded up.
    pub fn quorum_required(eligible: u32, percent: u32) -> (r: u32)
        ensures
            r == quorum_of(eligible, percent),
            r <= eligible,
    {
        VoteBars::quorum_required(eligible, percent)
    }

    /// Majority check helper: one past half of `eligible`.
    pub fn majority_required(eligible: u32) -> (r: u32)
        ensures
            r == majority_of(eligible),
    {
        VoteBars::majority_required(eligible)
    }

    /// Whether `approvals` is a strict majority of `eligible` voters.
    pub fn has_majority(approvals: u32, eligible: u32) -> (r: bool)
        ensures
            r == (2 * approvals > eligible),
    {
        VoteBars::has_majority(approvals, eligible)
    }

    /// The refund movements of `p`'s deposit.
    fn refund_moves(p: &Proposal) -> (r: Vec<Movement>)
        ensures
            r@ == refund(*p),
    {
        let mut moves: Vec<Movement> = Vec::new();
        if p.deposit.len() > 0 {
            moves.push(
                Movement::Payout {
                    asset: p.deposit[0].asset.clone(),
                    to: p.proposer.clone(),
                    amount: p.deposit[0].amount,
                },
            );
        }
        moves
    }

    /// Rewrite the mutable bookkeeping of stored record `i`.
    fn set_record(&mut self, i: usize, state: ProposalState, approvals: u32, approved_at: u64)
        requires
            old(self).wf(),
            i < old(self).records().len(),
            old(self).records()[i as int] is Some,
        ensures
            final(self).wf(),
            final(self).records() == old(self).records().update(
                i as int,
                Some(Proposal { state, approvals, approved_at, ..old(self).records()[i as int]->0 }),
            ),
            final(self).voters@ == old(self).voters@,
            final(self).initialized == old(self).initialized,
            final(self).timelock == old(self).timelock,
    {
        let ghost before = self.proposals@;
        let mut p = match self.proposals[i].take() {
            Some(p) => p,
            None => {
                return ;
            },
        };
        p.state = state;
        p.approvals = approvals;
        p.approved_at = approved_at;
        self.proposals.set(i, Some(p));
        proof {
            assert forall|j: int|
                0 <= j < self.proposals@.len() && #[trigger] self.proposals@[j] is Some implies well_linked(
                self.proposals@[j]->0,
                j + 1,
            ) by {
                assert(before[j] is Some);
            }
        }
    }

    /// Locate record `id` and apply its expiry settlement at `now`. Returns
    /// the slot, whether the call must stop there (the record is or just
    /// became `Expired`), and the settlement's movements.
    fn settle_slot(&mut self, now: u64, id: u64) -> (r: Result<(usize, bool, Vec<Movement>), Error>)
        requires
            old(self).wf(),
        ensures
            final(self).wf(),
            match old(self).proposal(id) {
                None => r == Err::<(usize, bool, Vec<Movement>), Error>(Error::NotFound)
                    && *final(self) == *old(self),
                Some(p) => r matches Ok((i, done, m)) && i == id - 1 && done == settles(p, now)
                    && m@ == settle_moves(p, now) && settled_into(*old(self), *final(self), id, now)
                    && (!expires_now(p, now) ==> *final(self) == *old(self)),
            },
    {
        let n = self.proposals.len();
        if id == 0 || id as u128 > n as u128 {
            return Err(Error::NotFound);
        }
        let i = (id - 1) as usize;
        let (state, stale_now, approvals, approved_at, moves) = match &self.proposals[i] {
            None => return Err(Error::NotFound),
            Some(p) => (p.state, p.is_expired(now), p.approvals, p.approved_at, Self::refund_moves(p)),
        };
        if state == ProposalState::Expired {
            proof {
                assert(self.records().update(i as int, Some(self.records()[i as int]->0))
                    =~= self.records());
            }
            return Ok((i, true, Vec::new()));
        }
        if !((state == ProposalState::Pending || state == ProposalState::Approved) && stale_now) {
            proof {
                assert(self.records().update(i as int, Some(self.records()[i as int]->0))
                    =~= self.records());
            }
            return Ok((i, false, Vec::new()));
        }
        self.set_record(i, ProposalState::Expired, approvals, approved_at);
        Ok((i, true, moves))
    }

    /// Whether every prerequisite in `deps` has executed, checked in order;
    /// the first missing or unexecuted one is the error.
    fn deps_met(&self, deps: &Vec<u64>) -> (r: Result<(), Error>)
        ensures
            r == deps_from(self.records(), deps@, 0),
    {
        let n = self.proposals.len();
        let mut k: usize = 0;
        while k < deps.len()
            invariant
                k <= deps@.len(),
                n == self.proposals@.len(),
                deps_from(self.records(), deps@, 0) == deps_from(self.records(), deps@, k as int),
            decreases deps@.len() - k,
        {
            let d = deps[k];
            if d == 0 || d as u128 > n as u128 {
                return Err(Error::NotFound);
            }
            match &self.proposals[(d - 1) as usize] {
                None => {
                    return Err(Error::NotFound);
                },
                Some(q) => {
                    if !q.state.has_executed() {
                        return Err(Error::PrerequisiteNotMet);
                    }
                },
            }
            k = k + 1;
        }
        Ok(())
    }

    /// Whether `d` is already in `ids`.
    fn contains_id(ids: &Vec<u64>, d: u64) -> (r: bool)
        ensures
            r == ids@.contains(d),
    {
        let mut k: usize = 0;
        while k < ids.len()
            invariant
                k <= ids@.len(),
                forall|j: int| 0 <= j < k ==> ids@[j] != d,
            decreases ids@.len() - k,
        {
            if ids[k] == d {
                return true;
            }
            k = k + 1;
        }
        false
    }

    /// Create a proposal in `Pending` and return its id with the deposit
    /// pull. The allow-list must be non-empty and bounded, the threshold
    /// within it, a deposit positive, a deadline in the future, and every
    /// prerequisite an existing proposal with a smaller id (duplicates are
    /// collapsed).
    pub fn create(
        &mut self,
        now: u64,
        proposer: Address,
        org: String,
        wallet: String,
        policy: String,
        approvers: Vec<Address>,
        dependencies: Vec<u64>,
        threshold: u32,
        deposit: Vec<AssetAmount>,
        expires_at: u64,
        grace_period: u64,
    ) -> (r: Result<(u64, Vec<Movement>), Error>)
        requires
            old(self).wf(),
        ensures
            final(self).wf(),
            match create_checks(org, approvers@, threshold, deposit@, dependencies@, expires_at, now) {
                Err(e) => r == Err::<(u64, Vec<Movement>), Error>(e) && *final(self) == *old(self),
                Ok(()) => if !old(self).is_initialized() {
                    r == Err::<(u64, Vec<Movement>), Error>(Error::NotInitialized) && *final(self)
                        == *old(self)
                } else if old(self).records().len() >= u64::MAX {
                    r == Err::<(u64, Vec<Movement>), Error>(Error::Overflow) && *final(self)
                        == *old(self)
                } else {
                    let id = (old(self).records().len() + 1) as u64;
                    match dep_scan(old(self).records(), dependencies@, id, 0) {
                        Some(e) => r == Err::<(u64, Vec<Movement>), Error>(e) && *final(self)
                            == *old(self),
                        None => r matches Ok((rid, m)) && {
                            &&& rid == id
                            &&& m@ == deposit_pull(proposer, deposit@)
                            &&& final(self).records().len() == id
                            &&& final(self).records().subrange(0, id - 1) == old(self).records()
                            &&& final(self).records()[id - 1] is Some
                            &&& fresh_record(
                                final(self).records()[id - 1]->0,
                                proposer,
                                org,
                                wallet,
                                policy,
                                approvers@,
                                dependencies@,
                                threshold,
                                deposit@,
                                expires_at,
                                grace_period,
                                now,
                            )
                            &&& final(self).voter_records() == old(self).voter_records().push(Seq::empty())
                            &&& final(self).is_initialized()
                            &&& final(self).timelock_of() == old(self).timelock_of()
                        },
                    }
                },
            },
    {
        require_non_empty(&org)?;
        let n = approvers.len();
        if n == 0 || n > MAX_APPROVERS {
            return Err(Error::InvalidInput);
        }
        if threshold == 0 || threshold as usize > n {
            return Err(Error::InvalidThreshold);
        }
        let mut pull: Vec<Movement> = Vec::new();
        if deposit.len() > 0 {
            if deposit[0].amount <= 0 {
                return Err(Error::InvalidAmount);
            }
            pull.push(
                Movement::Deposit {
                    asset: deposit[0].asset.clone(),
                    from: proposer.clone(),
                    amount: deposit[0].amount,
                },
            );
        }
        if expires_at != 0 && expires_at <= now {
            return Err(Error::InvalidInput);
        }
        if dependencies.len() > MAX_DEPENDENCIES {
            return Err(Error::InvalidInput);
        }
        if !self.initialized {
            return Err(Error::NotInitialized);
        }
        let count = self.proposals.len();
        if count as u128 >= u64::MAX as u128 {
            return Err(Error::Overflow);
        }
        let id: u64 = count as u64 + 1;
        let mut deps: Vec<u64> = Vec::new();
        let mut k: usize = 0;
        while k < dependencies.len()
            invariant
                k <= dependencies@.len(),
                *self == *old(self),
                old(self).wf(),
                create_checks(org, approvers@, threshold, deposit@, dependencies@, expires_at, now)
                    is Ok,
                old(self).is_initialized(),
                old(self).records().len() < u64::MAX,
                count == self.proposals@.len(),
                id == count + 1,
                dep_scan(self.records(), dependencies@, id, 0) == dep_scan(
                    self.records(),
                    dependencies@,
                    id,
                    k as int,
                ),
                deps@ == dedup(dependencies@.subrange(0, k as int)),
                forall|j: int| 0 <= j < deps@.len() ==> 1 <= #[trigger] deps@[j] < id,
                forall|a: int, b: int|
                    0 <= a < b < deps@.len() ==> #[trigger] deps@[a] != #[trigger] deps@[b],
            decreases dependencies@.len() - k,
        {
            let d = dependencies[k];
            if d >= id {
                return Err(Error::CircularDependencyDetected);
            }
            if d == 0 {
                return Err(Error::NotFound);
            }
            if self.proposals[(d - 1) as usize].is_none() {
                return Err(Error::NotFound);
            }
            let ghost next = dependencies@.subrange(0, k + 1);
            assert(next.drop_last() =~= dependencies@.subrange(0, k as int));
            if !Self::contains_id(&deps, d) {
                deps.push(d);
            }
            k = k + 1;
        }
        assert(dependencies@.subrange(0, dependencies@.len() as int) =~= dependencies@);
        let p = Proposal {
            proposer,
            org,
            wallet,
            policy,
            approvers,
            dependencies: deps,
            threshold,
            approvals: 0,
            state: ProposalState::Pending,
            created_at: now,
            approved_at: 0,
            deposit,
            expires_at,
            grace_period,
        };
        let ghost before = self.proposals@;
        let ghost vbefore = self.voters@;
        self.proposals.push(Some(p));
        self.voters.push(Vec::new());
        proof {
            assert(self.records().subrange(0, id - 1) =~= before);
            assert(self.voter_records() =~= vbefore.map_values(|v: Vec<Address>| v@).push(
                Seq::empty(),
            ));
            assert forall|j: int|
                0 <= j < self.proposals@.len() && #[trigger] self.proposals@[j] is Some implies well_linked(
                self.proposals@[j]->0,
                j + 1,
            ) by {
                if j < before.len() {
                    assert(before[j] is Some);
                }
            }
        }
        Ok((id, pull))
    }

    /// Approve a pending proposal: the caller must be on the allow-list and
    /// may approve once; reaching the threshold moves it to `Approved` and
    /// stamps the approval time. Returns the approval count (unchanged when
    /// the call settles an expired proposal instead).
    pub fn approve(&mut self, now: u64, caller: &Address, id: u64) -> (r: Result<(u32, Vec<Movement>), Error>)
        requires
            old(self).wf(),
        ensures
            final(self).wf(),
            match old(self).proposal(id) {
                None => r == Err::<(u32, Vec<Movement>), Error>(Error::NotFound) && *final(self)
                    == *old(self),
                Some(p) => if settles(p, now) {
                    r matches Ok((n, m)) && n == p.approvals && m@ == settle_moves(p, now)
                        && settled_into(*old(self), *final(self), id, now)
                } else {
                    match approving(p, old(self).has_voted(id, *caller), *caller, now) {
                        Err(e) => r == Err::<(u32, Vec<Movement>), Error>(e) && *final(self)
                            == *old(self),
                        Ok(np) => r matches Ok((n, m)) && n == np.approvals && m@.len() == 0
                            && final(self).records() == old(self).records().update(id - 1, Some(np))
                            && final(self).voter_records() == old(self).voter_records().update(
                            id - 1,
                            old(self).voter_records()[id - 1].push(*caller),
                        ) && final(self).is_initialized() == old(self).is_initialized()
                            && final(self).timelock_of() == old(self).timelock_of(),
                    }
                },
            },
    {
        let (i, done, moves) = self.settle_slot(now, id)?;
        let (state, listed, approvals, approved_at, threshold) = match &self.proposals[i] {
            None => return Err(Error::NotFound),
            Some(p) => (p.state, lists_key(&p.approvers, caller), p.approvals, p.approved_at, p.threshold),
        };
        if done {
            return Ok((approvals, moves));
        }
        if state != ProposalState::Pending {
            return Err(Error::InvalidProposalState);
        }
        if !listed {
            return Err(Error::NotAnApprover);
        }
        if lists_key(&self.voters[i], caller) {
            return Err(Error::AlreadySigned);
        }
        if approvals == u32::MAX {
            return Err(Error::Overflow);
        }
        let n = approvals + 1;
        if n >= threshold {
            self.set_record(i, ProposalState::Approved, n, now);
        } else {
            self.set_record(i, state, n, approved_at);
        }
        let ghost vbefore = self.voters@;
        self.voters[i].push(caller.clone());
        proof {
            assert(self.voter_records() =~= vbefore.map_values(|v: Vec<Address>| v@).update(
                i as int,
                vbefore[i as int]@.push(*caller),
            ));
        }
        Ok((n, Vec::new()))
    }

    /// Reject a pending proposal (any approver); the deposit is refunded.
    pub fn reject(&mut self, now: u64, caller: &Address, id: u64) -> (r: Result<Vec<Movement>, Error>)
        requires
            old(self).wf(),
        ensures
            final(self).wf(),
            lifecycle(
                *old(self),
                *final(self),
                id,
                now,
                rejecting(old(self).proposal(id)->0, *caller),
                refund(old(self).proposal(id)->0),
                r,
            ),
    {
        let (i, done, moves) = self.settle_slot(now, id)?;
        if done {
            return Ok(moves);
        }
        let (state, listed, approvals, approved_at, refund_m) = match &self.proposals[i] {
            None => return Err(Error::NotFound),
            Some(p) => (
                p.state,
                lists_key(&p.approvers, caller),
                p.approvals,
                p.approved_at,
                Self::refund_moves(p),
            ),
        };
        if state != ProposalState::Pending {
            return Err(Error::InvalidProposalState);
        }
        if !listed {
            return Err(Error::NotAnApprover);
        }
        self.set_record(i, ProposalState::Rejected, approvals, approved_at);
        Ok(refund_m)
    }

    /// Cancel a proposal that has not run (the proposer only), within the
    /// cancellation window when there is one; the deposit is refunded.
    pub fn cancel(&mut self, now: u64, caller: &Address, id: u64) -> (r: Result<Vec<Movement>, Error>)
        requires
            old(self).wf(),
        ensures
            final(self).wf(),
            lifecycle(
                *old(self),
                *final(self),
                id,
                now,
                cancelling(old(self).proposal(id)->0, *caller, now),
                refund(old(self).proposal(id)->0),
                r,
            ),
    {
        let (i, done, moves) = self.settle_slot(now, id)?;
        if done {
            return Ok(moves);
        }
        let (is_proposer, state, created_at, grace, approvals, approved_at, refund_m) =
            match &self.proposals[i] {
            None => return Err(Error::NotFound),
            Some(p) => (
                *caller == p.proposer,
                p.state,
                p.created_at,
                p.grace_period,
                p.approvals,
                p.approved_at,
                Self::refund_moves(p),
            ),
        };
        if !is_proposer {
            return Err(Error::Unauthorized);
        }
        if state == ProposalState::Executed || state == ProposalState::Closed || state
            == ProposalState::Cancelled {
            return Err(Error::InvalidProposalState);
        }
        if grace != 0 {
            let end = if created_at > u64::MAX - grace {
                u64::MAX
            } else {
                created_at + grace
            };
            if now > end {
                return Err(Error::CancellationWindowClosed);
            }
        }
        self.set_record(i, ProposalState::Cancelled, approvals, approved_at);
        Ok(refund_m)
    }

    /// Record the expiry of a stale live proposal (anyone may call); the
    /// deposit is refunded. Already expired: nothing to do. Not stale:
    /// `InvalidProposalState`.
    pub fn expire(&mut self, now: u64, id: u64) -> (r: Result<Vec<Movement>, Error>)
        requires
            old(self).wf(),
        ensures
            final(self).wf(),
            lifecycle(
                *old(self),
                *final(self),
                id,
                now,
                Err(Error::InvalidProposalState),
                Seq::empty(),
                r,
            ),
    {
        let (_i, done, moves) = self.settle_slot(now, id)?;
        if !done {
            return Err(Error::InvalidProposalState);
        }
        Ok(moves)
    }

    /// Purge a stale proposal whose deposit is settled, with its approval
    /// flags. A stale live proposal is settled (and refunded) first.
    pub fn cleanup_expired(&mut self, now: u64, id: u64) -> (r: Result<Vec<Movement>, Error>)
        requires
            old(self).wf(),
        ensures
            final(self).wf(),
            match old(self).proposal(id) {
                None => r == Err::<Vec<Movement>, Error>(Error::NotFound)
                    && *final(self) == *old(self),
                Some(p) => match purgeable(p, now) {
                    Err(e) => r == Err::<Vec<Movement>, Error>(e) && *final(self) == *old(self),
                    Ok(()) => r matches Ok(m) && m@ == settle_moves(p, now) && final(self).records()
                        == old(self).records().update(id - 1, None) && final(self).voter_records()
                        == old(self).voter_records().update(id - 1, Seq::empty())
                        && final(self).is_initialized() == old(self).is_initialized()
                        && final(self).timelock_of() == old(self).timelock_of(),
                },
            },
    {
        let n = self.proposals.len();
        if id == 0 || id as u128 > n as u128 {
            return Err(Error::NotFound);
        }
        let i = (id - 1) as usize;
        let moves = match &self.proposals[i] {
            None => return Err(Error::NotFound),
            Some(p) => {
                let expiring = (p.state == ProposalState::Pending || p.state
                    == ProposalState::Approved) && p.is_expired(now);
                let state = if expiring {
                    ProposalState::Expired
                } else {
                    p.state
                };
                if !p.is_expired(now) {
                    return Err(Error::InvalidProposalState);
                }
                if !state.deposit_settled() {
                    return Err(Error::InvalidProposalState);
                }
                if expiring {
                    Self::refund_moves(p)
                } else {
                    Vec::new()
                }
            },
        };
        let ghost before = self.proposals@;
        let ghost vbefore = self.voters@;
        self.proposals.set(i, None);
        self.voters.set(i, Vec::new());
        proof {
            assert(self.voter_records() =~= vbefore.map_values(|v: Vec<Address>| v@).update(
                i as int,
                Seq::empty(),
            ));
            assert forall|j: int|
                0 <= j < self.proposals@.len() && #[trigger] self.proposals@[j] is Some implies well_linked(
                self.proposals@[j]->0,
                j + 1,
            ) by {
                assert(before[j] is Some);
            }
        }
        Ok(moves)
    }

    /// Execute an approved proposal (the proposer only): the tally must
    /// still clear the threshold, quorum and majority bars, the timelock
    /// must have elapsed and every prerequisite must have executed. The
    /// deposit is refunded.
    pub fn execute(&mut self, now: u64, caller: &Address, id: u64) -> (r: Result<Vec<Movement>, Error>)
        requires
            old(self).wf(),
        ensures
            final(self).wf(),
            lifecycle(
                *old(self),
                *final(self),
                id,
                now,
                executing(
                    old(self).proposal(id)->0,
                    *caller,
                    now,
                    old(self).timelock_of(),
                    deps_from(old(self).records(), old(self).proposal(id)->0.dependencies@, 0),
                ),
                refund(old(self).proposal(id)->0),
                r,
            ),
    {
        let (i, done, moves) = self.settle_slot(now, id)?;
        if done {
            return Ok(moves);
        }
        let (approvals, approved_at, refund_m) = match &self.proposals[i] {
            None => return Err(Error::NotFound),
            Some(p) => {
                if !(*caller == p.proposer) {
                    return Err(Error::Unauthorized);
                }
                if p.state != ProposalState::Approved {
                    return Err(Error::ProposalNotApproved);
                }
                proof {
                    assert(well_linked(self.proposals@[i as int]->0, i + 1));
                }
                VoteBars::for_proposal(p).ensure_met(p.approvals)?;
                require_timelock_elapsed(now, self.timelock, p)?;
                self.deps_met(&p.dependencies)?;
                (p.approvals, p.approved_at, Self::refund_moves(p))
            },
        };
        self.set_record(i, ProposalState::Executed, approvals, approved_at);
        Ok(refund_m)
    }

    /// Record that an approved proposal's action failed (the proposer
    /// only). A failed proposal never satisfies a dependent one.
    pub fn fail(&mut self, now: u64, caller: &Address, id: u64) -> (r: Result<Vec<Movement>, Error>)
        requires
            old(self).wf(),
        ensures
            final(self).wf(),
            lifecycle(
                *old(self),
                *final(self),
                id,
                now,
                failing(old(self).proposal(id)->0, *caller),
                Seq::empty(),
                r,
            ),
    {
        let (i, done, moves) = self.settle_slot(now, id)?;
        if done {
            return Ok(moves);
        }
        let (is_proposer, state, approvals, approved_at) = match &self.proposals[i] {
            None => return Err(Error::NotFound),
            Some(p) => (*caller == p.proposer, p.state, p.approvals, p.approved_at),
        };
        if !is_proposer {
            return Err(Error::Unauthorized);
        }
        if state != ProposalState::Approved {
            return Err(Error::ProposalNotApproved);
        }
        self.set_record(i, ProposalState::Failed, approvals, approved_at);
        Ok(Vec::new())
    }

    /// Close an executed proposal (the proposer only).
    pub fn close(&mut self, now: u64, caller: &Address, id: u64) -> (r: Result<Vec<Movement>, Error>)
        requires
            old(self).wf(),
        ensures
            final(self).wf(),
            lifecycle(
                *old(self),
                *final(self),
                id,
                now,
                closing(old(self).proposal(id)->0, *caller),
                Seq::empty(),
                r,
            ),
    {
        let (i, done, moves) = self.settle_slot(now, id)?;
        if done {
            return Ok(moves);
        }
        let (is_proposer, state, approvals, approved_at) = match &self.proposals[i] {
            None => return Err(Error::NotFound),
            Some(p) => (*caller == p.proposer, p.state, p.approvals, p.approved_at),
        };
        if !is_proposer {
            return Err(Error::Unauthorized);
        }
        if state != ProposalState::Executed {
            return Err(Error::InvalidProposalState);
        }
        self.set_record(i, ProposalState::Closed, approvals, approved_at);
        Ok(Vec::new())
    }

    /// The proposal record, after its expiry settlement at `now`.
    pub fn get(&mut self, now: u64, id: u64) -> (r: Result<(Proposal, Vec<Movement>), Error>)
        requires
            old(self).wf(),
        ensures
            final(self).wf(),
            match old(self).proposal(id) {
                None => r == Err::<(Proposal, Vec<Movement>), Error>(Error::NotFound) && *final(self)
                    == *old(self),
                Some(p) => r matches Ok((q, m)) && same_proposal(q, settled(p, now)) && m@
                    == settle_moves(p, now) && settled_into(*old(self), *final(self), id, now),
            },
    {
        let (i, _done, moves) = self.settle_slot(now, id)?;
        match &self.proposals[i] {
            None => Err(Error::NotFound),
            Some(p) => Ok((p.copied(), moves)),
        }
    }

    /// The vote bars the tally must clear before `execute` runs.
    pub fn vote_bars(&mut self, now: u64, id: u64) -> (r: Result<(VoteBars, Vec<Movement>), Error>)
        requires
            old(self).wf(),
        ensures
            final(self).wf(),
            match old(self).proposal(id) {
                None => r == Err::<(VoteBars, Vec<Movement>), Error>(Error::NotFound) && *final(self)
                    == *old(self),
                Some(p) => r matches Ok((b, m)) && b == bars_of(p.approvers@.len() as u32, p.threshold)
                    && m@ == settle_moves(p, now) && settled_into(*old(self), *final(self), id, now),
            },
    {
        let (i, _done, moves) = self.settle_slot(now, id)?;
        match &self.proposals[i] {
            None => Err(Error::NotFound),
            Some(p) => {
                proof {
                    assert(well_linked(self.proposals@[i as int]->0, i + 1));
                }
                Ok((VoteBars::for_proposal(p), moves))
            },
        }
    }

    /// The lifecycle state, after the expiry settlement at `now`.
    pub fn state(&mut self, now: u64, id: u64) -> (r: Result<(ProposalState, Vec<Movement>), Error>)
        requires
            old(self).wf(),
        ensures
            final(self).wf(),
            match old(self).proposal(id) {
                None => r == Err::<(ProposalState, Vec<Movement>), Error>(Error::NotFound)
                    && *final(self) == *old(self),
                Some(p) => r matches Ok((st, m)) && st == settled(p, now).state && m@ == settle_moves(
                    p,
                    now,
                ) && settled_into(*old(self), *final(self), id, now),
            },
    {
        let (i, _done, moves) = self.settle_slot(now, id)?;
        match &self.proposals[i] {
            None => Err(Error::NotFound),
            Some(p) => Ok((p.state, moves)),
        }
    }

    /// Whether the proposal is expired: recorded so, or past its deadline.
    pub fn is_expired(&mut self, now: u64, id: u64) -> (r: Result<(bool, Vec<Movement>), Error>)
        requires
            old(self).wf(),
        ensures
            final(self).wf(),
            match old(self).proposal(id) {
                None => r == Err::<(bool, Vec<Movement>), Error>(Error::NotFound) && *final(self)
                    == *old(self),
                Some(p) => r matches Ok((b, m)) && b == (settled(p, now).state
                    == ProposalState::Expired || stale(p, now)) && m@ == settle_moves(p, now)
                    && settled_into(*old(self), *final(self), id, now),
            },
    {
        let (i, _done, moves) = self.settle_slot(now, id)?;
        match &self.proposals[i] {
            None => Err(Error::NotFound),
            Some(p) => Ok((p.state == ProposalState::Expired || p.is_expired(now), moves)),
        }
    }

    /// Whether the proposal completed its action (`Executed` or `Closed`).
    pub fn is_executed(&mut self, now: u64, id: u64) -> (r: Result<(bool, Vec<Movement>), Error>)
        requires
            old(self).wf(),
        ensures
            final(self).wf(),
            match old(self).proposal(id) {
                None => r == Err::<(bool, Vec<Movement>), Error>(Error::NotFound) && *final(self)
                    == *old(self),
                Some(p) => r matches Ok((b, m)) && b == settled(p, now).state.spec_has_executed()
                    && m@ == settle_moves(p, now) && settled_into(*old(self), *final(self), id, now),
            },
    {
        let (i, _done, moves) = self.settle_slot(now, id)?;
        match &self.proposals[i] {
            None => Err(Error::NotFound),
            Some(p) => Ok((p.state.has_executed(), moves)),
        }
    }

    /// The prerequisite ids the proposal declares.
    pub fn dependencies(&mut self, now: u64, id: u64) -> (r: Result<(Vec<u64>, Vec<Movement>), Error>)
        requires
            old(self).wf(),
        ensures
            final(self).wf(),
            match old(self).proposal(id) {
                None => r == Err::<(Vec<u64>, Vec<Movement>), Error>(Error::NotFound) && *final(self)
                    == *old(self),
                Some(p) => r matches Ok((d, m)) && d@ == p.dependencies@ && m@ == settle_moves(p, now)
                    && settled_into(*old(self), *final(self), id, now),
            },
    {
        let (i, _done, moves) = self.settle_slot(now, id)?;
        match &self.proposals[i] {
            None => Err(Error::NotFound),
            Some(p) => Ok((copy_ids(&p.dependencies), moves)),
        }
    }

    /// Whether every prerequisite has executed: the dependency question
    /// `execute` asks.
    pub fn dependencies_met(&mut self, now: u64, id: u64) -> (r: Result<(bool, Vec<Movement>), Error>)
        requires
            old(self).wf(),
        ensures
            final(self).wf(),
            match old(self).proposal(id) {
                None => r == Err::<(bool, Vec<Movement>), Error>(Error::NotFound) && *final(self)
                    == *old(self),
                Some(p) => r matches Ok((b, m)) && b == deps_from(
                    final(self).records(),
                    p.dependencies@,
                    0,
                ) is Ok && m@ == settle_moves(p, now) && settled_into(*old(self), *final(self), id, now),
            },
    {
        let (i, _done, moves) = self.settle_slot(now, id)?;
        match &self.proposals[i] {
            None => Err(Error::NotFound),
            Some(p) => Ok((self.deps_met(&p.dependencies).is_ok(), moves)),
        }
    }

    /// Whether `execute` would accept the proposal at `now`: live,
    /// `Approved`, past its timelock, its tally clearing every bar, and
    /// every prerequisite executed.
    pub fn can_execute(&mut self, now: u64, id: u64) -> (r: Result<(bool, Vec<Movement>), Error>)
        requires
            old(self).wf(),
        ensures
            final(self).wf(),
            match old(self).proposal(id) {
                None => r == Err::<(bool, Vec<Movement>), Error>(Error::NotFound) && *final(self)
                    == *old(self),
                Some(p) => r matches Ok((b, m)) && b == (executable(
                    settled(p, now),
                    now,
                    old(self).timelock_of(),
                ) && clears(bars_of(p.approvers@.len() as u32, p.threshold), p.approvals)
                    && deps_from(final(self).records(), p.dependencies@, 0) is Ok) && m@
                    == settle_moves(p, now) && settled_into(*old(self), *final(self), id, now),
            },
    {
        let (i, _done, moves) = self.settle_slot(now, id)?;
        match &self.proposals[i] {
            None => Err(Error::NotFound),
            Some(p) => {
                if !p.can_execute(now, self.timelock) {
                    return Ok((false, moves));
                }
                proof {
                    assert(well_linked(self.proposals@[i as int]->0, i + 1));
                }
                if VoteBars::for_proposal(p).ensure_met(p.approvals).is_err() {
                    return Ok((false, moves));
                }
                Ok((self.deps_met(&p.dependencies).is_ok(), moves))
            },
        }
    }
}

} // verus!
