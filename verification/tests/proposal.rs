use astroid::multisig::MultiSigContract;
use astroid::proposal::{ProposalContract, ProposalState, VoteBars};
use astroid::shared::{AssetAmount, Error, Movement, MAX_APPROVERS, MAX_DEPENDENCIES};

struct Harness {
    c: ProposalContract,
    now: u64,
    proposer: String,
    approvers: Vec<String>,
    /// Token balances moved by the contract: (asset, account) -> amount.
    balances: Vec<(String, String, i128)>,
}

const CONTRACT: &str = "CPROPOSALCONTRACT";
const DEPOSIT: i128 = 500;

fn setup(num_approvers: u32) -> Harness {
    setup_timelocked(num_approvers, 0)
}

fn setup_timelocked(num_approvers: u32, timelock: u64) -> Harness {
    let mut c = ProposalContract::new();
    c.initialize(timelock).unwrap();
    let approvers = (0..num_approvers).map(|i| format!("GAPPROVER{i}")).collect();
    Harness { c, now: 1_000, proposer: "GPROPOSER".to_string(), approvers, balances: Vec::new() }
}

impl Harness {
    fn credit(&mut self, asset: &str, who: &str, amount: i128) {
        for b in self.balances.iter_mut() {
            if b.0 == asset && b.1 == who {
                b.2 += amount;
                return;
            }
        }
        self.balances.push((asset.to_string(), who.to_string(), amount));
    }

    fn balance(&self, asset: &str, who: &str) -> i128 {
        self.balances.iter().filter(|b| b.0 == asset && b.1 == who).map(|b| b.2).sum()
    }

    fn apply(&mut self, moves: Vec<Movement>) {
        for m in moves {
            match m {
                Movement::Deposit { asset, from, amount } => {
                    self.credit(&asset, &from, -amount);
                    self.credit(&asset, CONTRACT, amount);
                }
                Movement::Payout { asset, to, amount } => {
                    self.credit(&asset, CONTRACT, -amount);
                    self.credit(&asset, &to, amount);
                }
            }
        }
    }

    fn try_create_full(
        &mut self,
        threshold: u32,
        expires_at: u64,
        grace_period: u64,
        deps: &[u64],
        deposit: Vec<AssetAmount>,
    ) -> Result<u64, Error> {
        let r = self.c.create(
            self.now,
            self.proposer.clone(),
            "acme".to_string(),
            "wallet-1".to_string(),
            "policy-1".to_string(),
            self.approvers.clone(),
            deps.to_vec(),
            threshold,
            deposit,
            expires_at,
            grace_period,
        );
        r.map(|(id, moves)| {
            self.apply(moves);
            id
        })
    }

    fn create(&mut self, threshold: u32, expires_at: u64) -> u64 {
        self.try_create_full(threshold, expires_at, 0, &[], Vec::new()).unwrap()
    }

    fn create_with_deps(&mut self, threshold: u32, expires_at: u64, deps: &[u64]) -> u64 {
        self.try_create_full(threshold, expires_at, 0, deps, Vec::new()).unwrap()
    }

    fn create_with_grace(&mut self, threshold: u32, expires_at: u64, grace: u64) -> u64 {
        self.try_create_full(threshold, expires_at, grace, &[], Vec::new()).unwrap()
    }

    fn try_create_with_deps(&mut self, deps: &[u64]) -> Result<u64, Error> {
        self.try_create_full(2, 0, 0, deps, Vec::new())
    }

    fn try_approve_by(&mut self, who: &str, id: u64) -> Result<u32, Error> {
        let r = self.c.approve(self.now, &who.to_string(), id);
        r.map(|(n, moves)| {
            self.apply(moves);
            n
        })
    }

    fn try_approve(&mut self, i: usize, id: u64) -> Result<u32, Error> {
        let who = self.approvers[i].clone();
        self.try_approve_by(&who, id)
    }

    fn approve(&mut self, i: usize, id: u64) -> u32 {
        self.try_approve(i, id).unwrap()
    }

    fn run(&mut self, r: Result<Vec<Movement>, Error>) -> Result<(), Error> {
        r.map(|moves| self.apply(moves))
    }

    fn try_execute_by(&mut self, who: &str, id: u64) -> Result<(), Error> {
        let r = self.c.execute(self.now, &who.to_string(), id);
        self.run(r)
    }

    fn try_execute(&mut self, id: u64) -> Result<(), Error> {
        let p = self.proposer.clone();
        self.try_execute_by(&p, id)
    }

    fn execute(&mut self, id: u64) {
        self.try_execute(id).unwrap()
    }

    fn try_reject(&mut self, i: usize, id: u64) -> Result<(), Error> {
        let who = self.approvers[i].clone();
        let r = self.c.reject(self.now, &who, id);
        self.run(r)
    }

    fn try_cancel_by(&mut self, who: &str, id: u64) -> Result<(), Error> {
        let r = self.c.cancel(self.now, &who.to_string(), id);
        self.run(r)
    }

    fn try_cancel(&mut self, id: u64) -> Result<(), Error> {
        let p = self.proposer.clone();
        self.try_cancel_by(&p, id)
    }

    fn try_fail_by(&mut self, who: &str, id: u64) -> Result<(), Error> {
        let r = self.c.fail(self.now, &who.to_string(), id);
        self.run(r)
    }

    fn try_fail(&mut self, id: u64) -> Result<(), Error> {
        let p = self.proposer.clone();
        self.try_fail_by(&p, id)
    }

    fn try_close(&mut self, id: u64) -> Result<(), Error> {
        let p = self.proposer.clone();
        let r = self.c.close(self.now, &p, id);
        self.run(r)
    }

    fn try_expire(&mut self, id: u64) -> Result<(), Error> {
        let r = self.c.expire(self.now, id);
        self.run(r)
    }

    fn try_cleanup_expired(&mut self, id: u64) -> Result<(), Error> {
        let r = self.c.cleanup_expired(self.now, id);
        self.run(r)
    }

    fn state(&mut self, id: u64) -> ProposalState {
        let (s, moves) = self.c.state(self.now, id).unwrap();
        self.apply(moves);
        s
    }

    fn is_expired(&mut self, id: u64) -> bool {
        let (b, moves) = self.c.is_expired(self.now, id).unwrap();
        self.apply(moves);
        b
    }

    fn is_executed(&mut self, id: u64) -> bool {
        let (b, moves) = self.c.is_executed(self.now, id).unwrap();
        self.apply(moves);
        b
    }

    fn dependencies(&mut self, id: u64) -> Vec<u64> {
        let (d, moves) = self.c.dependencies(self.now, id).unwrap();
        self.apply(moves);
        d
    }

    fn dependencies_met(&mut self, id: u64) -> bool {
        let (b, moves) = self.c.dependencies_met(self.now, id).unwrap();
        self.apply(moves);
        b
    }

    fn can_execute(&mut self, id: u64) -> bool {
        let (b, moves) = self.c.can_execute(self.now, id).unwrap();
        self.apply(moves);
        b
    }

    fn approvals(&mut self, id: u64) -> u32 {
        let (p, moves) = self.c.get(self.now, id).unwrap();
        self.apply(moves);
        p.approvals
    }

    fn approved_at(&mut self, id: u64) -> u64 {
        let (p, moves) = self.c.get(self.now, id).unwrap();
        self.apply(moves);
        p.approved_at
    }

    fn try_get(&mut self, id: u64) -> Result<(), Error> {
        self.c.get(self.now, id).map(|_| ())
    }

    fn approve_and_execute(&mut self, id: u64) {
        self.approve(0, id);
        self.approve(1, id);
        self.execute(id);
    }

    fn approve_to_threshold(&mut self, id: u64) {
        self.approve(0, id);
        self.approve(1, id);
        assert_eq!(self.state(id), ProposalState::Approved);
    }

    fn advance(&mut self, _sequence: u32, timestamp: u64) {
        self.now = timestamp;
    }
}

#[test]
fn create_starts_pending() {
    let mut h = setup(3);
    let id = h.create(2, 5_000);
    assert_eq!(h.state(id), ProposalState::Pending);
}

#[test]
fn full_lifecycle_to_closed() {
    let mut h = setup(3);
    let id = h.create(2, 5_000);
    h.approve(0, id);
    let approvals = h.approve(1, id);
    assert_eq!(approvals, 2);
    assert_eq!(h.state(id), ProposalState::Approved);
    h.execute(id);
    assert_eq!(h.state(id), ProposalState::Executed);
    h.try_close(id).unwrap();
    assert_eq!(h.state(id), ProposalState::Closed);
}

#[test]
fn execute_before_approved_fails() {
    let mut h = setup(3);
    let id = h.create(2, 5_000);
    h.approve(0, id);
    assert_eq!(h.try_execute(id), Err(Error::ProposalNotApproved));
}

#[test]
fn non_approver_cannot_approve() {
    let mut h = setup(3);
    let id = h.create(2, 5_000);
    assert_eq!(h.try_approve_by("GSTRANGER", id), Err(Error::NotAnApprover));
}

#[test]
fn test_double_approval_rejected() {
    let mut h = setup(3);
    let id = h.create(2, 5_000);
    h.approve(0, id);
    assert_eq!(h.try_approve(0, id), Err(Error::AlreadySigned));

    // The multisig refuses a second approval by the same signer too: the
    // proposer's approval is counted when the proposal opens.
    let mut ms = MultiSigContract::new();
    let signers = vec!["GSIGNER000".to_string(), "GSIGNER001".to_string(), "GSIGNER002".to_string()];
    ms.initialize(&signers, 2).unwrap();
    let pid = ms.propose(&signers[0], "payment".to_string(), vec![1, 2, 3, 4], 0).unwrap();
    assert_eq!(ms.approve(&signers[0], pid), Err(Error::AlreadySigned));
}

#[test]
fn reject_moves_to_rejected() {
    let mut h = setup(3);
    let id = h.create(2, 5_000);
    h.try_reject(0, id).unwrap();
    assert_eq!(h.state(id), ProposalState::Rejected);
    assert_eq!(h.try_approve(1, id), Err(Error::InvalidProposalState));
}

#[test]
fn only_proposer_can_cancel() {
    let mut h = setup(3);
    let id = h.create(2, 5_000);
    let a0 = h.approvers[0].clone();
    assert_eq!(h.try_cancel_by(&a0, id), Err(Error::Unauthorized));
    h.try_cancel(id).unwrap();
    assert_eq!(h.state(id), ProposalState::Cancelled);
}

#[test]
fn expired_proposal_cannot_be_approved() {
    let mut h = setup(3);
    let id = h.create(2, 5_000);
    h.now = 6_000;
    let approvals = h.approve(0, id);
    assert_eq!(approvals, 0);
    assert_eq!(h.state(id), ProposalState::Expired);
}

#[test]
fn expired_state_query_transitions_at_the_exact_deadline() {
    let mut h = setup(3);
    let id = h.create(2, 5_000);
    h.now = 5_000;
    assert_eq!(h.state(id), ProposalState::Expired);
    assert!(h.is_expired(id));
}

#[test]
fn explicit_expire_transition() {
    let mut h = setup(3);
    let id = h.create(2, 5_000);
    assert_eq!(h.try_expire(id), Err(Error::InvalidProposalState));
    h.now = 6_000;
    h.try_expire(id).unwrap();
    assert_eq!(h.state(id), ProposalState::Expired);
}

#[test]
fn create_with_bad_threshold_fails() {
    let mut h = setup(2);
    assert_eq!(h.try_create_full(3, 5_000, 0, &[], Vec::new()), Err(Error::InvalidThreshold));
}

#[test]
fn create_with_past_expiry_fails() {
    let mut h = setup(2);
    assert_eq!(h.try_create_full(1, 500, 0, &[], Vec::new()), Err(Error::InvalidInput));
}

#[test]
fn independent_proposal_declares_no_dependencies() {
    let mut h = setup(3);
    let id = h.create(2, 5_000);
    assert_eq!(h.dependencies(id), Vec::<u64>::new());
    assert!(h.dependencies_met(id));
}

#[test]
fn chain_executes_in_order() {
    let mut h = setup(3);
    let first = h.create(2, 5_000);
    let second = h.create_with_deps(2, 5_000, &[first]);
    let third = h.create_with_deps(2, 5_000, &[second]);
    assert_eq!(h.dependencies(second), vec![first]);
    h.approve_and_execute(first);
    assert_eq!(h.state(first), ProposalState::Executed);
    assert!(h.dependencies_met(second));
    h.approve_and_execute(second);
    assert!(h.dependencies_met(third));
    h.approve_and_execute(third);
    assert_eq!(h.state(third), ProposalState::Executed);
}

#[test]
fn execution_blocked_until_prerequisite_executes() {
    let mut h = setup(3);
    let first = h.create(2, 5_000);
    let second = h.create_with_deps(2, 5_000, &[first]);
    h.approve(0, second);
    h.approve(1, second);
    assert_eq!(h.state(second), ProposalState::Approved);
    assert!(!h.dependencies_met(second));
    assert!(!h.can_execute(second));
    assert_eq!(h.try_execute(second), Err(Error::PrerequisiteNotMet));
    assert_eq!(h.state(second), ProposalState::Approved);
    h.approve_and_execute(first);
    assert!(h.can_execute(second));
    h.execute(second);
    assert_eq!(h.state(second), ProposalState::Executed);
}

#[test]
fn approval_is_not_blocked_by_dependencies() {
    let mut h = setup(3);
    let first = h.create(2, 5_000);
    let second = h.create_with_deps(2, 5_000, &[first]);
    h.approve(0, second);
    let approvals = h.approve(1, second);
    assert_eq!(approvals, 2);
    assert_eq!(h.state(second), ProposalState::Approved);
}

#[test]
fn all_prerequisites_must_execute() {
    let mut h = setup(3);
    let a = h.create(2, 5_000);
    let b = h.create(2, 5_000);
    let dependent = h.create_with_deps(2, 5_000, &[a, b]);
    h.approve(0, dependent);
    h.approve(1, dependent);
    h.approve_and_execute(a);
    assert!(!h.dependencies_met(dependent));
    assert_eq!(h.try_execute(dependent), Err(Error::PrerequisiteNotMet));
    h.approve_and_execute(b);
    h.execute(dependent);
    assert_eq!(h.state(dependent), ProposalState::Executed);
}

#[test]
fn failed_prerequisite_blocks_the_chain_permanently() {
    let mut h = setup(3);
    let first = h.create(2, 5_000);
    let second = h.create_with_deps(2, 5_000, &[first]);
    h.approve(0, first);
    h.approve(1, first);
    h.try_fail(first).unwrap();
    assert_eq!(h.state(first), ProposalState::Failed);
    h.approve(0, second);
    h.approve(1, second);
    assert!(!h.dependencies_met(second));
    assert_eq!(h.try_execute(second), Err(Error::PrerequisiteNotMet));
    assert_eq!(h.try_execute(first), Err(Error::ProposalNotApproved));
}

#[test]
fn cancelled_prerequisite_blocks_the_chain() {
    let mut h = setup(3);
    let first = h.create(2, 5_000);
    let second = h.create_with_deps(2, 5_000, &[first]);
    h.try_cancel(first).unwrap();
    h.approve(0, second);
    h.approve(1, second);
    assert_eq!(h.try_execute(second), Err(Error::PrerequisiteNotMet));
}

#[test]
fn closed_prerequisite_still_satisfies_dependents() {
    let mut h = setup(3);
    let first = h.create(2, 5_000);
    let second = h.create_with_deps(2, 5_000, &[first]);
    h.approve_and_execute(first);
    h.try_close(first).unwrap();
    assert_eq!(h.state(first), ProposalState::Closed);
    assert!(h.dependencies_met(second));
    h.approve_and_execute(second);
    assert_eq!(h.state(second), ProposalState::Executed);
}

#[test]
fn self_reference_is_rejected_as_circular() {
    let mut h = setup(3);
    assert_eq!(h.try_create_with_deps(&[1]), Err(Error::CircularDependencyDetected));
}

#[test]
fn forward_reference_is_rejected_as_circular() {
    let mut h = setup(3);
    let first = h.create(2, 5_000);
    assert_eq!(h.try_create_with_deps(&[first + 5]), Err(Error::CircularDependencyDetected));
}

#[test]
fn duplicate_dependencies_are_collapsed() {
    let mut h = setup(3);
    let first = h.create(2, 5_000);
    let dependent = h.create_with_deps(2, 5_000, &[first, first, first]);
    assert_eq!(h.dependencies(dependent), vec![first]);
}

#[test]
fn too_many_dependencies_rejected() {
    let mut h = setup(3);
    let mut deps = Vec::new();
    for _ in 0..=MAX_DEPENDENCIES {
        deps.push(h.create(2, 5_000));
    }
    assert_eq!(h.try_create_with_deps(&deps), Err(Error::InvalidInput));
}

#[test]
fn blocked_execution_emits_dependency_failure_event() {
    let mut h = setup(3);
    let first = h.create(2, 5_000);
    let second = h.create_with_deps(2, 5_000, &[first]);
    h.approve(0, second);
    h.approve(1, second);
    assert_eq!(h.try_execute(second), Err(Error::PrerequisiteNotMet));
    assert!(!h.dependencies_met(second));
}

#[test]
fn satisfied_chain_emits_dependency_success_event() {
    let mut h = setup(3);
    let first = h.create(2, 5_000);
    let second = h.create_with_deps(2, 5_000, &[first]);
    h.approve_and_execute(first);
    h.approve(0, second);
    h.approve(1, second);
    assert!(h.dependencies_met(second));
    h.execute(second);
    assert_eq!(h.state(second), ProposalState::Executed);
}

#[test]
fn is_executed_reflects_completion_states() {
    let mut h = setup(3);
    let id = h.create(2, 5_000);
    assert!(!h.is_executed(id));
    h.approve(0, id);
    h.approve(1, id);
    assert!(!h.is_executed(id));
    h.execute(id);
    assert!(h.is_executed(id));
    h.try_close(id).unwrap();
    assert!(h.is_executed(id));
}

#[test]
fn failed_is_never_executed() {
    let mut h = setup(3);
    let id = h.create(2, 5_000);
    h.approve(0, id);
    h.approve(1, id);
    h.try_fail(id).unwrap();
    assert_eq!(h.state(id), ProposalState::Failed);
    assert!(!h.is_executed(id));
}

#[test]
fn fail_requires_approval_and_the_proposer() {
    let mut h = setup(3);
    let id = h.create(2, 5_000);
    assert_eq!(h.try_fail(id), Err(Error::ProposalNotApproved));
    h.approve(0, id);
    h.approve(1, id);
    let a0 = h.approvers[0].clone();
    assert_eq!(h.try_fail_by(&a0, id), Err(Error::Unauthorized));
    h.try_fail(id).unwrap();
    assert_eq!(h.state(id), ProposalState::Failed);
}

#[test]
fn test_cancellation_grace_window() {
    let mut h = setup(3);
    h.now = 100;
    let id = h.create_with_grace(2, 0, 50);
    h.now = 151;
    assert_eq!(h.try_cancel(id), Err(Error::CancellationWindowClosed));
    let id2 = h.create_with_grace(2, 0, 50);
    h.now = 160;
    h.try_cancel(id2).unwrap();
    assert_eq!(h.state(id2), ProposalState::Cancelled);
}

#[test]
fn expired_proposal_cannot_be_rejected() {
    let mut h = setup(3);
    let id = h.create(2, 5_000);
    h.advance(6, 6_000);
    h.try_reject(0, id).unwrap();
    assert_eq!(h.state(id), ProposalState::Expired);
}

#[test]
fn expired_proposal_cannot_be_cancelled() {
    let mut h = setup(3);
    let id = h.create(2, 5_000);
    h.advance(6, 6_000);
    h.try_cancel(id).unwrap();
    assert_eq!(h.state(id), ProposalState::Expired);
}

#[test]
fn expired_proposal_cannot_be_executed() {
    let mut h = setup(3);
    let id = h.create(2, 5_000);
    h.approve(0, id);
    h.approve(1, id);
    assert_eq!(h.state(id), ProposalState::Approved);
    h.advance(6, 6_000);
    h.execute(id);
    assert_eq!(h.state(id), ProposalState::Expired);
}

#[test]
fn expired_proposal_cannot_be_failed() {
    let mut h = setup(3);
    let id = h.create(2, 5_000);
    h.approve(0, id);
    h.approve(1, id);
    h.advance(6, 6_000);
    h.try_fail(id).unwrap();
    assert_eq!(h.state(id), ProposalState::Expired);
}

#[test]
fn expiry_boundary_is_inclusive() {
    let mut h = setup(3);
    let id = h.create(2, 5_000);
    h.advance(5, 4_999);
    h.approve(0, id);
    h.advance(6, 5_000);
    assert_eq!(h.approve(1, id), 1);
    assert!(h.is_expired(id));
    assert_eq!(h.state(id), ProposalState::Expired);
}

#[test]
fn ledger_timeline_blocks_every_stale_transition() {
    let mut h = setup(3);
    let id = h.create(2, 5_000);
    h.advance(2, 2_000);
    h.approve(0, id);
    assert_eq!(h.state(id), ProposalState::Pending);
    h.advance(6, 5_001);
    assert_eq!(h.approve(1, id), 1);
    h.try_reject(1, id).unwrap();
    h.try_cancel(id).unwrap();
    h.execute(id);
    h.try_fail(id).unwrap();
    assert_eq!(h.state(id), ProposalState::Expired);
    assert_eq!(h.approvals(id), 1);
    assert_eq!(h.try_expire(id), Ok(()));
}

#[test]
fn proposal_without_deadline_never_expires() {
    let mut h = setup(3);
    let id = h.create(2, 0);
    h.advance(99, 4_000_000_000);
    assert!(!h.is_expired(id));
    assert_eq!(h.try_expire(id), Err(Error::InvalidProposalState));
    h.approve(0, id);
    assert_eq!(h.state(id), ProposalState::Pending);
}

#[test]
fn is_expired_view_tracks_ledger_deadline() {
    let mut h = setup(3);
    let id = h.create(2, 5_000);
    assert!(!h.is_expired(id));
    h.advance(5, 4_999);
    assert!(!h.is_expired(id));
    h.advance(6, 5_000);
    assert!(h.is_expired(id));
}

#[test]
fn cleanup_requires_a_passed_deadline() {
    let mut h = setup(3);
    let id = h.create(2, 5_000);
    assert_eq!(h.try_cleanup_expired(id), Err(Error::InvalidProposalState));
    let never = h.create(2, 0);
    assert_eq!(h.try_cleanup_expired(never), Err(Error::InvalidProposalState));
    assert_eq!(h.state(id), ProposalState::Pending);
}

#[test]
fn cleanup_settles_and_purges_a_stale_proposal() {
    let mut h = setup(3);
    let id = h.create(2, 5_000);
    h.advance(6, 6_000);
    h.try_cleanup_expired(id).unwrap();
    assert_eq!(h.try_get(id), Err(Error::NotFound));
}

#[test]
fn cleanup_purges_the_record_and_its_approval_flags() {
    let mut h = setup(3);
    let id = h.create(2, 5_000);
    h.approve(0, id);
    h.advance(6, 6_000);
    h.try_expire(id).unwrap();
    h.try_cleanup_expired(id).unwrap();
    assert_eq!(h.try_get(id), Err(Error::NotFound));
    assert_eq!(h.try_approve(1, id), Err(Error::NotFound));
}

#[test]
fn stale_prerequisite_blocks_the_dependent_chain() {
    let mut h = setup(3);
    let first = h.create(2, 5_000);
    let second = h.create_with_deps(2, 0, &[first]);
    h.advance(6, 6_000);
    h.execute(first);
    assert_eq!(h.state(first), ProposalState::Expired);
    h.approve(0, second);
    h.approve(1, second);
    assert_eq!(h.try_execute(second), Err(Error::PrerequisiteNotMet));
}

#[test]
fn approval_records_timestamp_used_by_the_timelock() {
    let mut h = setup_timelocked(3, 100);
    let id = h.create(2, 10_000);
    assert_eq!(h.approved_at(id), 0);
    h.approve(0, id);
    h.approve(1, id);
    assert_eq!(h.state(id), ProposalState::Approved);
    assert_eq!(h.approved_at(id), 1_000);
    h.now = 1_050;
    assert_eq!(h.try_execute(id), Err(Error::TimelockNotExpired));
    assert_eq!(h.state(id), ProposalState::Approved);
    h.now = 1_100;
    h.execute(id);
    assert_eq!(h.state(id), ProposalState::Executed);
    assert_eq!(h.approved_at(id), 1_000);
}

#[test]
fn execute_within_timelock_window_is_refused() {
    let mut h = setup_timelocked(3, 100);
    let id = h.create(2, 10_000);
    h.approve_to_threshold(id);
    h.now = 1_099;
    assert_eq!(h.try_execute(id), Err(Error::TimelockNotExpired));
    assert_eq!(h.state(id), ProposalState::Approved);
    h.now = 1_100;
    h.execute(id);
    assert_eq!(h.state(id), ProposalState::Executed);
}

#[test]
fn execute_after_timelock_window_succeeds() {
    let mut h = setup_timelocked(3, 100);
    let id = h.create(2, 10_000);
    h.approve_to_threshold(id);
    h.now = 5_000;
    h.execute(id);
    assert_eq!(h.state(id), ProposalState::Executed);
    h.try_close(id).unwrap();
    assert_eq!(h.state(id), ProposalState::Closed);
}

#[test]
fn zero_timelock_allows_immediate_execution() {
    let mut h = setup(3);
    let id = h.create(2, 5_000);
    h.approve_to_threshold(id);
    h.execute(id);
    assert_eq!(h.state(id), ProposalState::Executed);
}

#[test]
fn timelock_only_gates_execution_not_state_transitions() {
    let mut h = setup_timelocked(3, 100);
    let id = h.create(2, 10_000);
    h.approve_to_threshold(id);
    assert!(h.dependencies_met(id));
    h.now = 1_050;
    assert_eq!(h.try_execute(id), Err(Error::TimelockNotExpired));
    h.try_fail(id).unwrap();
    assert_eq!(h.state(id), ProposalState::Failed);
}

#[test]
fn quorum_calculation_rounds_up_with_integer_scaling() {
    assert_eq!(ProposalContract::quorum_required(4, 50), 2);
    assert_eq!(ProposalContract::quorum_required(2, 50), 1);
    assert_eq!(ProposalContract::quorum_required(5, 50), 3);
    assert_eq!(ProposalContract::quorum_required(3, 60), 2);
    assert_eq!(ProposalContract::quorum_required(7, 100), 7);
    assert_eq!(ProposalContract::quorum_required(0, 50), 0);
    assert_eq!(ProposalContract::quorum_required(7, 0), 0);
    assert_eq!(ProposalContract::quorum_required(4, 250), 4);
}

#[test]
fn majority_check_never_accepts_a_tie() {
    assert_eq!(ProposalContract::majority_required(4), 3);
    assert_eq!(ProposalContract::majority_required(5), 3);
    assert_eq!(ProposalContract::majority_required(0), 1);
    assert!(!ProposalContract::has_majority(2, 4));
    assert!(ProposalContract::has_majority(3, 4));
    assert!(!ProposalContract::has_majority(2, 5));
    assert!(ProposalContract::has_majority(3, 5));
    assert!(!ProposalContract::has_majority(1, 3));
    assert!(ProposalContract::has_majority(2, 3));
    assert!(ProposalContract::has_majority(1, 1));
}

#[test]
fn tied_vote_blocks_execution() {
    let mut h = setup(4);
    let id = h.create(2, 5_000);
    h.approve(0, id);
    h.approve(1, id);
    assert_eq!(h.state(id), ProposalState::Approved);
    assert_eq!(h.try_execute(id), Err(Error::ThresholdNotMet));
    assert_eq!(h.state(id), ProposalState::Approved);
    assert_eq!(h.approvals(id), 2);
}

#[test]
fn narrowly_missing_the_quorum_blocks_execution() {
    let mut h = setup(5);
    let id = h.create(2, 5_000);
    h.approve(0, id);
    h.approve(1, id);
    assert_eq!(h.state(id), ProposalState::Approved);
    assert_eq!(h.try_execute(id), Err(Error::ThresholdNotMet));
    assert_eq!(h.state(id), ProposalState::Approved);
    assert_eq!(h.try_approve(2, id), Err(Error::InvalidProposalState));
    h.try_fail(id).unwrap();
    assert_eq!(h.state(id), ProposalState::Failed);
}

#[test]
fn exact_quorum_and_majority_boundary_executes() {
    let mut h = setup(5);
    let id = h.create(3, 5_000);
    h.approve(0, id);
    h.approve(1, id);
    h.approve(2, id);
    assert_eq!(h.state(id), ProposalState::Approved);
    h.execute(id);
    assert_eq!(h.state(id), ProposalState::Executed);
}

#[test]
fn narrowly_missing_the_threshold_never_approves_and_cannot_execute() {
    let mut h = setup(4);
    let id = h.create(3, 5_000);
    h.approve(0, id);
    h.approve(1, id);
    assert_eq!(h.state(id), ProposalState::Pending);
    assert_eq!(h.try_execute(id), Err(Error::ProposalNotApproved));
    assert_eq!(h.state(id), ProposalState::Pending);
    h.approve(2, id);
    assert_eq!(h.state(id), ProposalState::Approved);
    h.execute(id);
    assert_eq!(h.state(id), ProposalState::Executed);
}

#[test]
fn execution_window_follows_the_ledger_sequence_and_timestamp() {
    let mut h = setup_timelocked(3, 100);
    let id = h.create(2, 5_000);
    h.approve_to_threshold(id);
    h.advance(2, 1_050);
    assert_eq!(h.try_execute(id), Err(Error::TimelockNotExpired));
    assert_eq!(h.state(id), ProposalState::Approved);
    h.advance(3, 1_100);
    h.execute(id);
    assert_eq!(h.state(id), ProposalState::Executed);
}

#[test]
fn expiry_gate_wins_over_the_timelock_gate() {
    let mut h = setup_timelocked(3, 1_000);
    let id = h.create(2, 1_500);
    h.approve_to_threshold(id);
    assert_eq!(h.approved_at(id), 1_000);
    h.advance(2, 1_400);
    assert_eq!(h.try_execute(id), Err(Error::TimelockNotExpired));
    h.advance(3, 1_500);
    h.execute(id);
    assert_eq!(h.state(id), ProposalState::Expired);
}

#[test]
fn can_execute_tracks_timelock_and_expiry() {
    let mut h = setup_timelocked(3, 100);
    let id = h.create(2, 5_000);
    assert!(!h.can_execute(id));
    h.approve_to_threshold(id);
    assert!(!h.can_execute(id));
    h.advance(2, 1_100);
    assert!(h.can_execute(id));
    h.advance(6, 5_000);
    assert!(!h.can_execute(id));
}

#[test]
fn unrepresentable_timelock_fails_closed_instead_of_wrapping() {
    let mut h = setup_timelocked(3, u64::MAX);
    let id = h.create(2, 0);
    h.approve_to_threshold(id);
    assert_eq!(h.try_execute(id), Err(Error::Overflow));
    assert_eq!(h.state(id), ProposalState::Approved);
    assert!(!h.can_execute(id));
}

#[test]
fn cancellation_window_is_inclusive_and_then_closes() {
    let mut h = setup(3);
    h.now = 1_000;
    let inside = h.create_with_grace(2, 8_000, 50);
    let outside = h.create_with_grace(2, 8_000, 50);
    h.advance(2, 1_050);
    h.try_cancel(inside).unwrap();
    assert_eq!(h.state(inside), ProposalState::Cancelled);
    h.advance(3, 1_051);
    assert_eq!(h.try_cancel(outside), Err(Error::CancellationWindowClosed));
    assert_eq!(h.state(outside), ProposalState::Pending);
}

#[test]
fn unrepresentable_grace_window_does_not_trap_cancellation() {
    let mut h = setup(3);
    let id = h.create_with_grace(2, 0, u64::MAX);
    h.try_cancel(id).unwrap();
    assert_eq!(h.state(id), ProposalState::Cancelled);
}

fn deposit_of(token: &str) -> Vec<AssetAmount> {
    vec![AssetAmount { asset: token.to_string(), amount: DEPOSIT }]
}

#[test]
fn execute_unknown_proposal_reports_not_found() {
    let mut h = setup(3);
    assert_eq!(h.try_execute(42), Err(Error::NotFound));
}

#[test]
fn execute_requires_the_proposer_authorization() {
    let mut h = setup(3);
    let id = h.create(2, 5_000);
    h.approve_to_threshold(id);
    let a0 = h.approvers[0].clone();
    assert_eq!(h.try_execute_by(&a0, id), Err(Error::Unauthorized));
    h.execute(id);
    assert_eq!(h.state(id), ProposalState::Executed);
}

#[test]
fn only_the_proposer_may_execute() {
    let mut h = setup(3);
    let id = h.create(2, 5_000);
    h.approve_to_threshold(id);
    let a0 = h.approvers[0].clone();
    assert_eq!(h.try_execute_by(&a0, id), Err(Error::Unauthorized));
    assert_eq!(h.state(id), ProposalState::Approved);
}

#[test]
fn threshold_equal_to_the_whole_allow_list_executes_only_when_unanimous() {
    let mut h = setup(3);
    let id = h.create(3, 5_000);
    h.approve(0, id);
    h.approve(1, id);
    assert_eq!(h.state(id), ProposalState::Pending);
    assert_eq!(h.try_execute(id), Err(Error::ProposalNotApproved));
    h.approve(2, id);
    assert_eq!(h.approvals(id), 3);
    h.execute(id);
    assert_eq!(h.state(id), ProposalState::Executed);
}

#[test]
fn executing_twice_is_refused_and_refunds_the_deposit_once() {
    let mut h = setup(3);
    let token = "CTOKEN";
    h.credit(token, "GPROPOSER", DEPOSIT);
    let id = h.try_create_full(2, 5_000, 0, &[], deposit_of(token)).unwrap();
    assert_eq!(h.balance(token, "GPROPOSER"), 0);
    assert_eq!(h.balance(token, CONTRACT), DEPOSIT);
    h.approve_to_threshold(id);
    h.execute(id);
    assert_eq!(h.state(id), ProposalState::Executed);
    assert_eq!(h.balance(token, "GPROPOSER"), DEPOSIT);
    assert_eq!(h.balance(token, CONTRACT), 0);
    assert_eq!(h.try_execute(id), Err(Error::ProposalNotApproved));
    assert_eq!(h.state(id), ProposalState::Executed);
    assert_eq!(h.balance(token, "GPROPOSER"), DEPOSIT);
    assert_eq!(h.balance(token, CONTRACT), 0);
}

#[test]
fn closed_proposal_cannot_be_executed_again() {
    let mut h = setup(3);
    let id = h.create(2, 5_000);
    h.approve_and_execute(id);
    h.try_close(id).unwrap();
    assert_eq!(h.try_execute(id), Err(Error::ProposalNotApproved));
    assert_eq!(h.state(id), ProposalState::Closed);
}

#[test]
fn rejected_proposal_cannot_be_executed() {
    let mut h = setup(3);
    let id = h.create(2, 5_000);
    h.approve(0, id);
    h.try_reject(1, id).unwrap();
    assert_eq!(h.try_execute(id), Err(Error::ProposalNotApproved));
    assert_eq!(h.state(id), ProposalState::Rejected);
    assert!(!h.is_executed(id));
}

#[test]
fn cancelled_proposal_cannot_be_executed() {
    let mut h = setup(3);
    let id = h.create(2, 5_000);
    h.approve_to_threshold(id);
    h.try_cancel(id).unwrap();
    assert_eq!(h.try_execute(id), Err(Error::ProposalNotApproved));
    assert_eq!(h.state(id), ProposalState::Cancelled);
    assert!(!h.is_executed(id));
}

#[test]
fn failed_proposal_cannot_be_executed() {
    let mut h = setup(3);
    let id = h.create(2, 5_000);
    h.approve_to_threshold(id);
    h.try_fail(id).unwrap();
    assert_eq!(h.try_execute(id), Err(Error::ProposalNotApproved));
    assert_eq!(h.state(id), ProposalState::Failed);
}

#[test]
fn expired_execution_settles_once_and_never_executes() {
    let mut h = setup(3);
    let token = "CTOKEN";
    h.credit(token, "GPROPOSER", DEPOSIT);
    let id = h.try_create_full(2, 5_000, 0, &[], deposit_of(token)).unwrap();
    h.approve_to_threshold(id);
    assert!(h.can_execute(id));
    h.advance(6, 5_000);
    let (done, moves) = {
        let p = h.proposer.clone();
        let moves = h.c.execute(h.now, &p, id).unwrap();
        (true, moves)
    };
    assert!(done);
    assert_eq!(moves.len(), 1);
    h.apply(moves);
    assert_eq!(h.state(id), ProposalState::Expired);
    assert!(!h.is_executed(id));
    assert!(!h.can_execute(id));
    assert_eq!(h.balance(token, "GPROPOSER"), DEPOSIT);
    assert_eq!(h.balance(token, CONTRACT), 0);
    let p = h.proposer.clone();
    let again = h.c.execute(h.now, &p, id).unwrap();
    assert_eq!(again.len(), 0);
    assert_eq!(h.state(id), ProposalState::Expired);
    assert!(!h.is_executed(id));
    assert_eq!(h.balance(token, "GPROPOSER"), DEPOSIT);
    assert_eq!(h.balance(token, CONTRACT), 0);
}

#[test]
fn vote_bars_hold_at_the_approver_cap_and_do_not_overflow() {
    assert_eq!(ProposalContract::quorum_required(u32::MAX, 100), u32::MAX);
    assert_eq!(ProposalContract::quorum_required(u32::MAX, 50), u32::MAX / 2 + 1);
    assert_eq!(ProposalContract::majority_required(u32::MAX), u32::MAX / 2 + 1);
    let cap = MAX_APPROVERS as u32;
    let mut h = setup(cap);
    let half = cap / 2;
    let tie = h.create(half, 0);
    let win = h.create(half + 1, 0);
    for i in 0..half as usize {
        h.approve(i, tie);
        h.approve(i, win);
    }
    assert_eq!(h.state(tie), ProposalState::Approved);
    assert_eq!(h.try_execute(tie), Err(Error::ThresholdNotMet));
    assert_eq!(h.state(win), ProposalState::Pending);
    h.approve(half as usize, win);
    h.execute(win);
    assert_eq!(h.state(win), ProposalState::Executed);
}

// ---- further cases ----

#[test]
fn vote_bars_view_reports_every_bar() {
    let mut h = setup(5);
    let id = h.create(2, 5_000);
    let (bars, moves) = h.c.vote_bars(h.now, id).unwrap();
    assert!(moves.is_empty());
    assert_eq!(bars.threshold, 2);
    assert_eq!(bars.quorum, 3);
    assert_eq!(bars.majority, 3);
    assert!(bars.met_by(3));
    assert!(!bars.met_by(2));
    assert_eq!(bars.ensure_met(2), Err(Error::ThresholdNotMet));
    assert_eq!(bars.ensure_met(3), Ok(()));
    let (record, _) = h.c.get(h.now, id).unwrap();
    assert_eq!(VoteBars::for_proposal(&record), bars);
}

#[test]
fn create_requires_initialization_and_valid_input() {
    let mut c = ProposalContract::new();
    let r = c.create(
        1_000,
        "GP".to_string(),
        "org".to_string(),
        "w".to_string(),
        "p".to_string(),
        vec!["GA".to_string()],
        vec![],
        1,
        vec![],
        0,
        0,
    );
    assert_eq!(r.err(), Some(Error::NotInitialized));
    assert_eq!(c.initialize(0), Ok(()));
    assert_eq!(c.initialize(0), Err(Error::AlreadyInitialized));
    let empty_org = c.create(1_000, "GP".to_string(), String::new(), "w".to_string(), "p".to_string(), vec!["GA".to_string()], vec![], 1, vec![], 0, 0);
    assert_eq!(empty_org.err(), Some(Error::InvalidInput));
    let no_approvers = c.create(1_000, "GP".to_string(), "org".to_string(), "w".to_string(), "p".to_string(), vec![], vec![], 1, vec![], 0, 0);
    assert_eq!(no_approvers.err(), Some(Error::InvalidInput));
    let bad_deposit = c.create(
        1_000,
        "GP".to_string(),
        "org".to_string(),
        "w".to_string(),
        "p".to_string(),
        vec!["GA".to_string()],
        vec![],
        1,
        vec![AssetAmount { asset: "CT".to_string(), amount: 0 }],
        0,
        0,
    );
    assert_eq!(bad_deposit.err(), Some(Error::InvalidAmount));
    let missing_dep = c.create(1_000, "GP".to_string(), "org".to_string(), "w".to_string(), "p".to_string(), vec!["GA".to_string()], vec![0], 1, vec![], 0, 0);
    assert_eq!(missing_dep.err(), Some(Error::NotFound));
}

#[test]
fn rejection_refunds_the_deposit() {
    let mut h = setup(3);
    let token = "CTOKEN";
    h.credit(token, "GPROPOSER", DEPOSIT);
    let id = h.try_create_full(2, 5_000, 0, &[], deposit_of(token)).unwrap();
    assert_eq!(h.balance(token, CONTRACT), DEPOSIT);
    h.try_reject(0, id).unwrap();
    assert_eq!(h.balance(token, CONTRACT), 0);
    assert_eq!(h.balance(token, "GPROPOSER"), DEPOSIT);
}

#[test]
fn proposal_record_views_match_the_inputs() {
    let mut h = setup(3);
    let id = h.create(2, 5_000);
    let (p, _) = h.c.get(h.now, id).unwrap();
    assert_eq!(p.proposer, "GPROPOSER");
    assert_eq!(p.org, "acme");
    assert_eq!(p.threshold, 2);
    assert_eq!(p.approvers.len(), 3);
    assert!(p.is_active(1_000));
    assert!(!p.is_expired(4_999));
    assert!(p.is_expired(5_000));
    assert!(!p.can_execute(1_000, 0));
    assert!(ProposalState::Executed.has_executed());
    assert!(ProposalState::Closed.deposit_settled());
    assert!(!ProposalState::Failed.deposit_settled());
}
