use astroid::multisig::{MultiSigContract, DEFAULT_SIGNER_WEIGHT, MAX_SIGNER_WEIGHT};
use astroid::shared::{Error, MAX_SIGNERS};

/// A multisig with `n` default-weight signers and the clock.
struct Harness {
    c: MultiSigContract,
    signers: Vec<String>,
    now: u64,
}

fn signer_name(i: u32) -> String {
    format!("GSIGNER{:03}", i)
}

fn setup(n: u32, threshold: u32) -> Harness {
    let mut c = MultiSigContract::new();
    let signers: Vec<String> = (0..n).map(signer_name).collect();
    c.initialize(&signers, threshold).unwrap();
    Harness { c, signers, now: 0 }
}

fn payload() -> Vec<u8> {
    vec![1, 2, 3, 4]
}

impl Harness {
    fn propose(&mut self, by: usize, unlock_at: u64) -> u64 {
        let who = self.signers[by].clone();
        self.c.propose(&who, "payment".to_string(), payload(), unlock_at).unwrap()
    }
}

#[test]
fn initialize_state() {
    let h = setup(3, 2);
    assert_eq!(h.c.get_threshold(), Ok(2));
    assert_eq!(h.c.get_signers().len(), 3);
    assert!(h.c.is_signer(&h.signers[0]));
    assert!(!h.c.is_locked());
}

#[test]
fn bad_threshold_rejected_on_init() {
    let mut c = MultiSigContract::new();
    let sv = vec![signer_name(0), signer_name(1)];
    assert_eq!(c.initialize(&sv, 3), Err(Error::InvalidThreshold));
}

#[test]
fn propose_approve_execute_happy_path() {
    let mut h = setup(3, 2);
    let id = h.propose(0, 0);
    let second = h.signers[1].clone();
    assert_eq!(h.c.approve(&second, id), Ok(2));
    let third = h.signers[2].clone();
    h.c.execute(&third, id, h.now).unwrap();
    assert!(h.c.get_proposal(id).unwrap().executed);
}

#[test]
fn execute_below_threshold_fails() {
    let mut h = setup(3, 2);
    let id = h.propose(0, 0);
    let first = h.signers[0].clone();
    assert_eq!(h.c.execute(&first, id, h.now), Err(Error::ThresholdNotMet));
}

#[test]
fn non_signer_cannot_propose_or_approve() {
    let mut h = setup(3, 2);
    let stranger = "GSTRANGER".to_string();
    assert_eq!(h.c.propose(&stranger, "payment".to_string(), payload(), 0), Err(Error::NotASigner));
}

#[test]
fn time_lock_blocks_early_execution() {
    let mut h = setup(2, 2);
    h.now = 1_000;
    let id = h.propose(0, 5_000);
    let second = h.signers[1].clone();
    h.c.approve(&second, id).unwrap();
    let first = h.signers[0].clone();
    assert_eq!(h.c.execute(&first, id, h.now), Err(Error::TimeLocked));
    h.now = 6_000;
    h.c.execute(&first, id, h.now).unwrap();
    assert!(h.c.get_proposal(id).unwrap().executed);
}

#[test]
fn emergency_lock_blocks_actions() {
    let mut h = setup(2, 2);
    let first = h.signers[0].clone();
    h.c.set_emergency_lock(&first, true).unwrap();
    assert!(h.c.is_locked());
    assert_eq!(h.c.propose(&first, "payment".to_string(), payload(), 0), Err(Error::EmergencyLock));
    h.c.set_emergency_lock(&first, false).unwrap();
    let id = h.propose(0, 0);
    let second = h.signers[1].clone();
    h.c.approve(&second, id).unwrap();
    h.c.execute(&first, id, h.now).unwrap();
    assert!(h.c.get_proposal(id).unwrap().executed);
}

#[test]
fn add_and_remove_signer() {
    let mut h = setup(3, 2);
    let first = h.signers[0].clone();
    let new_signer = "GNEWSIGNER".to_string();
    h.c.add_signer(&first, new_signer.clone(), 1).unwrap();
    assert!(h.c.is_signer(&new_signer));
    assert_eq!(h.c.get_signers().len(), 4);
    h.c.remove_signer(&first, &new_signer).unwrap();
    assert!(!h.c.is_signer(&new_signer));
}

#[test]
fn cannot_add_duplicate_signer() {
    let mut h = setup(3, 2);
    let first = h.signers[0].clone();
    let second = h.signers[1].clone();
    assert_eq!(h.c.add_signer(&first, second, 1), Err(Error::AlreadyExists));
}

#[test]
fn cannot_remove_below_threshold() {
    let mut h = setup(2, 2);
    let first = h.signers[0].clone();
    let second = h.signers[1].clone();
    assert_eq!(h.c.remove_signer(&first, &second), Err(Error::InvalidThreshold));
}

#[test]
fn set_threshold_bounds_enforced() {
    let mut h = setup(3, 2);
    let first = h.signers[0].clone();
    assert_eq!(h.c.set_threshold(&first, 4), Err(Error::InvalidThreshold));
    h.c.set_threshold(&first, 3).unwrap();
    assert_eq!(h.c.get_threshold(), Ok(3));
}

#[test]
fn non_signer_cannot_change_config() {
    let mut h = setup(3, 2);
    let stranger = "GSTRANGER".to_string();
    let extra = "GEXTRA".to_string();
    assert_eq!(h.c.add_signer(&stranger, extra, 1), Err(Error::NotASigner));
    assert_eq!(h.c.set_threshold(&stranger, 1), Err(Error::NotASigner));
}

#[test]
fn test_dynamic_weights_and_threshold() {
    let mut h = setup(3, 3);
    let s1 = h.signers[0].clone();
    let s3 = h.signers[2].clone();
    assert_eq!(h.c.set_threshold(&s1, 4), Err(Error::InvalidThreshold));
    assert_eq!(h.c.set_threshold(&s1, 0), Err(Error::InvalidThreshold));
    h.c.update_weight(&s1, &s1, 2).unwrap();
    h.c.set_threshold(&s1, 4).unwrap();
    assert_eq!(h.c.remove_signer(&s1, &s3), Err(Error::InvalidThreshold));
    assert_eq!(h.c.update_weight(&s1, &s1, 1), Err(Error::InvalidThreshold));
}

// ---- further cases ----

#[test]
fn uninitialized_ledger_refuses_signer_calls() {
    let mut c = MultiSigContract::new();
    assert_eq!(c.get_threshold(), Err(Error::NotInitialized));
    assert_eq!(c.get_total_weight(), Err(Error::NotInitialized));
    assert!(c.get_signers().is_empty());
    let who = signer_name(0);
    assert_eq!(c.propose(&who, "payment".to_string(), payload(), 0), Err(Error::NotInitialized));
    assert_eq!(c.set_threshold(&who, 1), Err(Error::NotInitialized));
    assert_eq!(c.verify_threshold(&vec![who.clone()]), Err(Error::NotInitialized));
    assert_eq!(c.get_signer_weight(&who), 0);
}

#[test]
fn initialize_rejects_bad_signer_sets() {
    let mut c = MultiSigContract::new();
    assert_eq!(c.initialize(&Vec::new(), 1), Err(Error::InvalidInput));
    let too_many: Vec<String> = (0..(MAX_SIGNERS as u32 + 1)).map(signer_name).collect();
    assert_eq!(c.initialize(&too_many, 1), Err(Error::InvalidInput));
    let dup = vec![signer_name(0), signer_name(0)];
    assert_eq!(c.initialize(&dup, 1), Err(Error::InvalidInput));
    assert_eq!(c.initialize(&vec![signer_name(0)], 0), Err(Error::InvalidThreshold));
    c.initialize(&vec![signer_name(0)], 1).unwrap();
    assert_eq!(c.initialize(&vec![signer_name(1)], 1), Err(Error::AlreadyInitialized));
}

#[test]
fn weights_bound_and_total_track_changes() {
    let mut h = setup(3, 2);
    let first = h.signers[0].clone();
    assert_eq!(h.c.get_total_weight(), Ok(3));
    assert_eq!(h.c.add_signer(&first, "GHEAVY".to_string(), 0), Err(Error::InvalidSignerWeight));
    assert_eq!(
        h.c.add_signer(&first, "GHEAVY".to_string(), MAX_SIGNER_WEIGHT + 1),
        Err(Error::InvalidSignerWeight)
    );
    h.c.add_signer(&first, "GHEAVY".to_string(), 5).unwrap();
    assert_eq!(h.c.get_total_weight(), Ok(8));
    assert_eq!(h.c.get_signer_weight(&"GHEAVY".to_string()), 5);
    assert_eq!(h.c.get_signer_weight(&first), DEFAULT_SIGNER_WEIGHT);
    assert_eq!(h.c.update_weight(&first, &"GNOBODY".to_string(), 2), Err(Error::NotASigner));
    assert_eq!(h.c.remove_signer(&first, &"GNOBODY".to_string()), Err(Error::NotASigner));
}

#[test]
fn signer_set_is_capped() {
    let mut h = setup(MAX_SIGNERS as u32, 1);
    let first = h.signers[0].clone();
    assert_eq!(h.c.add_signer(&first, "GONEMORE".to_string(), 1), Err(Error::TooManySigners));
}

#[test]
fn approval_weight_accumulates_and_execution_is_once() {
    let mut h = setup(3, 3);
    let first = h.signers[0].clone();
    let second = h.signers[1].clone();
    h.c.update_weight(&first, &second, 4).unwrap();
    let id = h.propose(0, 0);
    assert_eq!(h.c.get_proposal(id).unwrap().approval_weight, 1);
    assert_eq!(h.c.approve(&second, id), Ok(5));
    h.c.execute(&first, id, h.now).unwrap();
    assert_eq!(h.c.execute(&first, id, h.now), Err(Error::InvalidProposalState));
    let third = h.signers[2].clone();
    assert_eq!(h.c.approve(&third, id), Err(Error::InvalidProposalState));
    assert_eq!(h.c.approve(&third, 99), Err(Error::NotFound));
    assert_eq!(h.c.get_proposal(0).err(), Some(Error::NotFound));
}

#[test]
fn verify_threshold_counts_each_signer_once() {
    let h = setup(3, 2);
    let a = h.signers[0].clone();
    let b = h.signers[1].clone();
    // One key repeated never counts twice.
    assert_eq!(h.c.verify_threshold(&vec![a.clone(), a.clone(), a.clone()]), Err(Error::ThresholdNotMet));
    assert_eq!(h.c.verify_threshold(&vec![a.clone(), b.clone(), a.clone()]), Ok(2));
    assert_eq!(h.c.verify_threshold(&vec![a.clone(), "GSTRANGER".to_string()]), Err(Error::NotASigner));
    assert_eq!(h.c.verify_threshold(&Vec::new()), Err(Error::InvalidInput));
}

#[test]
fn batch_nonces_are_strictly_increasing() {
    let mut h = setup(3, 2);
    let a = h.signers[0].clone();
    let b = h.signers[1].clone();
    let calls = vec![astroid::multisig::BatchCall {
        contract: "CTARGET".to_string(),
        func: "ping".to_string(),
        args: Vec::new(),
    }];
    assert_eq!(h.c.authorize_batch(&a, 1, &calls, &vec![a.clone()]), Err(Error::ThresholdNotMet));
    assert_eq!(h.c.authorize_batch(&a, 1, &calls, &vec![b.clone()]), Ok(2));
    assert_eq!(h.c.get_last_batch_nonce(), 1);
    assert_eq!(h.c.authorize_batch(&a, 1, &calls, &vec![b.clone()]), Err(Error::InvalidNonce));
    assert_eq!(h.c.authorize_batch(&a, 2, &Vec::new(), &vec![b.clone()]), Err(Error::InvalidInput));
    assert_eq!(
        h.c.authorize_batch(&"GSTRANGER".to_string(), 2, &calls, &vec![b.clone()]),
        Err(Error::NotASigner)
    );
    assert_eq!(h.c.authorize_batch(&a, 2, &calls, &vec![b]), Ok(2));
}

#[test]
fn emergency_lock_freezes_approval_execution_and_batches() {
    let mut h = setup(2, 2);
    let a = h.signers[0].clone();
    let b = h.signers[1].clone();
    let id = h.propose(0, 0);
    h.c.set_emergency_lock(&a, true).unwrap();
    assert_eq!(h.c.approve(&b, id), Err(Error::EmergencyLock));
    assert_eq!(h.c.execute(&a, id, h.now), Err(Error::EmergencyLock));
    assert_eq!(h.c.verify_threshold(&vec![a.clone(), b.clone()]), Err(Error::EmergencyLock));
    let calls = vec![astroid::multisig::BatchCall {
        contract: "CTARGET".to_string(),
        func: "ping".to_string(),
        args: Vec::new(),
    }];
    assert_eq!(h.c.authorize_batch(&a, 1, &calls, &vec![b]), Err(Error::EmergencyLock));
}
