//! Properties of the weighted multisig that span calls: the threshold stays
//! reachable through every reconfiguration, execution implies every gate, a
//! signer approves a proposal at most once, nothing is authorized short of
//! the threshold, a repeated signatory counts once, an unweighted set is a
//! plain N-of-M multisig, a spent batch nonce cannot be replayed, and the
//! emergency lock freezes every action.
use vstd::prelude::*;
use crate::multisig::{
    adding, all_members, approving, batch_signatories, batching, config_ok, distinct_weight,
    executing, is_member, lemma_admit_keeps_config, lemma_distinct_weight_bounded,
    lemma_drop_keeps_config, lemma_reweight_keeps_config, lemma_slot, lemma_total_bounds,
    ms_record, proposal_changed, proposing, removing, rethresholding, reweighting, slot_of, tally,
    total_weight, verifying, weight_of, MultiSigContract, MsProposal, SignerWeight,
    DEFAULT_SIGNER_WEIGHT, MAX_SIGNER_WEIGHT, MIN_THRESHOLD,
};
use crate::shared::{lists, Address, Error};

verus! {

/// An initialized multisig can always authorize: its threshold lies in
/// `[MIN_THRESHOLD, total weight]`, and the total is bounded by the set's
/// size times the largest weight.
pub proof fn lemma_threshold_reachable(c: MultiSigContract)
    requires
        c.wf(),
        c.is_initialized(),
    ensures
        MIN_THRESHOLD <= c.threshold_value() <= total_weight(c.signer_list()),
        total_weight(c.signer_list()) <= c.signer_list().len() * MAX_SIGNER_WEIGHT,
{
    lemma_total_bounds(c.signer_list());
}

/// No reconfiguration that is accepted (adding, re-weighting or removing a
/// signer, or changing the threshold) leaves a signer set that cannot reach
/// its threshold.
pub proof fn lemma_reconfiguration_keeps_threshold_reachable(
    c: MultiSigContract,
    caller: Address,
    signer: Address,
    weight: u32,
    threshold: u32,
)
    requires
        c.wf(),
    ensures
        adding(c, caller, signer, weight) matches Ok(s) ==> config_ok(s, c.threshold_value()),
        reweighting(c, caller, signer, weight) matches Ok(s) ==> config_ok(s, c.threshold_value()),
        removing(c, caller, signer) matches Ok(s) ==> config_ok(s, c.threshold_value()),
        rethresholding(c, caller, threshold) is Ok ==> config_ok(c.signer_list(), threshold),
{
    let s = c.signer_list();
    if adding(c, caller, signer, weight) is Ok {
        lemma_admit_keeps_config(s, c.threshold_value(), SignerWeight { address: signer, weight });
    }
    if reweighting(c, caller, signer, weight) is Ok {
        let i = slot_of(s, signer);
        lemma_slot(s, signer, i);
        lemma_reweight_keeps_config(s, c.threshold_value(), i, SignerWeight { address: signer, weight });
    }
    if removing(c, caller, signer) is Ok {
        let i = slot_of(s, signer);
        lemma_slot(s, signer, i);
        lemma_drop_keeps_config(s, c.threshold_value(), i);
    }
}

/// A proposal executes only when the lock is off, the caller is a signer,
/// the proposal exists and has not run, its approval weight meets the
/// threshold, and its time lock (if any) has passed.
pub proof fn lemma_execution_requires_every_gate(c: MultiSigContract, caller: Address, id: u64, now: u64)
    requires
        c.wf(),
        executing(c, caller, id, now) is Ok,
    ensures
        !c.lock_flag(),
        c.is_initialized(),
        is_member(c.signer_list(), caller),
        ms_record(c, id) matches Some(p) && !p.executed && p.approval_weight >= c.threshold_value()
            && (p.unlock_at == 0 || now >= p.unlock_at),
{
}

/// A signer approves a proposal at most once: right after an accepted
/// approval, the same signer approving the same proposal is refused as
/// already signed.
pub proof fn lemma_one_approval_per_signer(c: MultiSigContract, next: MultiSigContract, caller: Address, id: u64, w: u32)
    requires
        c.wf(),
        approving(c, caller, id) == Ok::<u32, Error>(w),
        proposal_changed(
            c,
            next,
            id,
            MsProposal { approval_weight: w, ..c.proposal_list()[id - 1] },
            c.approver_lists()[id - 1].push(caller),
        ),
    ensures
        approving(next, caller, id) == Err::<u32, Error>(Error::AlreadySigned),
{
    let voters = c.approver_lists()[id - 1].push(caller);
    assert(voters[voters.len() - 1] == caller);
    assert(lists(voters, caller));
}

/// A signatory listed again adds nothing: the verified weight of a list is
/// unchanged by repeating one of its entries.
pub proof fn lemma_repeated_signatory_counts_once(s: Seq<SignerWeight>, sigs: Seq<Address>, x: Address)
    requires
        lists(sigs, x),
    ensures
        distinct_weight(s, sigs.push(x)) == distinct_weight(s, sigs),
        tally(s, sigs.push(x)) == tally(s, sigs),
{
    assert(sigs.push(x).drop_last() =~= sigs);
    let k = choose|k: int| 0 <= k < sigs.len() && #[trigger] sigs[k]@ == x@;
    if crate::multisig::all_members(s, sigs) {
        assert(is_member(s, sigs[k]));
        assert(is_member(s, x));
        assert forall|j: int| 0 <= j < sigs.push(x).len() implies is_member(s, #[trigger] sigs.push(x)[j]) by {
            if j < sigs.len() {
                assert(sigs.push(x)[j] == sigs[j]);
            }
        }
    } else {
        let j = choose|j: int| 0 <= j < sigs.len() && !is_member(s, #[trigger] sigs[j]);
        assert(sigs.push(x)[j] == sigs[j]);
    }
}

/// One key, however many times it is listed, carries exactly its own
/// weight: alone it reaches the threshold only if its own weight does.
pub proof fn lemma_single_key_counts_once(s: Seq<SignerWeight>, sigs: Seq<Address>, a: Address)
    requires
        sigs.len() >= 1,
        forall|k: int| 0 <= k < sigs.len() ==> #[trigger] sigs[k]@ == a@,
    ensures
        distinct_weight(s, sigs) == weight_of(s, a),
    decreases sigs.len(),
{
    let rest = sigs.drop_last();
    assert(sigs.last()@ == a@);
    assert(weight_of(s, sigs.last()) == weight_of(s, a)) by {
        lemma_same_text_same_weight(s, sigs.last(), a);
    }
    if rest.len() == 0 {
        assert(!lists(rest, sigs.last()));
        assert(distinct_weight(s, rest) == 0);
    } else {
        assert forall|k: int| 0 <= k < rest.len() implies #[trigger] rest[k]@ == a@ by {
            assert(rest[k] == sigs[k]);
        }
        lemma_single_key_counts_once(s, rest, a);
        assert(rest[0]@ == sigs.last()@);
        assert(lists(rest, sigs.last()));
    }
}

/// Addresses with the same text carry the same weight.
proof fn lemma_same_text_same_weight(s: Seq<SignerWeight>, a: Address, b: Address)
    requires
        a@ == b@,
    ensures
        weight_of(s, a) == weight_of(s, b),
{
    assert(is_member(s, a) == is_member(s, b)) by {
        if is_member(s, a) {
            let i = choose|i: int| 0 <= i < s.len() && #[trigger] s[i].address@ == a@;
            assert(s[i].address@ == b@);
        }
        if is_member(s, b) {
            let i = choose|i: int| 0 <= i < s.len() && #[trigger] s[i].address@ == b@;
            assert(s[i].address@ == a@);
        }
    }
    assert(slot_of(s, a) == slot_of(s, b)) by {
        assert((|i: int| 0 <= i < s.len() && s[i].address@ == a@) =~= (|i: int| 0 <= i < s.len()
            && s[i].address@ == b@));
    }
}

/// Nothing is authorized short of the threshold: an accepted threshold
/// check or batch reports the distinct weight of its signatories, and that
/// weight meets the threshold.
pub proof fn lemma_authorization_needs_threshold_weight(
    c: MultiSigContract,
    sigs: Seq<Address>,
    caller: Address,
    nonce: u64,
    n_calls: int,
    approvers: Seq<Address>,
)
    requires
        c.wf(),
    ensures
        verifying(c, sigs) matches Ok(w) ==> w == distinct_weight(c.signer_list(), sigs) && w
            >= c.threshold_value(),
        batching(c, caller, nonce, n_calls, approvers) matches Ok(w) ==> w == distinct_weight(
            c.signer_list(),
            batch_signatories(caller, approvers),
        ) && w >= c.threshold_value(),
{
    if verifying(c, sigs) is Ok {
        lemma_distinct_weight_bounded(c.signer_list(), sigs);
    }
    if batching(c, caller, nonce, n_calls, approvers) is Ok {
        lemma_distinct_weight_bounded(c.signer_list(), batch_signatories(caller, approvers));
    }
}

/// How many different addresses (by text) a list holds.
pub open spec fn distinct_count(sigs: Seq<Address>) -> int
    decreases sigs.len(),
{
    if sigs.len() == 0 {
        0
    } else {
        distinct_count(sigs.drop_last()) + if lists(sigs.drop_last(), sigs.last()) {
            0int
        } else {
            1int
        }
    }
}

/// Without explicit weights a multisig is a plain N-of-M one: when every
/// signer carries the default weight, the weight of a list of signers is
/// the number of different signers in it.
pub proof fn lemma_unweighted_is_n_of_m(s: Seq<SignerWeight>, sigs: Seq<Address>)
    requires
        forall|i: int| 0 <= i < s.len() ==> #[trigger] s[i].weight == DEFAULT_SIGNER_WEIGHT,
        all_members(s, sigs),
    ensures
        distinct_weight(s, sigs) == distinct_count(sigs),
    decreases sigs.len(),
{
    if sigs.len() > 0 {
        let rest = sigs.drop_last();
        assert(all_members(s, rest)) by {
            assert forall|k: int| 0 <= k < rest.len() implies is_member(s, #[trigger] rest[k]) by {
                assert(rest[k] == sigs[k]);
            }
        }
        lemma_unweighted_is_n_of_m(s, rest);
        assert(is_member(s, sigs[sigs.len() - 1]));
        let j = slot_of(s, sigs.last());
        assert(0 <= j < s.len() && s[j].address@ == sigs.last()@);
    }
}

/// A spent batch nonce cannot be replayed: once a batch under `nonce` is
/// authorized, no later batch under `nonce` or below it is.
pub proof fn lemma_batch_nonce_not_replayable(
    c: MultiSigContract,
    next: MultiSigContract,
    caller: Address,
    nonce: u64,
    n_calls: int,
    approvers: Seq<Address>,
    caller2: Address,
    nonce2: u64,
    n_calls2: int,
    approvers2: Seq<Address>,
)
    requires
        c.wf(),
        batching(c, caller, nonce, n_calls, approvers) is Ok,
        next.batch_nonce() == nonce,
        nonce2 <= nonce,
    ensures
        batching(next, caller2, nonce2, n_calls2, approvers2) is Err,
{
}

/// While the emergency lock is engaged, proposing, approving, executing,
/// verifying a threshold and authorizing a batch are all refused with
/// `EmergencyLock`.
pub proof fn lemma_lock_freezes_actions(
    c: MultiSigContract,
    caller: Address,
    id: u64,
    now: u64,
    sigs: Seq<Address>,
    nonce: u64,
    n_calls: int,
    approvers: Seq<Address>,
)
    requires
        c.lock_flag(),
    ensures
        proposing(c, caller) == Err::<(), Error>(Error::EmergencyLock),
        approving(c, caller, id) == Err::<u32, Error>(Error::EmergencyLock),
        executing(c, caller, id, now) == Err::<(), Error>(Error::EmergencyLock),
        verifying(c, sigs) == Err::<u32, Error>(Error::EmergencyLock),
        batching(c, caller, nonce, n_calls, approvers) == Err::<u32, Error>(Error::EmergencyLock),
{
}


/// Removing a signer drops exactly that signer: afterwards it is no longer
/// a signer, the set is one shorter, and every other previous signer is
/// still a signer with the same weight.
pub proof fn lemma_remove_signer_drops_exactly(c: MultiSigContract, caller: Address, signer: Address)
    requires
        c.wf(),
        removing(c, caller, signer) is Ok,
    ensures
        ({
            let s = c.signer_list();
            let s2 = removing(c, caller, signer)->Ok_0;
            &&& !is_member(s2, signer)
            &&& s2.len() == s.len() - 1
            &&& forall|i: int|
                0 <= i < s.len() && #[trigger] s[i].address@ != signer@ ==> is_member(
                    s2,
                    s[i].address,
                ) && weight_of(s2, s[i].address) == s[i].weight
        }),
{
    let s = c.signer_list();
    let k = slot_of(s, signer);
    lemma_slot(s, signer, k);
    let s2 = s.remove(k);
    assert(s2 == removing(c, caller, signer)->Ok_0);
    lemma_drop_keeps_config(s, c.threshold_value(), k);
    assert forall|j: int| 0 <= j < s2.len() implies #[trigger] s2[j].address@ != signer@ by {
        if j < k {
            assert(s2[j] == s[j]);
        } else {
            assert(s2[j] == s[j + 1]);
        }
    }
    assert forall|i: int|
        0 <= i < s.len() && #[trigger] s[i].address@ != signer@ implies is_member(
            s2,
            s[i].address,
        ) && weight_of(s2, s[i].address) == s[i].weight by {
        let j = if i < k {
            i
        } else {
            i - 1
        };
        assert(i != k);
        assert(s2[j] == s[i]);
        lemma_slot(s2, s[i].address, j);
    }
}


/// Adding or re-weighting a signer touches that signer alone: afterwards it
/// is a signer carrying exactly the requested weight, every other previous
/// signer keeps its weight, and the set grows by one (adding) or keeps its
/// size (re-weighting).
pub proof fn lemma_add_and_reweight_touch_one_signer(
    c: MultiSigContract,
    caller: Address,
    signer: Address,
    weight: u32,
)
    requires
        c.wf(),
    ensures
        adding(c, caller, signer, weight) matches Ok(s2) ==> {
            let s = c.signer_list();
            &&& is_member(s2, signer)
            &&& weight_of(s2, signer) == weight
            &&& s2.len() == s.len() + 1
            &&& forall|i: int|
                0 <= i < s.len() ==> #[trigger] is_member(s2, s[i].address) && weight_of(
                    s2,
                    s[i].address,
                ) == s[i].weight
        },
        reweighting(c, caller, signer, weight) matches Ok(s2) ==> {
            let s = c.signer_list();
            &&& is_member(s2, signer)
            &&& weight_of(s2, signer) == weight
            &&& s2.len() == s.len()
            &&& forall|i: int|
                0 <= i < s.len() && s[i].address@ != signer@ ==> #[trigger] is_member(
                    s2,
                    s[i].address,
                ) && weight_of(s2, s[i].address) == s[i].weight
        },
{
    let s = c.signer_list();
    if let Ok(s2) = adding(c, caller, signer, weight) {
        let x = SignerWeight { address: signer, weight };
        lemma_admit_keeps_config(s, c.threshold_value(), x);
        lemma_slot(s2, signer, s.len() as int);
        assert forall|i: int| 0 <= i < s.len() implies #[trigger] is_member(s2, s[i].address)
            && weight_of(s2, s[i].address) == s[i].weight by {
            assert(s2[i] == s[i]);
            lemma_slot(s2, s[i].address, i);
        }
    }
    if let Ok(s2) = reweighting(c, caller, signer, weight) {
        let k = slot_of(s, signer);
        lemma_slot(s, signer, k);
        let x = SignerWeight { address: signer, weight };
        lemma_reweight_keeps_config(s, c.threshold_value(), k, x);
        lemma_slot(s2, signer, k);
        assert forall|i: int| 0 <= i < s.len() && s[i].address@ != signer@ implies #[trigger] is_member(
            s2,
            s[i].address,
        ) && weight_of(s2, s[i].address) == s[i].weight by {
            assert(s2[i] == s[i]);
            lemma_slot(s2, s[i].address, i);
        }
    }
}

} // verus!
