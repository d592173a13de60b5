//! Weighted multisignature: no action runs until signers carrying enough
//! voting **weight** back it.
//!
//! Each signer has a positive weight (`DEFAULT_SIGNER_WEIGHT` unless set
//! otherwise) and the threshold is counted in weight units, so an unweighted
//! set behaves as a plain N-of-M multisig. Every configuration change keeps
//! the threshold within `[MIN_THRESHOLD, total weight]`, so the set can
//! always authorize. Proposals gather approvals (one per signer, the
//! proposer's counted at creation) and execute once their weight meets the
//! threshold and their time lock has passed; a global emergency lock stops
//! proposing, approving and executing. Batches of contract calls are
//! authorized by the distinct weight of the signatories behind them, under a
//! strictly increasing nonce; the calls themselves run outside this ledger.
use vstd::prelude::*;
use crate::shared::{copy_strings, lists, lists_key, Address, Error, MAX_SIGNERS};

verus! {

/// A raw contract-call argument, as the host represents it.
#[verifier::external_type_specification]
#[verifier::external_body]
pub struct ExVal(soroban_sdk::Val);

/// A registered signer and its positive voting weight.
#[derive(Debug)]
pub struct SignerWeight {
    pub address: Address,
    pub weight: u32,
}

/// A threshold change that must wait before it is finalized.
#[derive(Clone, Copy, Debug, PartialEq, Eq, Structural)]
pub struct PendingThresholdChange {
    pub new_threshold: u32,
    /// Ledger sequence at which the change was submitted.
    pub effective_from: u32,
}

/// An internal multisig proposal: an action tag and an opaque payload,
/// the approval weight gathered so far, and an optional time lock.
#[derive(Debug)]
pub struct MsProposal {
    pub proposer: Address,
    /// A short action tag, such as `payment` or `config`.
    pub action: String,
    /// Opaque payload (a serialized intent or its hash).
    pub payload: Vec<u8>,
    /// Sum of the weights of the signers who approved.
    pub approval_weight: u32,
    pub executed: bool,
    /// Earliest execution time (`0` = no time lock).
    pub unlock_at: u64,
}

/// A governance modification awaiting the timelock; each variant carries
/// the exact post-state it applies.
#[derive(Debug)]
pub enum GovernanceChange {
    /// Set the approval weight threshold.
    Threshold(u32),
    /// Set an existing signer's weight.
    SignerWeight(Address, u32),
    /// Admit a new signer with a positive weight.
    AddSigner(Address, u32),
    /// Drop an existing signer.
    RemoveSigner(Address),
    /// Change the delay applied to later governance proposals.
    TimelockDelay(u64),
}

/// A proposed governance change parked behind the timelock: executable from
/// `eta` until `expires_at` (exclusive).
#[derive(Debug)]
pub struct PendingChange {
    pub proposer: Address,
    pub change: GovernanceChange,
    pub proposed_at: u64,
    pub eta: u64,
    pub expires_at: u64,
    pub executed: bool,
    pub cancelled: bool,
}

/// One contract call of a batch.
pub struct BatchCall {
    /// The contract to invoke.
    pub contract: Address,
    /// The function to invoke.
    pub func: String,
    /// The raw arguments.
    pub args: Vec<soroban_sdk::Val>,
}


/// Weight of a signer added without an explicit one.
pub const DEFAULT_SIGNER_WEIGHT: u32 = 1;

/// Largest weight one signer may carry.
pub const MAX_SIGNER_WEIGHT: u32 = 100;

/// Smallest threshold a signer set may have.
pub const MIN_THRESHOLD: u32 = 1;

/// Largest number of calls in one batch.
pub const MAX_BATCH_CALLS: usize = 10;

impl SignerWeight {
    /// A field-for-field copy of this entry.
    pub fn copied(&self) -> (r: SignerWeight)
        ensures
            r == *self,
    {
        SignerWeight { address: self.address.clone(), weight: self.weight }
    }
}

/// Whether two proposal records agree field by field (the payload by its
/// bytes).
pub open spec fn same_ms_proposal(a: MsProposal, b: MsProposal) -> bool {
    &&& a.proposer == b.proposer
    &&& a.action == b.action
    &&& a.payload@ == b.payload@
    &&& a.approval_weight == b.approval_weight
    &&& a.executed == b.executed
    &&& a.unlock_at == b.unlock_at
}

fn copy_bytes(v: &Vec<u8>) -> (r: Vec<u8>)
    ensures
        r@ == v@,
{
    let mut r: Vec<u8> = Vec::new();
    let mut i: usize = 0;
    while i < v.len()
        invariant
            i <= v@.len(),
            r@ == v@.subrange(0, i as int),
        decreases v@.len() - i,
    {
        r.push(v[i]);
        i = i + 1;
        assert(r@ =~= v@.subrange(0, i as int));
    }
    assert(v@.subrange(0, v@.len() as int) =~= v@);
    r
}

impl MsProposal {
    /// A field-for-field copy of this record.
    pub fn copied(&self) -> (r: MsProposal)
        ensures
            same_ms_proposal(r, *self),
    {
        MsProposal {
            proposer: self.proposer.clone(),
            action: self.action.clone(),
            payload: copy_bytes(&self.payload),
            approval_weight: self.approval_weight,
            executed: self.executed,
            unlock_at: self.unlock_at,
        }
    }
}

// ---------------------------------------------------------------------------
// The signer set, mathematically.
// ---------------------------------------------------------------------------

/// The sum of the weights of `s`.
pub open spec fn total_weight(s: Seq<SignerWeight>) -> int
    decreases s.len(),
{
    if s.len() == 0 {
        0
    } else {
        total_weight(s.drop_last()) + s.last().weight
    }
}

/// Whether `who` is in the signer set.
pub open spec fn is_member(s: Seq<SignerWeight>, who: Address) -> bool {
    exists|i: int| 0 <= i < s.len() && #[trigger] s[i].address@ == who@
}

/// The position of `who` in the signer set (meaningful when it is a member).
pub open spec fn slot_of(s: Seq<SignerWeight>, who: Address) -> int {
    choose|i: int| 0 <= i < s.len() && #[trigger] s[i].address@ == who@
}

/// The weight `who` carries (`0` when it is not a signer).
pub open spec fn weight_of(s: Seq<SignerWeight>, who: Address) -> int {
    if is_member(s, who) {
        s[slot_of(s, who)].weight as int
    } else {
        0
    }
}

/// No address appears twice in the signer set.
pub open spec fn distinct_signers(s: Seq<SignerWeight>) -> bool {
    forall|i: int, j: int|
        0 <= i < s.len() && 0 <= j < s.len() && i != j ==> #[trigger] s[i].address@
            != #[trigger] s[j].address@
}

/// No address appears twice in a list.
pub open spec fn distinct_addresses(a: Seq<Address>) -> bool {
    forall|i: int, j: int| 0 <= i < a.len() && 0 <= j < a.len() && i != j ==> #[trigger] a[i]@ != #[trigger] a[j]@
}

/// Every weight lies in `[DEFAULT_SIGNER_WEIGHT, MAX_SIGNER_WEIGHT]`.
pub open spec fn weights_in_range(s: Seq<SignerWeight>) -> bool {
    forall|i: int| 0 <= i < s.len() ==> DEFAULT_SIGNER_WEIGHT <= #[trigger] s[i].weight <= MAX_SIGNER_WEIGHT
}

/// A usable configuration: a bounded, duplicate-free set of properly
/// weighted signers and a threshold that it can reach.
pub open spec fn config_ok(s: Seq<SignerWeight>, threshold: u32) -> bool {
    &&& 1 <= s.len() <= MAX_SIGNERS
    &&& weights_in_range(s)
    &&& distinct_signers(s)
    &&& MIN_THRESHOLD <= threshold <= total_weight(s)
}

/// The signer set made of `addrs`, each at the default weight.
pub open spec fn default_signers(addrs: Seq<Address>) -> Seq<SignerWeight> {
    Seq::new(addrs.len(), |i: int| SignerWeight { address: addrs[i], weight: DEFAULT_SIGNER_WEIGHT })
}

/// The weight behind a list of signatories, each distinct address counted
/// once.
pub open spec fn distinct_weight(s: Seq<SignerWeight>, sigs: Seq<Address>) -> int
    decreases sigs.len(),
{
    if sigs.len() == 0 {
        0
    } else {
        distinct_weight(s, sigs.drop_last()) + if lists(sigs.drop_last(), sigs.last()) {
            0
        } else {
            weight_of(s, sigs.last())
        }
    }
}

/// Every signatory is a signer.
pub open spec fn all_members(s: Seq<SignerWeight>, sigs: Seq<Address>) -> bool {
    forall|k: int| 0 <= k < sigs.len() ==> is_member(s, #[trigger] sigs[k])
}

/// The verified weight of a list of signatories: refused when one of them
/// is not a signer, else the distinct weight.
pub open spec fn tally(s: Seq<SignerWeight>, sigs: Seq<Address>) -> Result<int, Error> {
    if !all_members(s, sigs) {
        Err(Error::NotASigner)
    } else {
        Ok(distinct_weight(s, sigs))
    }
}

/// With no address twice, a position holding `who` is its slot, and its
/// weight is `who`'s weight.
pub proof fn lemma_slot(s: Seq<SignerWeight>, who: Address, i: int)
    requires
        distinct_signers(s),
        0 <= i < s.len(),
        s[i].address@ == who@,
    ensures
        is_member(s, who),
        slot_of(s, who) == i,
        weight_of(s, who) == s[i].weight,
{
    assert(is_member(s, who));
    let j = slot_of(s, who);
    assert(0 <= j < s.len() && s[j].address@ == who@);
    if j != i {
        assert(s[i].address@ != s[j].address@);
    }
}

/// Admitting a signer adds its weight to the total.
pub proof fn lemma_total_push(s: Seq<SignerWeight>, x: SignerWeight)
    ensures
        total_weight(s.push(x)) == total_weight(s) + x.weight,
{
    assert(s.push(x).drop_last() =~= s);
}

/// Re-weighting one signer changes the total by the difference.
pub proof fn lemma_total_update(s: Seq<SignerWeight>, i: int, x: SignerWeight)
    requires
        0 <= i < s.len(),
    ensures
        total_weight(s.update(i, x)) == total_weight(s) - s[i].weight + x.weight,
    decreases s.len(),
{
    if i == s.len() - 1 {
        assert(s.update(i, x).drop_last() =~= s.drop_last());
    } else {
        lemma_total_update(s.drop_last(), i, x);
        assert(s.update(i, x).drop_last() =~= s.drop_last().update(i, x));
    }
}

/// Dropping one signer takes its weight off the total.
pub proof fn lemma_total_remove(s: Seq<SignerWeight>, i: int)
    requires
        0 <= i < s.len(),
    ensures
        total_weight(s.remove(i)) == total_weight(s) - s[i].weight,
    decreases s.len(),
{
    if i == s.len() - 1 {
        assert(s.remove(i) =~= s.drop_last());
    } else {
        lemma_total_remove(s.drop_last(), i);
        assert(s.remove(i).drop_last() =~= s.drop_last().remove(i));
        assert(s.remove(i).last() == s.last());
    }
}

/// A total of weights is never negative.
pub proof fn lemma_total_nonneg(s: Seq<SignerWeight>)
    ensures
        total_weight(s) >= 0,
    decreases s.len(),
{
    if s.len() > 0 {
        lemma_total_nonneg(s.drop_last());
    }
}

/// A member's weight never exceeds the total.
pub proof fn lemma_total_covers(s: Seq<SignerWeight>, i: int)
    requires
        0 <= i < s.len(),
    ensures
        s[i].weight <= total_weight(s),
{
    lemma_total_remove(s, i);
    lemma_total_nonneg(s.remove(i));
}

/// With every weight in range, the total lies between the set's size and
/// its size times the largest weight.
pub proof fn lemma_total_bounds(s: Seq<SignerWeight>)
    requires
        weights_in_range(s),
    ensures
        s.len() <= total_weight(s) <= s.len() * MAX_SIGNER_WEIGHT,
    decreases s.len(),
{
    if s.len() > 0 {
        assert(weights_in_range(s.drop_last())) by {
            assert forall|i: int| 0 <= i < s.drop_last().len() implies DEFAULT_SIGNER_WEIGHT
                <= #[trigger] s.drop_last()[i].weight <= MAX_SIGNER_WEIGHT by {
                assert(s.drop_last()[i] == s[i]);
            }
        }
        lemma_total_bounds(s.drop_last());
        assert(s.last() == s[s.len() - 1]);
    }
}

/// A set at the default weight weighs as many as it has signers.
pub proof fn lemma_total_defaults(addrs: Seq<Address>)
    ensures
        total_weight(default_signers(addrs)) == addrs.len(),
    decreases addrs.len(),
{
    if addrs.len() > 0 {
        lemma_total_defaults(addrs.drop_last());
        assert(default_signers(addrs).drop_last() =~= default_signers(addrs.drop_last()));
    }
}

/// No address carries more than the largest weight.
pub proof fn lemma_weight_bounded(s: Seq<SignerWeight>, who: Address)
    requires
        weights_in_range(s),
    ensures
        0 <= weight_of(s, who) <= MAX_SIGNER_WEIGHT,
{
    if is_member(s, who) {
        let j = slot_of(s, who);
        assert(0 <= j < s.len() && s[j].address@ == who@);
    }
}

/// The weight behind a list is at most its length times the largest weight.
pub proof fn lemma_distinct_weight_bounded(s: Seq<SignerWeight>, sigs: Seq<Address>)
    requires
        weights_in_range(s),
    ensures
        0 <= distinct_weight(s, sigs) <= sigs.len() * MAX_SIGNER_WEIGHT,
    decreases sigs.len(),
{
    if sigs.len() > 0 {
        lemma_distinct_weight_bounded(s, sigs.drop_last());
        lemma_weight_bounded(s, sigs.last());
    }
}


/// Admitting a new, properly weighted address below capacity keeps a
/// configuration usable.
pub proof fn lemma_admit_keeps_config(s: Seq<SignerWeight>, threshold: u32, x: SignerWeight)
    requires
        config_ok(s, threshold),
        !is_member(s, x.address),
        s.len() < MAX_SIGNERS,
        weight_check(x.weight) is Ok,
    ensures
        config_ok(s.push(x), threshold),
{
    lemma_total_push(s, x);
    let t = s.push(x);
    assert forall|i: int, j: int| 0 <= i < t.len() && 0 <= j < t.len() && i != j implies #[trigger] t[i].address@
        != #[trigger] t[j].address@ by {
        if i == s.len() {
            assert(t[j] == s[j]);
        } else if j == s.len() {
            assert(t[i] == s[i]);
        } else {
            assert(t[i] == s[i]);
            assert(t[j] == s[j]);
        }
    }
    assert forall|i: int| 0 <= i < t.len() implies DEFAULT_SIGNER_WEIGHT <= #[trigger] t[i].weight
        <= MAX_SIGNER_WEIGHT by {
        if i < s.len() {
            assert(t[i] == s[i]);
        }
    }
}

/// Re-weighting a signer keeps a configuration usable when the new total
/// still reaches the threshold.
pub proof fn lemma_reweight_keeps_config(s: Seq<SignerWeight>, threshold: u32, i: int, x: SignerWeight)
    requires
        config_ok(s, threshold),
        0 <= i < s.len(),
        x.address@ == s[i].address@,
        weight_check(x.weight) is Ok,
        total_weight(s) - s[i].weight + x.weight >= threshold,
    ensures
        config_ok(s.update(i, x), threshold),
{
    lemma_total_update(s, i, x);
    let t = s.update(i, x);
    assert forall|a: int, b: int| 0 <= a < t.len() && 0 <= b < t.len() && a != b implies #[trigger] t[a].address@
        != #[trigger] t[b].address@ by {
        assert(t[a].address@ == s[a].address@);
        assert(t[b].address@ == s[b].address@);
    }
}

/// Dropping a signer keeps a configuration usable when the rest still
/// reaches the threshold.
pub proof fn lemma_drop_keeps_config(s: Seq<SignerWeight>, threshold: u32, i: int)
    requires
        config_ok(s, threshold),
        0 <= i < s.len(),
        total_weight(s) - s[i].weight >= threshold,
    ensures
        config_ok(s.remove(i), threshold),
{
    lemma_total_remove(s, i);
    let t = s.remove(i);
    assert(t.len() >= 1) by {
        if t.len() == 0 {
            assert(total_weight(t) == 0);
        }
    }
    assert forall|a: int| 0 <= a < t.len() implies DEFAULT_SIGNER_WEIGHT <= #[trigger] t[a].weight
        <= MAX_SIGNER_WEIGHT by {
        if a < i {
            assert(t[a] == s[a]);
        } else {
            assert(t[a] == s[a + 1]);
        }
    }
    assert forall|a: int, b: int| 0 <= a < t.len() && 0 <= b < t.len() && a != b implies #[trigger] t[a].address@
        != #[trigger] t[b].address@ by {
        let sa = if a < i { a } else { a + 1 };
        let sb = if b < i { b } else { b + 1 };
        assert(t[a] == s[sa]);
        assert(t[b] == s[sb]);
    }
}

// ---------------------------------------------------------------------------
// The ledger.
// ---------------------------------------------------------------------------

/// The multisig ledger: the weighted signer set and its threshold (once
/// initialized), the emergency lock, proposals by id (`id` = position + 1)
/// with the signers that approved each, and the last batch nonce used.
pub struct MultiSigContract {
    initialized: bool,
    signers: Vec<SignerWeight>,
    threshold: u32,
    locked: bool,
    proposals: Vec<MsProposal>,
    approvals: Vec<Vec<Address>>,
    last_batch_nonce: u64,
}

impl MultiSigContract {
    /// Whether `initialize` has run.
    pub closed spec fn is_initialized(self) -> bool {
        self.initialized
    }

    /// The signer set, in insertion order.
    pub closed spec fn signer_list(self) -> Seq<SignerWeight> {
        self.signers@
    }

    /// The approval threshold, in weight units.
    pub closed spec fn threshold_value(self) -> u32 {
        self.threshold
    }

    /// Whether the emergency lock is engaged.
    pub closed spec fn lock_flag(self) -> bool {
        self.locked
    }

    /// The proposals, by position (`id - 1`).
    pub closed spec fn proposal_list(self) -> Seq<MsProposal> {
        self.proposals@
    }

    /// For each proposal, the signers that approved it, in order.
    pub closed spec fn approver_lists(self) -> Seq<Seq<Address>> {
        self.approvals@.map_values(|v: Vec<Address>| v@)
    }

    /// The last batch nonce used (`0` before any batch).
    pub closed spec fn batch_nonce(self) -> u64 {
        self.last_batch_nonce
    }

    /// The ledger's invariant: an initialized ledger holds a usable
    /// configuration, an uninitialized one holds nothing, and every
    /// proposal has its list of approvers.
    pub open spec fn wf(self) -> bool {
        &&& (self.is_initialized() ==> config_ok(self.signer_list(), self.threshold_value()))
        &&& (!self.is_initialized() ==> self.signer_list().len() == 0 && self.proposal_list().len()
            == 0 && !self.lock_flag() && self.batch_nonce() == 0)
        &&& self.approver_lists().len() == self.proposal_list().len()
    }
}

/// Only an initialized ledger's signers pass.
pub open spec fn signer_gate(c: MultiSigContract, caller: Address) -> Result<(), Error> {
    if !c.is_initialized() {
        Err(Error::NotInitialized)
    } else if !is_member(c.signer_list(), caller) {
        Err(Error::NotASigner)
    } else {
        Ok(())
    }
}

/// The emergency-lock gate.
pub open spec fn lock_gate(c: MultiSigContract) -> Result<(), Error> {
    if c.lock_flag() {
        Err(Error::EmergencyLock)
    } else {
        Ok(())
    }
}

/// A weight must lie in `[DEFAULT_SIGNER_WEIGHT, MAX_SIGNER_WEIGHT]`.
pub open spec fn weight_check(weight: u32) -> Result<(), Error> {
    if weight < DEFAULT_SIGNER_WEIGHT || weight > MAX_SIGNER_WEIGHT {
        Err(Error::InvalidSignerWeight)
    } else {
        Ok(())
    }
}

/// A threshold must lie in `[MIN_THRESHOLD, total]`.
pub open spec fn threshold_check(threshold: u32, total: int) -> Result<(), Error> {
    if threshold < MIN_THRESHOLD || threshold > total {
        Err(Error::InvalidThreshold)
    } else {
        Ok(())
    }
}

/// `new` differs from `old` in the signer set and the threshold at most.
pub open spec fn reconfigured(old: MultiSigContract, new: MultiSigContract, signers: Seq<SignerWeight>, threshold: u32) -> bool {
    &&& new.is_initialized() == old.is_initialized()
    &&& new.signer_list() == signers
    &&& new.threshold_value() == threshold
    &&& new.lock_flag() == old.lock_flag()
    &&& new.proposal_list() == old.proposal_list()
    &&& new.approver_lists() == old.approver_lists()
    &&& new.batch_nonce() == old.batch_nonce()
}

/// `initialize`'s checks on the initial signers and threshold.
pub open spec fn init_check(addrs: Seq<Address>, threshold: u32) -> Result<(), Error> {
    if addrs.len() == 0 || addrs.len() > MAX_SIGNERS {
        Err(Error::InvalidInput)
    } else if threshold_check(threshold, addrs.len() as int) is Err {
        Err(Error::InvalidThreshold)
    } else if !distinct_addresses(addrs) {
        Err(Error::InvalidInput)
    } else {
        Ok(())
    }
}

/// `add_signer`: the signer set after admitting `signer` at `weight`.
pub open spec fn adding(c: MultiSigContract, caller: Address, signer: Address, weight: u32) -> Result<
    Seq<SignerWeight>,
    Error,
> {
    match signer_gate(c, caller) {
        Err(e) => Err(e),
        Ok(()) => if weight_check(weight) is Err {
            Err(Error::InvalidSignerWeight)
        } else if is_member(c.signer_list(), signer) {
            Err(Error::AlreadyExists)
        } else if c.signer_list().len() >= MAX_SIGNERS {
            Err(Error::TooManySigners)
        } else {
            Ok(c.signer_list().push(SignerWeight { address: signer, weight }))
        },
    }
}

/// `update_weight`: the signer set with `signer` re-weighted.
pub open spec fn reweighting(c: MultiSigContract, caller: Address, signer: Address, weight: u32) -> Result<
    Seq<SignerWeight>,
    Error,
> {
    let s = c.signer_list();
    match signer_gate(c, caller) {
        Err(e) => Err(e),
        Ok(()) => if weight_check(weight) is Err {
            Err(Error::InvalidSignerWeight)
        } else if !is_member(s, signer) {
            Err(Error::NotASigner)
        } else if total_weight(s) - weight_of(s, signer) + weight < c.threshold_value() {
            Err(Error::InvalidThreshold)
        } else {
            Ok(s.update(slot_of(s, signer), SignerWeight { address: signer, weight }))
        },
    }
}

/// `remove_signer`: the signer set without `signer`.
pub open spec fn removing(c: MultiSigContract, caller: Address, signer: Address) -> Result<Seq<SignerWeight>, Error> {
    let s = c.signer_list();
    match signer_gate(c, caller) {
        Err(e) => Err(e),
        Ok(()) => if !is_member(s, signer) {
            Err(Error::NotASigner)
        } else if total_weight(s) - weight_of(s, signer) < c.threshold_value() {
            Err(Error::InvalidThreshold)
        } else {
            Ok(s.remove(slot_of(s, signer)))
        },
    }
}

/// `set_threshold`'s verdict.
pub open spec fn rethresholding(c: MultiSigContract, caller: Address, threshold: u32) -> Result<(), Error> {
    match signer_gate(c, caller) {
        Err(e) => Err(e),
        Ok(()) => threshold_check(threshold, total_weight(c.signer_list())),
    }
}

/// The sum of the weights of `signers`.
fn sum_weights(signers: &Vec<SignerWeight>) -> (r: u32)
    requires
        signers@.len() <= MAX_SIGNERS,
        weights_in_range(signers@),
    ensures
        r == total_weight(signers@),
{
    let mut total: u32 = 0;
    let mut i: usize = 0;
    while i < signers.len()
        invariant
            i <= signers@.len() <= MAX_SIGNERS,
            weights_in_range(signers@),
            total == total_weight(signers@.subrange(0, i as int)),
            total <= i * MAX_SIGNER_WEIGHT,
        decreases signers@.len() - i,
    {
        proof {
            assert(signers@.subrange(0, i + 1).drop_last() =~= signers@.subrange(0, i as int));
            assert(signers@[i as int].weight <= MAX_SIGNER_WEIGHT);
        }
        total = total + signers[i].weight;
        i = i + 1;
    }
    assert(signers@.subrange(0, signers@.len() as int) =~= signers@);
    total
}

/// The position of `who` in the signer set, if present.
fn find_signer(signers: &Vec<SignerWeight>, who: &Address) -> (r: Option<usize>)
    requires
        distinct_signers(signers@),
    ensures
        match r {
            Some(i) => i < signers@.len() && signers@[i as int].address@ == who@ && slot_of(signers@, *who)
                == i && is_member(signers@, *who) && weight_of(signers@, *who) == signers@[i as int].weight,
            None => !is_member(signers@, *who),
        },
{
    let mut i: usize = 0;
    while i < signers.len()
        invariant
            i <= signers@.len(),
            distinct_signers(signers@),
            forall|j: int| 0 <= j < i ==> signers@[j].address@ != who@,
        decreases signers@.len() - i,
    {
        if signers[i].address == *who {
            proof {
                lemma_slot(signers@, *who, i as int);
            }
            return Some(i);
        }
        i = i + 1;
    }
    None
}

/// Whether no address of `a` appears twice.
fn all_distinct(a: &Vec<Address>) -> (r: bool)
    ensures
        r == distinct_addresses(a@),
{
    let mut i: usize = 0;
    while i < a.len()
        invariant
            i <= a@.len(),
            forall|x: int, y: int| 0 <= x < i && 0 <= y < a@.len() && x != y ==> #[trigger] a@[x]@ != #[trigger] a@[y]@,
        decreases a@.len() - i,
    {
        let mut j: usize = 0;
        while j < a.len()
            invariant
                i < a@.len(),
                j <= a@.len(),
                forall|x: int, y: int| 0 <= x < i && 0 <= y < a@.len() && x != y ==> #[trigger] a@[x]@ != #[trigger] a@[y]@,
                forall|y: int| 0 <= y < j && y != i ==> a@[i as int]@ != #[trigger] a@[y]@,
            decreases a@.len() - j,
        {
            if j != i && a[i] == a[j] {
                assert(a@[i as int]@ == a@[j as int]@);
                return false;
            }
            j = j + 1;
        }
        i = i + 1;
    }
    true
}

impl MultiSigContract {
    /// An uninitialized ledger.
    pub fn new() -> (c: Self)
        ensures
            c.wf(),
            !c.is_initialized(),
            c.signer_list().len() == 0,
            c.proposal_list().len() == 0,
            !c.lock_flag(),
            c.batch_nonce() == 0,
    {
        let c = MultiSigContract {
            initialized: false,
            signers: Vec::new(),
            threshold: 0,
            locked: false,
            proposals: Vec::new(),
            approvals: Vec::new(),
            last_batch_nonce: 0,
        };
        assert(c.approver_lists() =~= Seq::<Seq<Address>>::empty());
        c
    }

    /// Set up the signer set (each at the default weight) and the
    /// threshold, once: between one and `MAX_SIGNERS` distinct signers and a
    /// threshold in `[MIN_THRESHOLD, signers.len()]`.
    pub fn initialize(&mut self, signers: &Vec<Address>, threshold: u32) -> (r: Result<(), Error>)
        requires
            old(self).wf(),
        ensures
            final(self).wf(),
            old(self).is_initialized() ==> r == Err::<(), Error>(Error::AlreadyInitialized) && *final(self)
                == *old(self),
            !old(self).is_initialized() ==> match init_check(signers@, threshold) {
                Err(e) => r == Err::<(), Error>(e) && *final(self) == *old(self),
                Ok(()) => r is Ok && final(self).is_initialized() && final(self).signer_list()
                    == default_signers(signers@) && final(self).threshold_value() == threshold
                    && !final(self).lock_flag() && final(self).proposal_list().len() == 0
                    && final(self).batch_nonce() == 0,
            },
    {
        if self.initialized {
            return Err(Error::AlreadyInitialized);
        }
        let n = signers.len();
        if n == 0 || n > MAX_SIGNERS {
            return Err(Error::InvalidInput);
        }
        if threshold < MIN_THRESHOLD || threshold as usize > n {
            return Err(Error::InvalidThreshold);
        }
        if !all_distinct(signers) {
            return Err(Error::InvalidInput);
        }
        let mut set: Vec<SignerWeight> = Vec::new();
        let mut i: usize = 0;
        while i < n
            invariant
                n == signers@.len(),
                i <= n,
                set@ == default_signers(signers@.subrange(0, i as int)),
            decreases n - i,
        {
            set.push(SignerWeight { address: signers[i].clone(), weight: DEFAULT_SIGNER_WEIGHT });
            i = i + 1;
            assert(set@ =~= default_signers(signers@.subrange(0, i as int)));
        }
        proof {
            assert(signers@.subrange(0, n as int) =~= signers@);
            lemma_total_defaults(signers@);
            assert(distinct_signers(set@));
        }
        self.signers = set;
        self.threshold = threshold;
        self.initialized = true;
        Ok(())
    }

    fn require_signer(&self, caller: &Address) -> (r: Result<(), Error>)
        requires
            self.wf(),
        ensures
            r == signer_gate(*self, *caller),
    {
        if !self.initialized {
            return Err(Error::NotInitialized);
        }
        match find_signer(&self.signers, caller) {
            Some(_) => Ok(()),
            None => Err(Error::NotASigner),
        }
    }

    fn require_not_locked(&self) -> (r: Result<(), Error>)
        ensures
            r == lock_gate(*self),
    {
        if self.locked {
            Err(Error::EmergencyLock)
        } else {
            Ok(())
        }
    }

    /// Admit a new signer at `weight` (signer only): the weight must lie in
    /// `[DEFAULT_SIGNER_WEIGHT, MAX_SIGNER_WEIGHT]`, the address must be new
    /// and the set below `MAX_SIGNERS`.
    pub fn add_signer(&mut self, caller: &Address, signer: Address, weight: u32) -> (r: Result<(), Error>)
        requires
            old(self).wf(),
        ensures
            final(self).wf(),
            match adding(*old(self), *caller, signer, weight) {
                Err(e) => r == Err::<(), Error>(e) && *final(self) == *old(self),
                Ok(s) => r is Ok && reconfigured(*old(self), *final(self), s, old(self).threshold_value()),
            },
    {
        self.require_signer(caller)?;
        if weight < DEFAULT_SIGNER_WEIGHT || weight > MAX_SIGNER_WEIGHT {
            return Err(Error::InvalidSignerWeight);
        }
        if find_signer(&self.signers, &signer).is_some() {
            return Err(Error::AlreadyExists);
        }
        if self.signers.len() >= MAX_SIGNERS {
            return Err(Error::TooManySigners);
        }
        let ghost before = self.signers@;
        let entry = SignerWeight { address: signer, weight };
        proof {
            lemma_admit_keeps_config(before, self.threshold, entry);
        }
        self.signers.push(entry);
        Ok(())
    }

    /// Change a signer's weight (signer only). Refused when the new total
    /// would fall below the threshold.
    pub fn update_weight(&mut self, caller: &Address, signer: &Address, weight: u32) -> (r: Result<(), Error>)
        requires
            old(self).wf(),
        ensures
            final(self).wf(),
            match reweighting(*old(self), *caller, *signer, weight) {
                Err(e) => r == Err::<(), Error>(e) && *final(self) == *old(self),
                Ok(s) => r is Ok && reconfigured(*old(self), *final(self), s, old(self).threshold_value()),
            },
    {
        self.require_signer(caller)?;
        if weight < DEFAULT_SIGNER_WEIGHT || weight > MAX_SIGNER_WEIGHT {
            return Err(Error::InvalidSignerWeight);
        }
        let idx = match find_signer(&self.signers, signer) {
            Some(i) => i,
            None => return Err(Error::NotASigner),
        };
        let total = sum_weights(&self.signers);
        let current = self.signers[idx].weight;
        proof {
            lemma_total_covers(self.signers@, idx as int);
        }
        if (total - current) as u64 + (weight as u64) < self.threshold as u64 {
            return Err(Error::InvalidThreshold);
        }
        let ghost before = self.signers@;
        let entry = SignerWeight { address: signer.clone(), weight };
        proof {
            lemma_reweight_keeps_config(before, self.threshold, idx as int, entry);
        }
        self.signers.set(idx, entry);
        Ok(())
    }

    /// Drop a signer (signer only). Refused when the remaining weight could
    /// no longer reach the threshold.
    pub fn remove_signer(&mut self, caller: &Address, signer: &Address) -> (r: Result<(), Error>)
        requires
            old(self).wf(),
        ensures
            final(self).wf(),
            match removing(*old(self), *caller, *signer) {
                Err(e) => r == Err::<(), Error>(e) && *final(self) == *old(self),
                Ok(s) => r is Ok && reconfigured(*old(self), *final(self), s, old(self).threshold_value()),
            },
    {
        self.require_signer(caller)?;
        let idx = match find_signer(&self.signers, signer) {
            Some(i) => i,
            None => return Err(Error::NotASigner),
        };
        let total = sum_weights(&self.signers);
        let w = self.signers[idx].weight;
        proof {
            lemma_total_covers(self.signers@, idx as int);
        }
        if total - w < self.threshold {
            return Err(Error::InvalidThreshold);
        }
        let ghost before = self.signers@;
        proof {
            lemma_drop_keeps_config(before, self.threshold, idx as int);
        }
        self.signers.remove(idx);
        Ok(())
    }

    /// Change the threshold (signer only) within `[MIN_THRESHOLD, total
    /// weight]`.
    pub fn set_threshold(&mut self, caller: &Address, threshold: u32) -> (r: Result<(), Error>)
        requires
            old(self).wf(),
        ensures
            final(self).wf(),
            match rethresholding(*old(self), *caller, threshold) {
                Err(e) => r == Err::<(), Error>(e) && *final(self) == *old(self),
                Ok(()) => r is Ok && reconfigured(*old(self), *final(self), old(self).signer_list(), threshold),
            },
    {
        self.require_signer(caller)?;
        let total = sum_weights(&self.signers);
        if threshold < MIN_THRESHOLD || threshold > total {
            return Err(Error::InvalidThreshold);
        }
        self.threshold = threshold;
        Ok(())
    }

    /// Engage or release the emergency lock (signer only).
    pub fn set_emergency_lock(&mut self, caller: &Address, locked: bool) -> (r: Result<(), Error>)
        requires
            old(self).wf(),
        ensures
            final(self).wf(),
            match signer_gate(*old(self), *caller) {
                Err(e) => r == Err::<(), Error>(e) && *final(self) == *old(self),
                Ok(()) => r is Ok && final(self).lock_flag() == locked && final(self).is_initialized()
                    && final(self).signer_list() == old(self).signer_list() && final(self).threshold_value()
                    == old(self).threshold_value() && final(self).proposal_list() == old(self).proposal_list()
                    && final(self).approver_lists() == old(self).approver_lists() && final(self).batch_nonce()
                    == old(self).batch_nonce(),
            },
    {
        self.require_signer(caller)?;
        self.locked = locked;
        Ok(())
    }
}


/// The proposal stored under `id`, if any.
pub open spec fn ms_record(c: MultiSigContract, id: u64) -> Option<MsProposal> {
    if 1 <= id <= c.proposal_list().len() {
        Some(c.proposal_list()[id - 1])
    } else {
        None
    }
}

/// The gates of `propose`.
pub open spec fn proposing(c: MultiSigContract, proposer: Address) -> Result<(), Error> {
    match lock_gate(c) {
        Err(e) => Err(e),
        Ok(()) => match signer_gate(c, proposer) {
            Err(e) => Err(e),
            Ok(()) => if c.proposal_list().len() >= u64::MAX {
                Err(Error::Overflow)
            } else {
                Ok(())
            },
        },
    }
}

/// The outcome of `approve`: the proposal's new approval weight.
pub open spec fn approving(c: MultiSigContract, caller: Address, id: u64) -> Result<u32, Error> {
    match lock_gate(c) {
        Err(e) => Err(e),
        Ok(()) => match signer_gate(c, caller) {
            Err(e) => Err(e),
            Ok(()) => match ms_record(c, id) {
                None => Err(Error::NotFound),
                Some(p) => if p.executed {
                    Err(Error::InvalidProposalState)
                } else if lists(c.approver_lists()[id - 1], caller) {
                    Err(Error::AlreadySigned)
                } else if p.approval_weight + weight_of(c.signer_list(), caller) > u32::MAX {
                    Err(Error::Overflow)
                } else {
                    Ok((p.approval_weight + weight_of(c.signer_list(), caller)) as u32)
                },
            },
        },
    }
}

/// `execute`'s verdict.
pub open spec fn executing(c: MultiSigContract, caller: Address, id: u64, now: u64) -> Result<(), Error> {
    match lock_gate(c) {
        Err(e) => Err(e),
        Ok(()) => match signer_gate(c, caller) {
            Err(e) => Err(e),
            Ok(()) => match ms_record(c, id) {
                None => Err(Error::NotFound),
                Some(p) => if p.executed {
                    Err(Error::InvalidProposalState)
                } else if p.approval_weight < c.threshold_value() {
                    Err(Error::ThresholdNotMet)
                } else if p.unlock_at != 0 && now < p.unlock_at {
                    Err(Error::TimeLocked)
                } else {
                    Ok(())
                },
            },
        },
    }
}

/// The outcome of `verify_threshold`: the weight of `sigs`.
pub open spec fn verifying(c: MultiSigContract, sigs: Seq<Address>) -> Result<u32, Error> {
    match lock_gate(c) {
        Err(e) => Err(e),
        Ok(()) => if sigs.len() == 0 || sigs.len() > MAX_SIGNERS {
            Err(Error::InvalidInput)
        } else if !c.is_initialized() {
            Err(Error::NotInitialized)
        } else {
            match tally(c.signer_list(), sigs) {
                Err(e) => Err(e),
                Ok(w) => if w < c.threshold_value() {
                    Err(Error::ThresholdNotMet)
                } else {
                    Ok(w as u32)
                },
            }
        },
    }
}

/// Who backs a batch: its caller, then the listed approvers.
pub open spec fn batch_signatories(caller: Address, approvers: Seq<Address>) -> Seq<Address> {
    seq![caller] + approvers
}

/// `authorize_batch`'s verdict on a batch of `n_calls` calls: the weight
/// behind it.
pub open spec fn batching(c: MultiSigContract, caller: Address, nonce: u64, n_calls: int, approvers: Seq<Address>) -> Result<
    u32,
    Error,
> {
    match lock_gate(c) {
        Err(e) => Err(e),
        Ok(()) => if !c.is_initialized() {
            Err(Error::NotInitialized)
        } else if !is_member(c.signer_list(), caller) {
            Err(Error::NotASigner)
        } else if n_calls == 0 || n_calls > MAX_BATCH_CALLS {
            Err(Error::InvalidInput)
        } else if approvers.len() > MAX_SIGNERS {
            Err(Error::InvalidInput)
        } else if nonce <= c.batch_nonce() {
            Err(Error::InvalidNonce)
        } else {
            match tally(c.signer_list(), batch_signatories(caller, approvers)) {
                Err(e) => Err(e),
                Ok(w) => if w < c.threshold_value() {
                    Err(Error::ThresholdNotMet)
                } else {
                    Ok(w as u32)
                },
            }
        },
    }
}

/// `new` is `old` with proposal `id` replaced by `p` and its approvers by
/// `voters`.
pub open spec fn proposal_changed(old: MultiSigContract, new: MultiSigContract, id: u64, p: MsProposal, voters: Seq<Address>) -> bool {
    &&& new.is_initialized() == old.is_initialized()
    &&& new.signer_list() == old.signer_list()
    &&& new.threshold_value() == old.threshold_value()
    &&& new.lock_flag() == old.lock_flag()
    &&& new.proposal_list() == old.proposal_list().update(id - 1, p)
    &&& new.approver_lists() == old.approver_lists().update(id - 1, voters)
    &&& new.batch_nonce() == old.batch_nonce()
}

/// Whether `a` occurs in `sigs[..i]`.
fn listed_before(sigs: &Vec<Address>, i: usize) -> (r: bool)
    requires
        i < sigs@.len(),
    ensures
        r == lists(sigs@.subrange(0, i as int), sigs@[i as int]),
{
    let mut j: usize = 0;
    while j < i
        invariant
            i < sigs@.len(),
            j <= i,
            forall|k: int| 0 <= k < j ==> sigs@[k]@ != sigs@[i as int]@,
        decreases i - j,
    {
        if sigs[j] == sigs[i] {
            assert(sigs@.subrange(0, i as int)[j as int] == sigs@[j as int]);
            return true;
        }
        j = j + 1;
    }
    proof {
        assert forall|k: int| 0 <= k < i implies #[trigger] sigs@.subrange(0, i as int)[k]@ != sigs@[i as int]@ by {
            assert(sigs@.subrange(0, i as int)[k] == sigs@[k]);
        }
    }
    false
}

/// The verified weight behind `sigs`.
fn tally_weight(signers: &Vec<SignerWeight>, sigs: &Vec<Address>) -> (r: Result<u32, Error>)
    requires
        config_ok(signers@, 1),
        sigs@.len() <= MAX_SIGNERS + 1,
    ensures
        r == (match tally(signers@, sigs@) {
            Err(e) => Err::<u32, Error>(e),
            Ok(w) => Ok(w as u32),
        }),
        tally(signers@, sigs@) matches Ok(w) ==> 0 <= w <= (MAX_SIGNERS + 1) * MAX_SIGNER_WEIGHT,
{
    proof {
        lemma_distinct_weight_bounded(signers@, sigs@);
    }
    let mut total: u32 = 0;
    let mut i: usize = 0;
    while i < sigs.len()
        invariant
            i <= sigs@.len() <= MAX_SIGNERS + 1,
            config_ok(signers@, 1),
            forall|k: int| 0 <= k < i ==> is_member(signers@, #[trigger] sigs@[k]),
            total == distinct_weight(signers@, sigs@.subrange(0, i as int)),
            total <= i * MAX_SIGNER_WEIGHT,
        decreases sigs@.len() - i,
    {
        let j = match find_signer(signers, &sigs[i]) {
            Some(j) => j,
            None => {
                proof {
                    assert(!is_member(signers@, sigs@[i as int]));
                    assert(!all_members(signers@, sigs@));
                }
                return Err(Error::NotASigner);
            },
        };
        let seen = listed_before(sigs, i);
        proof {
            let pre = sigs@.subrange(0, i + 1);
            assert(pre.drop_last() =~= sigs@.subrange(0, i as int));
            assert(pre.last() == sigs@[i as int]);
            assert(signers@[j as int].weight <= MAX_SIGNER_WEIGHT);
        }
        if !seen {
            total = total + signers[j].weight;
        }
        i = i + 1;
    }
    proof {
        assert(sigs@.subrange(0, sigs@.len() as int) =~= sigs@);
        assert(all_members(signers@, sigs@));
    }
    Ok(total)
}

impl MultiSigContract {
    fn slot(&self, id: u64) -> (r: Result<usize, Error>)
        requires
            self.wf(),
        ensures
            match ms_record(*self, id) {
                None => r == Err::<usize, Error>(Error::NotFound),
                Some(_) => r matches Ok(i) && i == id - 1,
            },
    {
        if id == 0 || id > self.proposals.len() as u64 {
            return Err(Error::NotFound);
        }
        let i = (id - 1) as usize;
        assert(i == id - 1);
        Ok(i)
    }

    /// Open a proposal (signer only, not while locked) and count the
    /// proposer's approval at its weight. `unlock_at` is the earliest
    /// execution time (`0` = none). Returns the new id.
    pub fn propose(&mut self, proposer: &Address, action: String, payload: Vec<u8>, unlock_at: u64) -> (r: Result<u64, Error>)
        requires
            old(self).wf(),
        ensures
            final(self).wf(),
            match proposing(*old(self), *proposer) {
                Err(e) => r == Err::<u64, Error>(e) && *final(self) == *old(self),
                Ok(()) => r == Ok::<u64, Error>((old(self).proposal_list().len() + 1) as u64)
                    && final(self).proposal_list() == old(self).proposal_list().push(
                    MsProposal {
                        proposer: *proposer,
                        action,
                        payload,
                        approval_weight: weight_of(old(self).signer_list(), *proposer) as u32,
                        executed: false,
                        unlock_at,
                    },
                ) && final(self).approver_lists() == old(self).approver_lists().push(seq![*proposer])
                    && final(self).is_initialized() == old(self).is_initialized() && final(self).signer_list()
                    == old(self).signer_list() && final(self).threshold_value() == old(self).threshold_value()
                    && final(self).lock_flag() == old(self).lock_flag() && final(self).batch_nonce()
                    == old(self).batch_nonce(),
            },
    {
        self.require_not_locked()?;
        self.require_signer(proposer)?;
        if self.proposals.len() as u64 >= u64::MAX {
            return Err(Error::Overflow);
        }
        let j = match find_signer(&self.signers, proposer) {
            Some(j) => j,
            None => return Err(Error::NotASigner),
        };
        let weight = self.signers[j].weight;
        let id = self.proposals.len() as u64 + 1;
        let ghost before = self.approvals@;
        self.proposals.push(
            MsProposal {
                proposer: proposer.clone(),
                action,
                payload,
                approval_weight: weight,
                executed: false,
                unlock_at,
            },
        );
        let mut voters: Vec<Address> = Vec::new();
        voters.push(proposer.clone());
        self.approvals.push(voters);
        proof {
            assert(self.approver_lists() =~= before.map_values(|v: Vec<Address>| v@).push(seq![*proposer]));
        }
        Ok(id)
    }
}


impl MultiSigContract {
    /// Approve a proposal (signer only, once each, not while locked, not
    /// after execution): the caller's weight joins the proposal's. Returns
    /// the new approval weight.
    pub fn approve(&mut self, caller: &Address, id: u64) -> (r: Result<u32, Error>)
        requires
            old(self).wf(),
        ensures
            final(self).wf(),
            match approving(*old(self), *caller, id) {
                Err(e) => r == Err::<u32, Error>(e) && *final(self) == *old(self),
                Ok(w) => r == Ok::<u32, Error>(w) && proposal_changed(
                    *old(self),
                    *final(self),
                    id,
                    MsProposal { approval_weight: w, ..old(self).proposal_list()[id - 1] },
                    old(self).approver_lists()[id - 1].push(*caller),
                ),
            },
    {
        self.require_not_locked()?;
        self.require_signer(caller)?;
        let idx = self.slot(id)?;
        if self.proposals[idx].executed {
            return Err(Error::InvalidProposalState);
        }
        if lists_key(&self.approvals[idx], caller) {
            return Err(Error::AlreadySigned);
        }
        let j = match find_signer(&self.signers, caller) {
            Some(j) => j,
            None => return Err(Error::NotASigner),
        };
        let current = self.proposals[idx].approval_weight;
        let weight = self.signers[j].weight;
        if current > u32::MAX - weight {
            return Err(Error::Overflow);
        }
        let total = current + weight;
        let ghost before = self.approvals@;
        let mut voters = copy_strings(&self.approvals[idx]);
        voters.push(caller.clone());
        self.approvals.set(idx, voters);
        self.proposals[idx].approval_weight = total;
        proof {
            assert(self.approver_lists() =~= before.map_values(|v: Vec<Address>| v@).update(
                id - 1,
                before[id - 1]@.push(*caller),
            ));
        }
        Ok(total)
    }

    /// Execute a proposal (signer only, not while locked) once its approval
    /// weight meets the threshold and its time lock has passed.
    pub fn execute(&mut self, caller: &Address, id: u64, now: u64) -> (r: Result<(), Error>)
        requires
            old(self).wf(),
        ensures
            final(self).wf(),
            match executing(*old(self), *caller, id, now) {
                Err(e) => r == Err::<(), Error>(e) && *final(self) == *old(self),
                Ok(()) => r is Ok && proposal_changed(
                    *old(self),
                    *final(self),
                    id,
                    MsProposal { executed: true, ..old(self).proposal_list()[id - 1] },
                    old(self).approver_lists()[id - 1],
                ),
            },
    {
        self.require_not_locked()?;
        self.require_signer(caller)?;
        let idx = self.slot(id)?;
        if self.proposals[idx].executed {
            return Err(Error::InvalidProposalState);
        }
        if self.proposals[idx].approval_weight < self.threshold {
            return Err(Error::ThresholdNotMet);
        }
        let unlock_at = self.proposals[idx].unlock_at;
        if unlock_at != 0 && now < unlock_at {
            return Err(Error::TimeLocked);
        }
        self.proposals[idx].executed = true;
        proof {
            assert(self.approver_lists() =~= old(self).approver_lists().update(
                id - 1,
                old(self).approver_lists()[id - 1],
            ));
        }
        Ok(())
    }

    /// Check that the distinct signers among `signatories` carry at least
    /// the threshold (not while locked). Returns their weight. Every
    /// signatory must be a signer; one listed twice counts once.
    pub fn verify_threshold(&self, signatories: &Vec<Address>) -> (r: Result<u32, Error>)
        requires
            self.wf(),
        ensures
            r == verifying(*self, signatories@),
    {
        self.require_not_locked()?;
        if signatories.len() == 0 || signatories.len() > MAX_SIGNERS {
            return Err(Error::InvalidInput);
        }
        if !self.initialized {
            return Err(Error::NotInitialized);
        }
        let weight = tally_weight(&self.signers, signatories)?;
        if weight < self.threshold {
            return Err(Error::ThresholdNotMet);
        }
        Ok(weight)
    }

    /// Authorize a batch of `calls` under `nonce` (not while locked): the
    /// caller must be a signer, the batch non-empty and at most
    /// `MAX_BATCH_CALLS` long, the nonce above the last one used, and the
    /// distinct weight of the caller and `approvers` at least the threshold.
    /// On success the nonce is spent and the weight returned; running the
    /// calls is the caller's part.
    pub fn authorize_batch(&mut self, caller: &Address, nonce: u64, calls: &Vec<BatchCall>, approvers: &Vec<Address>) -> (r:
        Result<u32, Error>)
        requires
            old(self).wf(),
        ensures
            final(self).wf(),
            match batching(*old(self), *caller, nonce, calls@.len() as int, approvers@) {
                Err(e) => r == Err::<u32, Error>(e) && *final(self) == *old(self),
                Ok(w) => r == Ok::<u32, Error>(w) && final(self).batch_nonce() == nonce
                    && final(self).is_initialized() == old(self).is_initialized() && final(self).signer_list()
                    == old(self).signer_list() && final(self).threshold_value() == old(self).threshold_value()
                    && final(self).lock_flag() == old(self).lock_flag() && final(self).proposal_list()
                    == old(self).proposal_list() && final(self).approver_lists() == old(self).approver_lists(),
            },
    {
        self.require_not_locked()?;
        if !self.initialized {
            return Err(Error::NotInitialized);
        }
        if find_signer(&self.signers, caller).is_none() {
            return Err(Error::NotASigner);
        }
        if calls.len() == 0 || calls.len() > MAX_BATCH_CALLS {
            return Err(Error::InvalidInput);
        }
        if approvers.len() > MAX_SIGNERS {
            return Err(Error::InvalidInput);
        }
        if nonce <= self.last_batch_nonce {
            return Err(Error::InvalidNonce);
        }
        let mut signatories: Vec<Address> = Vec::new();
        signatories.push(caller.clone());
        let mut i: usize = 0;
        while i < approvers.len()
            invariant
                i <= approvers@.len(),
                signatories@ == seq![*caller] + approvers@.subrange(0, i as int),
            decreases approvers@.len() - i,
        {
            signatories.push(approvers[i].clone());
            i = i + 1;
            assert(signatories@ =~= seq![*caller] + approvers@.subrange(0, i as int));
        }
        proof {
            assert(approvers@.subrange(0, approvers@.len() as int) =~= approvers@);
        }
        let weight = tally_weight(&self.signers, &signatories)?;
        if weight < self.threshold {
            return Err(Error::ThresholdNotMet);
        }
        self.last_batch_nonce = nonce;
        Ok(weight)
    }

    /// The weight `who` carries (`0` when it is not a signer).
    pub fn get_signer_weight(&self, who: &Address) -> (r: u32)
        requires
            self.wf(),
        ensures
            r == weight_of(self.signer_list(), *who),
    {
        match find_signer(&self.signers, who) {
            Some(j) => self.signers[j].weight,
            None => 0,
        }
    }

    /// The total weight of the signer set.
    pub fn get_total_weight(&self) -> (r: Result<u32, Error>)
        requires
            self.wf(),
        ensures
            r == (if self.is_initialized() {
                Ok::<u32, Error>(total_weight(self.signer_list()) as u32)
            } else {
                Err::<u32, Error>(Error::NotInitialized)
            }),
    {
        if !self.initialized {
            return Err(Error::NotInitialized);
        }
        Ok(sum_weights(&self.signers))
    }

    /// The proposal stored under `id`.
    pub fn get_proposal(&self, id: u64) -> (r: Result<MsProposal, Error>)
        requires
            self.wf(),
        ensures
            match ms_record(*self, id) {
                None => r == Err::<MsProposal, Error>(Error::NotFound),
                Some(p) => r matches Ok(q) && same_ms_proposal(q, p),
            },
    {
        let idx = self.slot(id)?;
        Ok(self.proposals[idx].copied())
    }

    /// The last batch nonce used; the next batch needs a greater one.
    pub fn get_last_batch_nonce(&self) -> (r: u64)
        ensures
            r == self.batch_nonce(),
    {
        self.last_batch_nonce
    }

    /// The signer set (empty before initialization).
    pub fn get_signers(&self) -> (r: Vec<SignerWeight>)
        ensures
            r@ == self.signer_list(),
    {
        let mut r: Vec<SignerWeight> = Vec::new();
        let mut i: usize = 0;
        while i < self.signers.len()
            invariant
                i <= self.signers@.len(),
                r@ == self.signers@.subrange(0, i as int),
            decreases self.signers@.len() - i,
        {
            r.push(self.signers[i].copied());
            i = i + 1;
            assert(r@ =~= self.signers@.subrange(0, i as int));
        }
        assert(self.signers@.subrange(0, self.signers@.len() as int) =~= self.signers@);
        r
    }

    /// The approval threshold.
    pub fn get_threshold(&self) -> (r: Result<u32, Error>)
        ensures
            r == (if self.is_initialized() {
                Ok::<u32, Error>(self.threshold_value())
            } else {
                Err::<u32, Error>(Error::NotInitialized)
            }),
    {
        if !self.initialized {
            return Err(Error::NotInitialized);
        }
        Ok(self.threshold)
    }

    /// Whether `who` is a signer.
    pub fn is_signer(&self, who: &Address) -> (r: bool)
        requires
            self.wf(),
        ensures
            r == is_member(self.signer_list(), *who),
    {
        find_signer(&self.signers, who).is_some()
    }

    /// Whether the emergency lock is engaged.
    pub fn is_locked(&self) -> (r: bool)
        ensures
            r == self.lock_flag(),
    {
        self.locked
    }
}

} // verus!
