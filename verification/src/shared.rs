//! Vocabulary shared by every contract of the suite: the error table, the
//! account address type, multi-asset amounts, resource lifecycle states,
//! protocol constants and the checked arithmetic every handler routes through.
use vstd::prelude::*;

verus! {

/// An account or contract address, carried as its Stellar strkey text
/// (`G...` for accounts, `C...` for contracts). Two addresses are the same
/// party exactly when their strkeys are equal.
pub type Address = String;

/// Stable error codes returned by every contract entrypoint.
#[derive(Clone, Copy, Debug, PartialEq, Eq, Structural)]
pub enum Error {
    AlreadyInitialized,
    NotInitialized,
    Unauthorized,
    NotFound,
    AlreadyExists,
    InvalidInput,
    InvalidAmount,
    InvalidState,
    Overflow,
    InsufficientFunds,
    BudgetExceeded,
    BudgetFrozen,
    BudgetArchived,
    BudgetExpired,
    AssetNotAuthorized,
    PolicyDenied,
    PolicyRecipientRestricted,
    PolicyMerchantBlocked,
    PolicyCategoryRestricted,
    AllowanceExceeded,
    RuleDenied,
    EscrowExpired,
    GraceActive,
    TimeLockActive,
    TimeLocked,
    InvalidNonce,
    NotASigner,
    AlreadySigned,
    ThresholdNotMet,
    InvalidThreshold,
    TooManySigners,
    InvalidSignerWeight,
    InsufficientWeight,
    EmergencyLock,
    BatchCallFailed,
    InvalidProposalState,
    ProposalNotApproved,
    ProposalExpired,
    NotAnApprover,
    TimelockNotExpired,
    PrerequisiteNotMet,
    CircularDependencyDetected,
    CancellationWindowClosed,
}

/// Lifecycle of an administrable resource (budgets).
#[derive(Clone, Copy, Debug, PartialEq, Eq, Structural)]
pub enum ResourceState {
    Active,
    Frozen,
    Paused,
    Archived,
}

/// One `(asset, amount)` leg of a multi-asset transfer.
#[derive(Debug)]
pub struct AssetAmount {
    pub asset: Address,
    pub amount: i128,
}

impl AssetAmount {
    /// A field-for-field copy of this leg.
    pub fn copied(&self) -> (r: AssetAmount)
        ensures
            r == *self,
    {
        AssetAmount { asset: self.asset.clone(), amount: self.amount }
    }
}

/// A token movement a contract call requires; the caller performs it.
#[derive(Debug)]
pub enum Movement {
    /// Pull `amount` of `asset` from `from` into the contract's custody.
    Deposit { asset: Address, from: Address, amount: i128 },
    /// Send `amount` of `asset` from the contract's custody to `to`.
    Payout { asset: Address, to: Address, amount: i128 },
}

/// A leg-for-leg copy of a multi-asset list.
pub fn copy_assets(v: &Vec<AssetAmount>) -> (r: Vec<AssetAmount>)
    ensures
        r@ == v@,
{
    let mut r: Vec<AssetAmount> = Vec::new();
    let mut i: usize = 0;
    while i < v.len()
        invariant
            i <= v@.len(),
            r@ == v@.subrange(0, i as int),
        decreases v@.len() - i,
    {
        r.push(v[i].copied());
        i = i + 1;
        assert(r@ =~= v@.subrange(0, i as int));
    }
    assert(v@.subrange(0, v@.len() as int) =~= v@);
    r
}

/// Whether `key` is one of `keys` (compared by text).
pub open spec fn lists(keys: Seq<String>, key: String) -> bool {
    exists|k: int| 0 <= k < keys.len() && #[trigger] keys[k]@ == key@
}

/// Whether `key` is one of `keys` (compared by text).
pub fn lists_key(keys: &Vec<String>, key: &String) -> (r: bool)
    ensures
        r == lists(keys@, *key),
{
    let mut k: usize = 0;
    while k < keys.len()
        invariant
            k <= keys@.len(),
            forall|j: int| 0 <= j < k ==> keys@[j]@ != key@,
        decreases keys@.len() - k,
    {
        if keys[k] == *key {
            return true;
        }
        k = k + 1;
    }
    false
}

/// An element-for-element copy of a list of strings.
pub fn copy_strings(v: &Vec<String>) -> (r: Vec<String>)
    ensures
        r@ == v@,
{
    let mut r: Vec<String> = Vec::new();
    let mut i: usize = 0;
    while i < v.len()
        invariant
            i <= v@.len(),
            r@ == v@.subrange(0, i as int),
        decreases v@.len() - i,
    {
        r.push(v[i].clone());
        i = i + 1;
        assert(r@ =~= v@.subrange(0, i as int));
    }
    assert(v@.subrange(0, v@.len() as int) =~= v@);
    r
}

/// Basis-point denominator: 10_000 bps = 100%.
pub const BPS_DENOMINATOR: i128 = 10_000;

pub const SECONDS_PER_DAY: u64 = 86_400;

pub const SECONDS_PER_WEEK: u64 = 604_800;

/// A month is accounted as 30 days.
pub const SECONDS_PER_MONTH: u64 = 2_592_000;

/// Largest number of distinct assets one escrow may hold.
pub const MAX_ESCROW_ASSETS: usize = 10;

/// Largest signer set (escrow override signers, multisig signers).
pub const MAX_SIGNERS: usize = 20;

/// Largest approver allow-list of a proposal.
pub const MAX_APPROVERS: usize = 20;

/// Largest number of prerequisites one proposal may declare.
pub const MAX_DEPENDENCIES: usize = 10;

/// Participation quorum of a proposal, in percent of its allow-list.
pub const PROPOSAL_QUORUM_PERCENT: u32 = 50;

/// The outcome of checked `a + b` on `i128`.
pub open spec fn spec_checked_add(a: i128, b: i128) -> Result<i128, Error> {
    if i128::MIN <= a + b <= i128::MAX {
        Ok((a + b) as i128)
    } else {
        Err(Error::Overflow)
    }
}

/// `a + b` on `i128`, or `Overflow` when it does not fit.
pub fn checked_add(a: i128, b: i128) -> (r: Result<i128, Error>)
    ensures
        r == spec_checked_add(a, b),
{
    match a.checked_add(b) {
        Some(v) => Ok(v),
        None => Err(Error::Overflow),
    }
}

/// The outcome of checked `a - b` on `i128`.
pub open spec fn spec_checked_sub(a: i128, b: i128) -> Result<i128, Error> {
    if i128::MIN <= a - b <= i128::MAX {
        Ok((a - b) as i128)
    } else {
        Err(Error::Overflow)
    }
}

/// `a - b` on `i128`, or `Overflow` when it does not fit.
pub fn checked_sub(a: i128, b: i128) -> (r: Result<i128, Error>)
    ensures
        r == spec_checked_sub(a, b),
{
    match a.checked_sub(b) {
        Some(v) => Ok(v),
        None => Err(Error::Overflow),
    }
}

/// The outcome of checked `a * b` on `i128`.
pub open spec fn spec_checked_mul(a: i128, b: i128) -> Result<i128, Error> {
    if i128::MIN <= a * b <= i128::MAX {
        Ok((a * b) as i128)
    } else {
        Err(Error::Overflow)
    }
}

/// `a * b` on `i128`, or `Overflow` when it does not fit.
pub fn checked_mul(a: i128, b: i128) -> (r: Result<i128, Error>)
    ensures
        r == spec_checked_mul(a, b),
{
    match a.checked_mul(b) {
        Some(v) => Ok(v),
        None => Err(Error::Overflow),
    }
}

/// Rust's truncating quotient of two integers (rounds toward zero).
pub open spec fn trunc_div(x: int, d: int) -> int {
    if x == 0 {
        0
    } else if x > 0 && d > 0 {
        x / d
    } else if x < 0 && d < 0 {
        (-x) / (-d)
    } else if x < 0 {
        -((-x) / d)
    } else {
        -(x / (-d))
    }
}

/// Rust's remainder matching [`trunc_div`] (takes the sign of `x`).
pub open spec fn trunc_rem(x: int, d: int) -> int {
    if x == 0 {
        0
    } else if x > 0 && d > 0 {
        x % d
    } else if x < 0 && d < 0 {
        -((-x) % (-d))
    } else if x < 0 {
        -((-x) % d)
    } else {
        x % (-d)
    }
}

/// The outcome of checked truncating `a / b` on `i128`.
pub open spec fn spec_checked_div(a: i128, b: i128) -> Result<i128, Error> {
    if b != 0 && i128::MIN <= trunc_div(a as int, b as int) <= i128::MAX {
        Ok(trunc_div(a as int, b as int) as i128)
    } else {
        Err(Error::Overflow)
    }
}

/// `a / b` on `i128` (truncating), or `Overflow` on a zero divisor or an
/// unrepresentable quotient.
pub fn checked_div(a: i128, b: i128) -> (r: Result<i128, Error>)
    ensures
        r == spec_checked_div(a, b),
{
    match a.checked_div(b) {
        Some(v) => Ok(v),
        None => Err(Error::Overflow),
    }
}

/// The outcome of checked truncating `a % b` on `i128`.
pub open spec fn spec_checked_rem(a: i128, b: i128) -> Result<i128, Error> {
    if b != 0 && !(a == i128::MIN && b == -1) {
        Ok(trunc_rem(a as int, b as int) as i128)
    } else {
        Err(Error::Overflow)
    }
}

/// `a % b` on `i128` (truncating), or `Overflow` on a zero divisor or the
/// single unrepresentable case `MIN % -1`.
pub fn checked_rem(a: i128, b: i128) -> (r: Result<i128, Error>)
    ensures
        r == spec_checked_rem(a, b),
{
    match a.checked_rem(b) {
        Some(v) => Ok(v),
        None => Err(Error::Overflow),
    }
}

/// Reject an empty identifier.
pub fn require_non_empty(s: &String) -> (r: Result<(), Error>)
    ensures
        r == (if s@.len() == 0 { Err::<(), Error>(Error::InvalidInput) } else { Ok(()) }),
{
    if s.as_str().is_empty() {
        Err(Error::InvalidInput)
    } else {
        Ok(())
    }
}

/// Reject a zero or negative amount.
pub fn require_positive_amount(amount: i128) -> (r: Result<(), Error>)
    ensures
        r == (if amount <= 0 { Err::<(), Error>(Error::InvalidAmount) } else { Ok(()) }),
{
    if amount <= 0 {
        Err(Error::InvalidAmount)
    } else {
        Ok(())
    }
}

/// Reject a negative amount (zero is allowed).
pub fn require_non_negative_amount(amount: i128) -> (r: Result<(), Error>)
    ensures
        r == (if amount < 0 { Err::<(), Error>(Error::InvalidAmount) } else { Ok(()) }),
{
    if amount < 0 {
        Err(Error::InvalidAmount)
    } else {
        Ok(())
    }
}

/// Refuse until the ledger clock `now` has reached `instant`.
pub fn require_time_reached(now: u64, instant: u64) -> (r: Result<(), Error>)
    ensures
        r == (if now < instant { Err::<(), Error>(Error::TimelockNotExpired) } else { Ok(()) }),
{
    if now < instant {
        Err(Error::TimelockNotExpired)
    } else {
        Ok(())
    }
}

} // verus!
