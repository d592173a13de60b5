//! Escrows: temporary custody `sender -> escrow -> (conditions) -> recipient`.
//!
//! An escrow may hold several assets at once. Funds leave custody only through
//! a settlement path: arbiter release (until `deadline + grace_period`),
//! signature override (before the deadline), cancellation (before the
//! deadline), vesting withdrawals / claims by the recipient, milestone
//! releases, or the sender's refund / reclaim once `deadline + grace_period`
//! is reached and while an optional refund window is still open. Every path
//! that empties an escrow moves only its un-released remainder, pro-rated per
//! asset as `amount * (funded - released) / funded`.
//!
//! Token movements are computed here and returned to the caller, which
//! performs them: a `Deposit` pulls an amount from an account into the
//! escrow's custody, a `Payout` sends an amount from custody to an account.
use vstd::prelude::*;
use crate::shared::{
    checked_add, checked_div, checked_mul, checked_sub, require_positive_amount, spec_checked_add,
    spec_checked_div, spec_checked_mul, spec_checked_sub, copy_assets, copy_strings, lists, lists_key, Address, AssetAmount, Error,
    Movement, MAX_ESCROW_ASSETS, MAX_SIGNERS,
};

verus! {

/// Lifecycle of an escrow.
#[derive(Clone, Copy, Debug, PartialEq, Eq, Structural)]
pub enum EscrowState {
    Created,
    Funded,
    Released,
    Refunded,
    Expired,
    Closed,
}

/// How an escrow vests: not at all (arbiter-driven), all at once at the
/// cliff, or linearly between start and end.
#[derive(Clone, Copy, Debug, PartialEq, Eq, Structural)]
pub enum ReleaseType {
    Unscheduled,
    Cliff,
    Linear,
}

/// A vesting schedule.
#[derive(Clone, Copy, Debug, PartialEq, Eq, Structural)]
pub struct ReleaseSchedule {
    pub release_type: ReleaseType,
    pub start_time: u64,
    pub cliff_time: u64,
    pub end_time: u64,
}

impl ReleaseSchedule {
    /// The absent schedule.
    pub fn none() -> (r: ReleaseSchedule)
        ensures
            r == unscheduled(),
    {
        ReleaseSchedule { release_type: ReleaseType::Unscheduled, start_time: 0, cliff_time: 0, end_time: 0 }
    }
}

/// The absent schedule.
pub open spec fn unscheduled() -> ReleaseSchedule {
    ReleaseSchedule { release_type: ReleaseType::Unscheduled, start_time: 0, cliff_time: 0, end_time: 0 }
}

/// An ed25519 public key, as the hex text of its 32 bytes.
pub type PublicKey = String;

/// A stored escrow record.
#[derive(Debug)]
pub struct Escrow {
    pub sender: Address,
    pub recipient: Address,
    pub arbiter: Address,
    pub assets: Vec<AssetAmount>,
    pub state: EscrowState,
    pub deadline: u64,
    pub grace_period: u64,
    /// Length of the refund window measured from `deadline + grace_period`
    /// (0 = never closes).
    pub refund_window: u64,
    pub funded_amount: i128,
    pub memo: String,
    pub schedule: ReleaseSchedule,
    pub released_amount: i128,
    pub override_signers: Vec<PublicKey>,
    pub override_threshold: u32,
    pub override_nonce: u64,
}

/// A single milestone of a milestone escrow; `release_bps` of the total is
/// paid when it is approved.
#[derive(Debug)]
pub struct Milestone {
    pub index: u32,
    pub description: String,
    pub release_bps: u32,
    pub released: bool,
}

/// A milestone as described at creation.
#[derive(Debug)]
pub struct MilestoneSpec {
    pub description: String,
    pub release_bps: u32,
}

/// The milestones of an escrow and the total disbursed through them.
#[derive(Debug)]
pub struct MilestoneSet {
    pub milestones: Vec<Milestone>,
    pub released_amount: i128,
}



/// Two escrow records hold the same data (vector fields compared by content).
pub open spec fn same_escrow(a: Escrow, b: Escrow) -> bool {
    &&& a.sender == b.sender
    &&& a.recipient == b.recipient
    &&& a.arbiter == b.arbiter
    &&& a.assets@ == b.assets@
    &&& a.state == b.state
    &&& a.deadline == b.deadline
    &&& a.grace_period == b.grace_period
    &&& a.refund_window == b.refund_window
    &&& a.funded_amount == b.funded_amount
    &&& a.memo == b.memo
    &&& a.schedule == b.schedule
    &&& a.released_amount == b.released_amount
    &&& a.override_signers@ == b.override_signers@
    &&& a.override_threshold == b.override_threshold
    &&& a.override_nonce == b.override_nonce
}

/// Two milestone sets hold the same data.
pub open spec fn same_milestones(a: MilestoneSet, b: MilestoneSet) -> bool {
    a.milestones@ == b.milestones@ && a.released_amount == b.released_amount
}

impl Escrow {
    /// A field-for-field copy of this record.
    pub fn copied(&self) -> (r: Escrow)
        ensures
            same_escrow(r, *self),
    {
        Escrow {
            sender: self.sender.clone(),
            recipient: self.recipient.clone(),
            arbiter: self.arbiter.clone(),
            assets: copy_assets(&self.assets),
            state: self.state,
            deadline: self.deadline,
            grace_period: self.grace_period,
            refund_window: self.refund_window,
            funded_amount: self.funded_amount,
            memo: self.memo.clone(),
            schedule: self.schedule,
            released_amount: self.released_amount,
            override_signers: copy_strings(&self.override_signers),
            override_threshold: self.override_threshold,
            override_nonce: self.override_nonce,
        }
    }
}

impl Milestone {
    /// A field-for-field copy of this milestone.
    pub fn copied(&self) -> (r: Milestone)
        ensures
            r == *self,
    {
        Milestone {
            index: self.index,
            description: self.description.clone(),
            release_bps: self.release_bps,
            released: self.released,
        }
    }
}

impl MilestoneSet {
    /// A copy of this milestone set.
    pub fn copied(&self) -> (r: MilestoneSet)
        ensures
            same_milestones(r, *self),
    {
        let mut ms: Vec<Milestone> = Vec::new();
        let mut i: usize = 0;
        while i < self.milestones.len()
            invariant
                i <= self.milestones@.len(),
                ms@ == self.milestones@.subrange(0, i as int),
            decreases self.milestones@.len() - i,
        {
            ms.push(self.milestones[i].copied());
            i = i + 1;
            assert(ms@ =~= self.milestones@.subrange(0, i as int));
        }
        assert(self.milestones@.subrange(0, self.milestones@.len() as int) =~= self.milestones@);
        MilestoneSet { milestones: ms, released_amount: self.released_amount }
    }
}

// ---------------------------------------------------------------------------
// Mathematical model.
// ---------------------------------------------------------------------------

/// The amount of `amount` vested under `s` at `now`: nothing before the cliff
/// (or the start), everything from the end on, and in between nothing for a
/// cliff schedule or the linear share `amount * elapsed / duration`. A
/// malformed schedule is `InvalidInput`; an unscheduled escrow vests nothing.
pub open spec fn vested(amount: i128, s: ReleaseSchedule, now: u64) -> Result<i128, Error> {
    match s.release_type {
        ReleaseType::Unscheduled => Ok(0),
        ReleaseType::Cliff => if s.end_time < s.start_time || s.cliff_time < s.start_time
            || s.cliff_time > s.end_time {
            Err(Error::InvalidInput)
        } else if now < s.cliff_time || now < s.start_time {
            Ok(0)
        } else if now >= s.end_time {
            Ok(amount)
        } else {
            Ok(0)
        },
        ReleaseType::Linear => if s.end_time <= s.start_time || s.cliff_time < s.start_time
            || s.cliff_time > s.end_time {
            Err(Error::InvalidInput)
        } else if now < s.cliff_time || now < s.start_time {
            Ok(0)
        } else if now >= s.end_time {
            Ok(amount)
        } else {
            match spec_checked_mul(amount, (now - s.start_time) as i128) {
                Err(e) => Err(e),
                Ok(m) => spec_checked_div(m, (s.end_time - s.start_time) as i128),
            }
        },
    }
}

/// What the recipient may withdraw now from a vesting escrow: vested minus
/// already released, never negative; nothing for an unscheduled escrow.
pub open spec fn claimable(e: Escrow, now: u64) -> Result<i128, Error> {
    if e.schedule.release_type == ReleaseType::Cliff || e.schedule.release_type
        == ReleaseType::Linear {
        match vested(e.funded_amount, e.schedule, now) {
            Err(err) => Err(err),
            Ok(v) => match spec_checked_sub(v, e.released_amount) {
                Err(err) => Err(err),
                Ok(c) => Ok(if c < 0 {
                    0
                } else {
                    c
                }),
            },
        }
    } else {
        Ok(0)
    }
}

/// The reclaim boundary `deadline + grace_period`, saturating.
pub open spec fn grace_end_of(e: Escrow) -> u64 {
    if e.deadline + e.grace_period > u64::MAX {
        u64::MAX
    } else {
        (e.deadline + e.grace_period) as u64
    }
}

/// When the refund window closes (0 = never).
pub open spec fn closes_at_of(e: Escrow) -> u64 {
    if e.refund_window == 0 {
        0
    } else if grace_end_of(e) + e.refund_window > u64::MAX {
        u64::MAX
    } else {
        (grace_end_of(e) + e.refund_window) as u64
    }
}

/// Whether the bounded refund window has closed at `now`.
pub open spec fn window_closed(e: Escrow, now: u64) -> bool {
    closes_at_of(e) != 0 && now >= closes_at_of(e)
}

/// The share `amount * num / den` of one asset, checked.
pub open spec fn share(amount: i128, num: i128, den: i128) -> Result<i128, Error> {
    match spec_checked_mul(amount, num) {
        Err(e) => Err(e),
        Ok(m) => spec_checked_div(m, den),
    }
}

/// Payouts to `to` of each asset's share `amount * num / den`, skipping zero
/// and negative shares; the first failing share (in list order) is the error.
pub open spec fn payouts(assets: Seq<AssetAmount>, num: i128, den: i128, to: Address) -> Result<
    Seq<Movement>,
    Error,
>
    decreases assets.len(),
{
    if assets.len() == 0 {
        Ok(Seq::empty())
    } else {
        match payouts(assets.drop_last(), num, den, to) {
            Err(e) => Err(e),
            Ok(prev) => match share(assets.last().amount, num, den) {
                Err(e) => Err(e),
                Ok(x) => Ok(
                    if x > 0 {
                        prev.push(Movement::Payout { asset: assets.last().asset, to, amount: x })
                    } else {
                        prev
                    },
                ),
            },
        }
    }
}

/// The movements that return an escrow's un-released remainder to `to`.
pub open spec fn remainder_payouts(e: Escrow, to: Address) -> Result<Seq<Movement>, Error> {
    match spec_checked_sub(e.funded_amount, e.released_amount) {
        Err(err) => Err(err),
        Ok(remaining) => if remaining <= 0 {
            Ok(Seq::empty())
        } else {
            payouts(e.assets@, remaining, e.funded_amount, to)
        },
    }
}

/// Deposits pulling every listed amount from `from`, in list order.
pub open spec fn deposits(assets: Seq<AssetAmount>, from: Address) -> Seq<Movement> {
    Seq::new(
        assets.len(),
        |i: int| Movement::Deposit { asset: assets[i].asset, from, amount: assets[i].amount },
    )
}

/// The sum of the listed amounts, checked in list order.
pub open spec fn sum_amounts(assets: Seq<AssetAmount>) -> Result<i128, Error>
    decreases assets.len(),
{
    if assets.len() == 0 {
        Ok(0)
    } else {
        match sum_amounts(assets.drop_last()) {
            Err(e) => Err(e),
            Ok(s) => spec_checked_add(s, assets.last().amount),
        }
    }
}

/// The first problem of a multi-asset list from position `i` on: a
/// non-positive amount (`InvalidAmount`) or an asset listed again later
/// (`InvalidInput`), checked entry by entry.
pub open spec fn asset_scan(assets: Seq<AssetAmount>, i: int) -> Option<Error>
    decreases assets.len() - i,
{
    if i < 0 || i >= assets.len() {
        None
    } else if assets[i].amount <= 0 {
        Some(Error::InvalidAmount)
    } else if exists|j: int| i < j < assets.len() && #[trigger] assets[j].asset@ == assets[i].asset@ {
        Some(Error::InvalidInput)
    } else {
        asset_scan(assets, i + 1)
    }
}

/// Validation of a multi-asset list: non-empty, within the size cap, every
/// amount positive, no asset listed twice.
pub open spec fn assets_check(assets: Seq<AssetAmount>) -> Result<(), Error> {
    if assets.len() == 0 || assets.len() > MAX_ESCROW_ASSETS {
        Err(Error::InvalidInput)
    } else {
        match asset_scan(assets, 0) {
            Some(e) => Err(e),
            None => Ok(()),
        }
    }
}

/// Validation of an override configuration: either disabled (no signers,
/// zero threshold) or a duplicate-free signer set within the size cap with a
/// threshold in `[1, signers]`.
pub open spec fn override_config_check(signers: Seq<PublicKey>, threshold: u32) -> Result<(), Error> {
    if signers.len() == 0 {
        if threshold != 0 {
            Err(Error::InvalidThreshold)
        } else {
            Ok(())
        }
    } else if signers.len() > MAX_SIGNERS {
        Err(Error::TooManySigners)
    } else if threshold == 0 || threshold > signers.len() {
        Err(Error::InvalidThreshold)
    } else if exists|i: int, j: int|
        0 <= i < j < signers.len() && #[trigger] signers[i]@ == #[trigger] signers[j]@ {
        Err(Error::InvalidInput)
    } else {
        Ok(())
    }
}

/// `e` holds exactly the given data.
pub open spec fn escrow_fields(
    e: Escrow,
    sender: Address,
    recipient: Address,
    arbiter: Address,
    assets: Seq<AssetAmount>,
    state: EscrowState,
    deadline: u64,
    grace_period: u64,
    refund_window: u64,
    funded_amount: i128,
    memo: String,
    schedule: ReleaseSchedule,
    signers: Seq<PublicKey>,
    threshold: u32,
) -> bool {
    &&& e.sender == sender
    &&& e.recipient == recipient
    &&& e.arbiter == arbiter
    &&& e.assets@ == assets
    &&& e.state == state
    &&& e.deadline == deadline
    &&& e.grace_period == grace_period
    &&& e.refund_window == refund_window
    &&& e.funded_amount == funded_amount
    &&& e.memo == memo
    &&& e.schedule == schedule
    &&& e.released_amount == 0
    &&& e.override_signers@ == signers
    &&& e.override_threshold == threshold
    &&& e.override_nonce == 0
}

/// The id the next escrow of `c` receives, or why none can be issued.
pub open spec fn next_id_of(c: EscrowContract) -> Result<u64, Error> {
    if !c.is_initialized() {
        Err(Error::NotInitialized)
    } else if c.records().len() >= u64::MAX {
        Err(Error::Overflow)
    } else {
        Ok((c.records().len() + 1) as u64)
    }
}

/// The checks `create_with_refund_window` applies before pulling funds.
pub open spec fn create_checks(
    c: EscrowContract,
    now: u64,
    sender: Address,
    recipient: Address,
    deadline: u64,
    grace_period: u64,
    assets: Seq<AssetAmount>,
    signers: Seq<PublicKey>,
    threshold: u32,
) -> Result<(), Error> {
    if recipient@ == sender@ || deadline <= now || deadline + grace_period > u64::MAX {
        Err(Error::InvalidInput)
    } else {
        match assets_check(assets) {
            Err(e) => Err(e),
            Ok(_) => match override_config_check(signers, threshold) {
                Err(e) => Err(e),
                Ok(_) => match next_id_of(c) {
                    Err(e) => Err(e),
                    Ok(_) => Ok(()),
                },
            },
        }
    }
}

/// The checks `create_scheduled` applies before pulling funds; `Ok` carries
/// the effective deadline (`deadline == 0` means the schedule's end).
pub open spec fn scheduled_checks(
    c: EscrowContract,
    now: u64,
    sender: Address,
    recipient: Address,
    assets: Seq<AssetAmount>,
    schedule: ReleaseSchedule,
    deadline: u64,
) -> Result<u64, Error> {
    let effective = if deadline == 0 {
        schedule.end_time
    } else {
        deadline
    };
    if recipient@ == sender@ {
        Err(Error::InvalidInput)
    } else {
        match assets_check(assets) {
            Err(e) => Err(e),
            Ok(_) => if schedule.start_time > schedule.cliff_time || schedule.cliff_time
                > schedule.end_time || schedule.end_time <= schedule.start_time
                || schedule.end_time <= now || effective < schedule.end_time {
                Err(Error::InvalidInput)
            } else {
                match next_id_of(c) {
                    Err(e) => Err(e),
                    Ok(_) => Ok(effective),
                }
            },
        }
    }
}

/// The sum of the milestone weights in basis points, `None` on `u32`
/// overflow.
pub open spec fn bps_total(ms: Seq<MilestoneSpec>) -> Option<u32>
    decreases ms.len(),
{
    if ms.len() == 0 {
        Some(0)
    } else {
        match bps_total(ms.drop_last()) {
            None => None,
            Some(t) => if t + ms.last().release_bps > u32::MAX {
                None
            } else {
                Some((t + ms.last().release_bps) as u32)
            },
        }
    }
}

/// The milestones of `set` are the given specs, in order, none released.
pub open spec fn fresh_milestones(set: MilestoneSet, specs: Seq<MilestoneSpec>) -> bool {
    &&& set.released_amount == 0
    &&& set.milestones@.len() == specs.len()
    &&& forall|i: int|
        0 <= i < specs.len() ==> #[trigger] set.milestones@[i] == (Milestone {
            index: i as u32,
            description: specs[i].description,
            release_bps: specs[i].release_bps,
            released: false,
        })
}

/// `post` is `pre` with escrow `id` replaced by `e` and nothing else changed.
pub open spec fn applied(pre: EscrowContract, post: EscrowContract, id: u64, e: Escrow) -> bool {
    &&& post.records() == pre.records().update(id - 1, e)
    &&& post.milestone_records() == pre.milestone_records()
    &&& post.is_initialized() == pre.is_initialized()
}

/// `withdraw`: a partial withdrawal of vested funds by the recipient.
pub open spec fn withdrawal(e: Escrow, caller: Address, amount: i128, now: u64) -> Result<
    (Escrow, Seq<Movement>, i128),
    Error,
> {
    if e.recipient@ != caller@ {
        Err(Error::Unauthorized)
    } else if e.state != EscrowState::Funded {
        Err(Error::InvalidState)
    } else {
        match claimable(e, now) {
            Err(err) => Err(err),
            Ok(c) => if c <= 0 {
                Err(Error::TimeLockActive)
            } else if amount > c {
                Err(Error::InsufficientFunds)
            } else {
                match spec_checked_add(e.released_amount, amount) {
                    Err(err) => Err(err),
                    Ok(released) => match payouts(e.assets@, amount, e.funded_amount, e.recipient) {
                        Err(err) => Err(err),
                        Ok(ms) => Ok(
                            (
                                Escrow {
                                    released_amount: released,
                                    state: if released == e.funded_amount {
                                        EscrowState::Released
                                    } else {
                                        EscrowState::Funded
                                    },
                                    ..e
                                },
                                ms,
                                released,
                            ),
                        ),
                    },
                }
            },
        }
    }
}

/// `claim`: the recipient takes everything currently available.
pub open spec fn claiming(e: Escrow, caller: Address, now: u64) -> Result<(Escrow, Seq<Movement>, i128), Error> {
    if e.recipient@ != caller@ {
        Err(Error::Unauthorized)
    } else if e.state == EscrowState::Funded {
        let available = if e.schedule.release_type == ReleaseType::Cliff || e.schedule.release_type
            == ReleaseType::Linear {
            claimable(e, now)
        } else if now < grace_end_of(e) {
            Err(Error::TimeLockActive)
        } else {
            spec_checked_sub(e.funded_amount, e.released_amount)
        };
        match available {
            Err(err) => Err(err),
            Ok(c) => if c <= 0 {
                Err(Error::TimeLockActive)
            } else {
                match spec_checked_add(e.released_amount, c) {
                    Err(err) => Err(err),
                    Ok(released) => match payouts(e.assets@, c, e.funded_amount, e.recipient) {
                        Err(err) => Err(err),
                        Ok(ms) => Ok(
                            (
                                Escrow {
                                    released_amount: released,
                                    state: if released == e.funded_amount {
                                        EscrowState::Released
                                    } else {
                                        EscrowState::Funded
                                    },
                                    ..e
                                },
                                ms,
                                c,
                            ),
                        ),
                    },
                }
            },
        }
    } else if e.state == EscrowState::Created {
        if now < grace_end_of(e) {
            Err(Error::TimeLockActive)
        } else if e.funded_amount <= 0 {
            Err(Error::InvalidState)
        } else {
            match remainder_payouts(e, e.recipient) {
                Err(err) => Err(err),
                Ok(ms) => Ok(
                    (
                        Escrow {
                            state: EscrowState::Released,
                            released_amount: e.funded_amount,
                            ..e
                        },
                        ms,
                        e.funded_amount,
                    ),
                ),
            }
        }
    } else {
        Err(Error::InvalidState)
    }
}

/// `release`: the arbiter pays the whole remainder to the recipient before
/// the reclaim boundary. `has_milestones` blocks it on milestone escrows. On
/// a vesting escrow `release_amount` may not exceed what has vested by
/// `now` (`TimeLockActive` otherwise).
pub open spec fn releasing(e: Escrow, caller: Address, has_milestones: bool, release_amount: i128, now: u64) -> Result<
    (Escrow, Seq<Movement>),
    Error,
> {
    if e.arbiter@ != caller@ {
        Err(Error::Unauthorized)
    } else if e.state != EscrowState::Funded || has_milestones {
        Err(Error::InvalidState)
    } else if now >= grace_end_of(e) {
        Err(Error::EscrowExpired)
    } else {
        match spec_checked_sub(e.funded_amount, e.released_amount) {
            Err(err) => Err(err),
            Ok(remaining) => if release_amount > remaining {
                Err(Error::InvalidAmount)
            } else if vesting_gate(e, release_amount, now) is Err {
                Err(vesting_gate(e, release_amount, now)->Err_0)
            } else {
                match remainder_payouts(e, e.recipient) {
                    Err(err) => Err(err),
                    Ok(ms) => Ok(
                        (
                            Escrow {
                                state: EscrowState::Released,
                                released_amount: e.funded_amount,
                                ..e
                            },
                            ms,
                        ),
                    ),
                }
            },
        }
    }
}

/// The vesting gate of `release`: on a cliff or linear escrow, the amount
/// must not exceed what has vested by `now`.
pub open spec fn vesting_gate(e: Escrow, release_amount: i128, now: u64) -> Result<(), Error> {
    if e.schedule.release_type == ReleaseType::Cliff || e.schedule.release_type
        == ReleaseType::Linear {
        match vested(e.funded_amount, e.schedule, now) {
            Err(err) => Err(err),
            Ok(v) => if release_amount > v {
                Err(Error::TimeLockActive)
            } else {
                Ok(())
            },
        }
    } else {
        Ok(())
    }
}

/// Whether the sender's reclaim paths may act on an escrow in this state.
pub open spec fn reclaimable_state(s: EscrowState) -> bool {
    s == EscrowState::Created || s == EscrowState::Funded || s == EscrowState::Expired
}

/// The sender reclaims the remainder: `refund` (after the deadline, then the
/// grace), `refund_timelock` and `reclaim` (after the grace), each while the
/// refund window is open. `early` is the error reported inside the grace.
pub open spec fn reclaiming(e: Escrow, caller: Address, now: u64, check_deadline: bool, early: Error) -> Result<
    (Escrow, Seq<Movement>),
    Error,
> {
    if e.sender@ != caller@ {
        Err(Error::Unauthorized)
    } else if !reclaimable_state(e.state) {
        Err(Error::InvalidState)
    } else if check_deadline && now < e.deadline {
        Err(Error::TimeLockActive)
    } else if now < grace_end_of(e) {
        Err(early)
    } else if window_closed(e, now) {
        Err(Error::EscrowExpired)
    } else {
        match remainder_payouts(e, e.sender) {
            Err(err) => Err(err),
            Ok(ms) => Ok((Escrow { state: EscrowState::Refunded, ..e }, ms)),
        }
    }
}

/// `cancel`: sender or arbiter returns the remainder before the deadline.
pub open spec fn cancelling(e: Escrow, caller: Address, now: u64) -> Result<(Escrow, Seq<Movement>), Error> {
    if e.sender@ != caller@ && e.arbiter@ != caller@ {
        Err(Error::Unauthorized)
    } else if !(e.state == EscrowState::Funded || e.state == EscrowState::Created) {
        Err(Error::InvalidState)
    } else if now >= e.deadline {
        Err(Error::InvalidState)
    } else {
        match remainder_payouts(e, e.sender) {
            Err(err) => Err(err),
            Ok(ms) => Ok((Escrow { state: EscrowState::Refunded, ..e }, ms)),
        }
    }
}

/// The first problem among the presented keys from position `i` on: a key
/// that is not a configured signer, or one presented twice.
pub open spec fn key_scan(signers: Seq<PublicKey>, keys: Seq<PublicKey>, i: int) -> Option<Error>
    decreases keys.len() - i,
{
    if i < 0 || i >= keys.len() {
        None
    } else if !lists(signers, keys[i]) {
        Some(Error::NotASigner)
    } else if lists(keys.subrange(0, i), keys[i]) {
        Some(Error::AlreadySigned)
    } else {
        key_scan(signers, keys, i + 1)
    }
}

/// `override_release`: early release to the recipient authorized by enough
/// distinct configured signers (whose signatures the caller has verified
/// over the escrow's payload) with a fresh, strictly greater nonce.
pub open spec fn overriding(e: Escrow, nonce: u64, keys: Seq<PublicKey>, now: u64) -> Result<
    (Escrow, Seq<Movement>),
    Error,
> {
    if e.override_signers@.len() == 0 || e.override_threshold == 0 {
        Err(Error::Unauthorized)
    } else if e.state != EscrowState::Funded {
        Err(Error::InvalidState)
    } else if now >= e.deadline {
        Err(Error::EscrowExpired)
    } else if nonce <= e.override_nonce {
        Err(Error::InvalidNonce)
    } else if keys.len() < e.override_threshold {
        Err(Error::ThresholdNotMet)
    } else {
        match key_scan(e.override_signers@, keys, 0) {
            Some(err) => Err(err),
            None => match remainder_payouts(e, e.recipient) {
                Err(err) => Err(err),
                Ok(ms) => Ok(
                    (
                        Escrow {
                            override_nonce: nonce,
                            state: EscrowState::Released,
                            released_amount: e.funded_amount,
                            ..e
                        },
                        ms,
                    ),
                ),
            },
        }
    }
}

/// The last position of a milestone with the given index.
pub open spec fn last_match(ms: Seq<Milestone>, index: u32) -> Option<int>
    decreases ms.len(),
{
    if ms.len() == 0 {
        None
    } else if ms.last().index == index {
        Some(ms.len() - 1)
    } else {
        last_match(ms.drop_last(), index)
    }
}

/// How many milestones are still unreleased.
pub open spec fn unreleased_count(ms: Seq<Milestone>) -> nat
    decreases ms.len(),
{
    if ms.len() == 0 {
        0
    } else {
        unreleased_count(ms.drop_last()) + if ms.last().released {
            0nat
        } else {
            1nat
        }
    }
}

/// `release_milestone`: pay one milestone's share (`release_bps` of the
/// total; the last unreleased milestone pays the dust-free remainder). The
/// result carries the new escrow, the milestone's position, the new
/// cumulative milestone payout and the movement.
pub open spec fn milestone_payout(e: Escrow, set: Option<MilestoneSet>, caller: Address, index: u32) -> Result<
    (Escrow, int, i128, Seq<Movement>),
    Error,
> {
    if e.arbiter@ != caller@ {
        Err(Error::Unauthorized)
    } else if !(e.state == EscrowState::Funded || e.state == EscrowState::Released) {
        Err(Error::InvalidState)
    } else if set is None {
        Err(Error::NotFound)
    } else {
        let set = set->0;
        match last_match(set.milestones@, index) {
            None => Err(Error::InvalidInput),
            Some(k) => {
                let m = set.milestones@[k];
                if m.released {
                    Err(Error::InvalidState)
                } else {
                    match sum_amounts(e.assets@) {
                        Err(err) => Err(err),
                        Ok(total) => match share(total, m.release_bps as i128, 10_000) {
                            Err(err) => Err(err),
                            Ok(gross) => match spec_checked_sub(total, set.released_amount) {
                                Err(err) => Err(err),
                                Ok(remaining) => {
                                    let payout = if unreleased_count(set.milestones@) == 1 {
                                        remaining
                                    } else {
                                        gross
                                    };
                                    match spec_checked_add(set.released_amount, payout) {
                                        Err(err) => Err(err),
                                        Ok(nr) => {
                                            let new_ms = set.milestones@.update(
                                                k,
                                                Milestone { released: true, ..m },
                                            );
                                            let all = forall|j: int|
                                                0 <= j < new_ms.len() ==> #[trigger] new_ms[j].released;
                                            Ok(
                                                (
                                                    Escrow {
                                                        released_amount: nr,
                                                        state: if all {
                                                            EscrowState::Released
                                                        } else {
                                                            e.state
                                                        },
                                                        ..e
                                                    },
                                                    k,
                                                    nr,
                                                    seq![
                                                        Movement::Payout {
                                                            asset: e.assets@[0].asset,
                                                            to: e.recipient,
                                                            amount: payout,
                                                        },
                                                    ],
                                                ),
                                            )
                                        },
                                    }
                                },
                            },
                        },
                    }
                }
            },
        }
    }
}

/// Whether the sender could reclaim `e` at `now`.
pub open spec fn refundable(e: Escrow, now: u64) -> bool {
    reclaimable_state(e.state) && now >= grace_end_of(e) && !window_closed(e, now)
}

/// The custody bookkeeping of one escrow: every listed amount is positive;
/// once funded (a non-zero funded amount) the funded amount is the sum of the
/// listed amounts; and what has been released lies between nothing and what
/// was funded.
pub open spec fn custody_ok(e: Escrow) -> bool {
    &&& forall|k: int| 0 <= k < e.assets@.len() ==> #[trigger] e.assets@[k].amount > 0
    &&& e.funded_amount == 0 || sum_amounts(e.assets@) == Ok::<i128, Error>(e.funded_amount)
    &&& 0 <= e.released_amount <= e.funded_amount
}

/// The total weight of the milestones, in basis points.
pub open spec fn bps_sum(ms: Seq<Milestone>) -> int
    decreases ms.len(),
{
    if ms.len() == 0 {
        0
    } else {
        bps_sum(ms.drop_last()) + ms.last().release_bps
    }
}

/// The weight of the milestones already released, in basis points.
pub open spec fn released_bps(ms: Seq<Milestone>) -> int
    decreases ms.len(),
{
    if ms.len() == 0 {
        0
    } else {
        released_bps(ms.drop_last()) + if ms.last().released {
            ms.last().release_bps as int
        } else {
            0
        }
    }
}

/// The bookkeeping of a milestone escrow: its funded amount is the sum of
/// its assets, the weights add up to the whole (10 000 basis points), and
/// the cumulative milestone payout is never more than the released weights'
/// share of the funded amount.
pub open spec fn milestones_ok(e: Escrow, set: MilestoneSet) -> bool {
    &&& sum_amounts(e.assets@) == Ok::<i128, Error>(e.funded_amount)
    &&& bps_sum(set.milestones@) == 10_000
    &&& 0 <= set.released_amount
    &&& 10_000 * set.released_amount <= e.funded_amount * released_bps(set.milestones@)
}

/// A list that passes the entry scan from `i` on has only positive amounts
/// from `i` on.
proof fn lemma_scan_positive(assets: Seq<AssetAmount>, i: int)
    requires
        0 <= i,
        asset_scan(assets, i) is None,
    ensures
        forall|k: int| i <= k < assets.len() ==> #[trigger] assets[k].amount > 0,
    decreases assets.len() - i,
{
    if i < assets.len() {
        lemma_scan_positive(assets, i + 1);
    }
}

/// A validated list has only positive amounts.
proof fn lemma_checked_assets_positive(assets: Seq<AssetAmount>)
    requires
        assets_check(assets) is Ok,
    ensures
        forall|k: int| 0 <= k < assets.len() ==> #[trigger] assets[k].amount > 0,
{
    lemma_scan_positive(assets, 0);
}

/// The checked sum of positive amounts is non-negative.
proof fn lemma_sum_nonneg(assets: Seq<AssetAmount>)
    requires
        forall|k: int| 0 <= k < assets.len() ==> #[trigger] assets[k].amount > 0,
        sum_amounts(assets) is Ok,
    ensures
        sum_amounts(assets)->Ok_0 >= 0,
    decreases assets.len(),
{
    if assets.len() > 0 {
        let pre = assets.drop_last();
        assert forall|k: int| 0 <= k < pre.len() implies #[trigger] pre[k].amount > 0 by {
            assert(pre[k] == assets[k]);
        }
        lemma_sum_nonneg(pre);
        assert(assets.last() == assets[assets.len() - 1]);
    }
}

/// The released weight never exceeds the total weight, and neither is
/// negative.
proof fn lemma_released_bps_bounded(ms: Seq<Milestone>)
    ensures
        0 <= released_bps(ms) <= bps_sum(ms),
    decreases ms.len(),
{
    if ms.len() > 0 {
        lemma_released_bps_bounded(ms.drop_last());
    }
}

/// Marking an unreleased milestone released adds its weight to the released
/// weight and leaves the total weight unchanged.
proof fn lemma_release_one(ms: Seq<Milestone>, k: int)
    requires
        0 <= k < ms.len(),
        !ms[k].released,
    ensures
        released_bps(ms.update(k, Milestone { released: true, ..ms[k] })) == released_bps(ms)
            + ms[k].release_bps,
        bps_sum(ms.update(k, Milestone { released: true, ..ms[k] })) == bps_sum(ms),
    decreases ms.len(),
{
    let m = Milestone { released: true, ..ms[k] };
    let u = ms.update(k, m);
    if k == ms.len() - 1 {
        assert(u.drop_last() =~= ms.drop_last());
    } else {
        assert(u.drop_last() =~= ms.drop_last().update(k, m));
        lemma_release_one(ms.drop_last(), k);
    }
}

/// When every milestone is released, the released weight is the total.
proof fn lemma_all_released(ms: Seq<Milestone>)
    requires
        forall|j: int| 0 <= j < ms.len() ==> #[trigger] ms[j].released,
    ensures
        released_bps(ms) == bps_sum(ms),
    decreases ms.len(),
{
    if ms.len() > 0 {
        let pre = ms.drop_last();
        assert forall|j: int| 0 <= j < pre.len() implies #[trigger] pre[j].released by {
            assert(pre[j] == ms[j]);
        }
        lemma_all_released(pre);
    }
}

/// With no milestone left unreleased, every milestone is released.
proof fn lemma_none_unreleased(ms: Seq<Milestone>)
    requires
        unreleased_count(ms) == 0,
    ensures
        forall|j: int| 0 <= j < ms.len() ==> #[trigger] ms[j].released,
    decreases ms.len(),
{
    if ms.len() > 0 {
        let pre = ms.drop_last();
        lemma_none_unreleased(pre);
        assert forall|j: int| 0 <= j < ms.len() implies #[trigger] ms[j].released by {
            if j < ms.len() - 1 {
                assert(pre[j] == ms[j]);
            }
        }
    }
}

/// When the given unreleased milestone is the only one left, every other
/// milestone is released.
proof fn lemma_only_unreleased(ms: Seq<Milestone>, k: int)
    requires
        0 <= k < ms.len(),
        !ms[k].released,
        unreleased_count(ms) == 1,
    ensures
        forall|j: int| 0 <= j < ms.len() && j != k ==> #[trigger] ms[j].released,
    decreases ms.len(),
{
    let pre = ms.drop_last();
    if k == ms.len() - 1 {
        lemma_none_unreleased(pre);
        assert forall|j: int| 0 <= j < ms.len() && j != k implies #[trigger] ms[j].released by {
            assert(pre[j] == ms[j]);
        }
    } else {
        assert(pre[k] == ms[k]);
        if !ms.last().released {
            lemma_none_unreleased(pre);
            assert(pre[k].released);
        }
        lemma_only_unreleased(pre, k);
        assert forall|j: int| 0 <= j < ms.len() && j != k implies #[trigger] ms[j].released by {
            if j < ms.len() - 1 {
                assert(pre[j] == ms[j]);
            }
        }
    }
}

/// Fresh milestones carry the specified weights and none is released.
proof fn lemma_fresh_weights(ms: Seq<Milestone>, specs: Seq<MilestoneSpec>)
    requires
        ms.len() == specs.len(),
        forall|i: int|
            0 <= i < specs.len() ==> #[trigger] ms[i].release_bps == specs[i].release_bps
                && !ms[i].released,
        bps_total(specs) is Some,
    ensures
        bps_sum(ms) == bps_total(specs)->0,
        released_bps(ms) == 0,
    decreases ms.len(),
{
    if ms.len() > 0 {
        let pm = ms.drop_last();
        let ps = specs.drop_last();
        assert forall|i: int| 0 <= i < ps.len() implies #[trigger] pm[i].release_bps
            == ps[i].release_bps && !pm[i].released by {
            assert(pm[i] == ms[i]);
            assert(ps[i] == specs[i]);
        }
        lemma_fresh_weights(pm, ps);
        assert(ms.last() == ms[ms.len() - 1]);
        assert(specs.last() == specs[specs.len() - 1]);
    }
}

/// One milestone payout keeps the milestone bookkeeping: paying either the
/// milestone's share of the total or, for the last unreleased milestone, the
/// whole rest leaves the cumulative payout between nothing and the funded
/// amount and within the released weights' share of it.
proof fn lemma_milestone_step(
    e: Escrow,
    set: MilestoneSet,
    k: int,
    total: i128,
    gross: i128,
    last: bool,
    payout: i128,
    nr: i128,
)
    requires
        custody_ok(e),
        milestones_ok(e, set),
        0 <= k < set.milestones@.len(),
        !set.milestones@[k].released,
        sum_amounts(e.assets@) == Ok::<i128, Error>(total),
        share(total, set.milestones@[k].release_bps as i128, 10_000) == Ok::<i128, Error>(gross),
        last == (unreleased_count(set.milestones@) == 1),
        payout == if last {
            total - set.released_amount
        } else {
            gross as int
        },
        nr == set.released_amount + payout,
    ensures
        ({
            let ms = set.milestones@;
            let nms = ms.update(k, Milestone { released: true, ..ms[k] });
            &&& 0 <= nr <= e.funded_amount
            &&& bps_sum(nms) == 10_000
            &&& 10_000 * nr <= e.funded_amount * released_bps(nms)
        }),
{
    let ms = set.milestones@;
    let nms = ms.update(k, Milestone { released: true, ..ms[k] });
    let t = total as int;
    let sr = set.released_amount as int;
    let r = released_bps(ms);
    let b = ms[k].release_bps as int;
    lemma_released_bps_bounded(ms);
    lemma_release_one(ms, k);
    lemma_released_bps_bounded(nms);
    assert(t == e.funded_amount);
    assert(t >= 0);
    assert(r + b <= 10_000);
    assert(sr <= t) by (nonlinear_arith)
        requires
            10_000 * sr <= t * r,
            0 <= r <= 10_000,
            t >= 0,
    ;
    if last {
        lemma_only_unreleased(ms, k);
        assert forall|j: int| 0 <= j < nms.len() implies #[trigger] nms[j].released by {}
        lemma_all_released(nms);
        assert(nr == t);
        assert(10_000 * t <= t * 10_000) by (nonlinear_arith);
    } else {
        let m = t * b;
        assert(m >= 0) by (nonlinear_arith)
            requires
                m == t * b,
                t >= 0,
                b >= 0,
        ;
        assert(gross == m / 10_000);
        assert(0 <= 10_000 * (m / 10_000) <= m) by (nonlinear_arith)
            requires
                m >= 0,
        ;
        assert(t * r + t * b == t * (r + b)) by (nonlinear_arith);
        assert(nr <= t) by (nonlinear_arith)
            requires
                10_000 * nr <= t * (r + b),
                r + b <= 10_000,
                t >= 0,
        ;
    }
}

/// The contract state: every escrow ever created (id `n` at position `n - 1`)
/// and the milestone set of each milestone escrow.
pub struct EscrowContract {
    initialized: bool,
    escrows: Vec<Escrow>,
    milestone_sets: Vec<Option<MilestoneSet>>,
}

impl EscrowContract {
    /// The state's internal consistency: one milestone slot per escrow, no
    /// escrow before initialization, the custody bookkeeping of every escrow,
    /// and the milestone bookkeeping of every milestone escrow.
    pub open spec fn wf(self) -> bool {
        &&& self.records().len() == self.milestone_records().len()
        &&& !self.is_initialized() ==> self.records().len() == 0
        &&& forall|i: int| 0 <= i < self.records().len() ==> #[trigger] custody_ok(self.records()[i])
        &&& forall|i: int|
            0 <= i < self.records().len() && #[trigger] self.milestone_records()[i] is Some
                ==> self.records()[i].assets@.len() >= 1 && milestones_ok(
                self.records()[i],
                self.milestone_records()[i]->0,
            )
    }

    /// What a valid ledger keeps of its escrow at position `i`.
    pub proof fn lemma_custody_at(self, i: int)
        requires
            self.wf(),
            0 <= i < self.records().len(),
        ensures
            custody_ok(self.records()[i]),
            self.milestone_records()[i] is Some ==> self.records()[i].assets@.len() >= 1
                && milestones_ok(self.records()[i], self.milestone_records()[i]->0),
    {
    }

    /// Whether `initialize` has run.
    pub closed spec fn is_initialized(self) -> bool {
        self.initialized
    }

    /// Every escrow, in id order.
    pub closed spec fn records(self) -> Seq<Escrow> {
        self.escrows@
    }

    /// The milestone set of each escrow, in id order.
    pub closed spec fn milestone_records(self) -> Seq<Option<MilestoneSet>> {
        self.milestone_sets@
    }

    /// The escrow with id `id`, if it exists.
    pub open spec fn escrow(self, id: u64) -> Option<Escrow> {
        if 1 <= id <= self.records().len() {
            Some(self.records()[id - 1])
        } else {
            None
        }
    }

    /// A freshly deployed, uninitialized contract.
    pub fn new() -> (c: Self)
        ensures
            c.wf(),
            !c.is_initialized(),
            c.records().len() == 0,
            c.milestone_records().len() == 0,
    {
        EscrowContract { initialized: false, escrows: Vec::new(), milestone_sets: Vec::new() }
    }

    /// Start the id counter; refused once initialized.
    pub fn initialize(&mut self) -> (r: Result<(), Error>)
        requires
            old(self).wf(),
        ensures
            final(self).wf(),
            old(self).is_initialized() ==> r == Err::<(), Error>(Error::AlreadyInitialized)
                && *final(self) == *old(self),
            !old(self).is_initialized() ==> r == Ok::<(), Error>(()) && final(self).is_initialized()
                && final(self).records() == old(self).records() && final(self).milestone_records()
                == old(self).milestone_records(),
    {
        if self.initialized {
            return Err(Error::AlreadyInitialized);
        }
        self.initialized = true;
        Ok(())
    }

    fn push_escrow(&mut self, escrow: Escrow, set: Option<MilestoneSet>)
        requires
            old(self).wf(),
            old(self).is_initialized(),
            forall|k: int| 0 <= k < escrow.assets@.len() ==> #[trigger] escrow.assets@[k].amount > 0,
            escrow.funded_amount == 0 || sum_amounts(escrow.assets@) == Ok::<i128, Error>(
                escrow.funded_amount,
            ),
            escrow.released_amount == 0,
            set is Some ==> escrow.assets@.len() >= 1 && milestones_ok(escrow, set->0),
        ensures
            final(self).wf(),
            final(self).records() == old(self).records().push(escrow),
            final(self).milestone_records() == old(self).milestone_records().push(set),
            final(self).is_initialized(),
    {
        proof {
            if escrow.funded_amount != 0 {
                lemma_sum_nonneg(escrow.assets@);
            }
        }
        self.escrows.push(escrow);
        self.milestone_sets.push(set);
        let ghost n = old(self).records().len() as int;
        assert forall|i: int| 0 <= i < self.records().len() implies #[trigger] custody_ok(
            self.records()[i],
        ) by {
            if i < n {
                old(self).lemma_custody_at(i);
            }
        }
        assert forall|i: int|
            0 <= i < self.records().len() && #[trigger] self.milestone_records()[i] is Some
                implies self.records()[i].assets@.len() >= 1 && milestones_ok(
                self.records()[i],
                self.milestone_records()[i]->0,
            ) by {
            if i < n {
                old(self).lemma_custody_at(i);
            }
        }
    }

    /// Create and fund an escrow whose refund window never closes: see
    /// [`Self::create_with_refund_window`].
    pub fn create(
        &mut self,
        now: u64,
        sender: &Address,
        recipient: &Address,
        arbiter: &Address,
        assets: Vec<AssetAmount>,
        deadline: u64,
        grace_period: u64,
        memo: String,
        release_signers: Vec<PublicKey>,
        release_threshold: u32,
    ) -> (r: Result<(u64, Vec<Movement>), Error>)
        requires
            old(self).wf(),
        ensures
            final(self).wf(),
            match create_checks(
                *old(self),
                now,
                *sender,
                *recipient,
                deadline,
                grace_period,
                assets@,
                release_signers@,
                release_threshold,
            ) {
                Err(e) => r == Err::<(u64, Vec<Movement>), Error>(e) && *final(self) == *old(self),
                Ok(_) => match sum_amounts(assets@) {
                    Err(e) => r == Err::<(u64, Vec<Movement>), Error>(e) && *final(self)
                        == *old(self),
                    Ok(total) => r matches Ok((id, moves)) && id == old(self).records().len() + 1
                        && moves@ == deposits(assets@, *sender) && final(self).records().len()
                        == id && final(self).records().drop_last() == old(self).records()
                        && escrow_fields(
                        final(self).records().last(),
                        *sender,
                        *recipient,
                        *arbiter,
                        assets@,
                        EscrowState::Funded,
                        deadline,
                        grace_period,
                        0,
                        total,
                        memo,
                        unscheduled(),
                        release_signers@,
                        release_threshold,
                    ) && final(self).milestone_records() == old(self).milestone_records().push(
                        None,
                    ),
                },
            },
    {
        self.create_with_refund_window(
            now,
            sender,
            recipient,
            arbiter,
            assets,
            deadline,
            grace_period,
            0,
            memo,
            release_signers,
            release_threshold,
        )
    }

    /// Create and fund an escrow: `sender` locks every listed amount until
    /// `deadline`, naming a `recipient` and an `arbiter`. The sender may
    /// reclaim only during `[deadline + grace_period, deadline + grace_period
    /// + refund_window)` (`refund_window == 0`: never closes). Optional
    /// override signers and threshold enable the signature release path.
    /// Returns the new id and the deposits to perform.
    pub fn create_with_refund_window(
        &mut self,
        now: u64,
        sender: &Address,
        recipient: &Address,
        arbiter: &Address,
        assets: Vec<AssetAmount>,
        deadline: u64,
        grace_period: u64,
        refund_window: u64,
        memo: String,
        release_signers: Vec<PublicKey>,
        release_threshold: u32,
    ) -> (r: Result<(u64, Vec<Movement>), Error>)
        requires
            old(self).wf(),
        ensures
            final(self).wf(),
            match create_checks(
                *old(self),
                now,
                *sender,
                *recipient,
                deadline,
                grace_period,
                assets@,
                release_signers@,
                release_threshold,
            ) {
                Err(e) => r == Err::<(u64, Vec<Movement>), Error>(e) && *final(self) == *old(self),
                Ok(_) => match sum_amounts(assets@) {
                    Err(e) => r == Err::<(u64, Vec<Movement>), Error>(e) && *final(self)
                        == *old(self),
                    Ok(total) => r matches Ok((id, moves)) && id == old(self).records().len() + 1
                        && moves@ == deposits(assets@, *sender) && final(self).records().len()
                        == id && final(self).records().drop_last() == old(self).records()
                        && escrow_fields(
                        final(self).records().last(),
                        *sender,
                        *recipient,
                        *arbiter,
                        assets@,
                        EscrowState::Funded,
                        deadline,
                        grace_period,
                        refund_window,
                        total,
                        memo,
                        unscheduled(),
                        release_signers@,
                        release_threshold,
                    ) && final(self).milestone_records() == old(self).milestone_records().push(
                        None,
                    ),
                },
            },
    {
        if *recipient == *sender {
            return Err(Error::InvalidInput);
        }
        if deadline <= now {
            return Err(Error::InvalidInput);
        }
        if deadline.checked_add(grace_period).is_none() {
            return Err(Error::InvalidInput);
        }
        Self::validate_assets(&assets)?;
        proof {
            lemma_checked_assets_positive(assets@);
        }
        Self::validate_override_config(&release_signers, release_threshold)?;
        let id = self.next_id()?;
        let (moves, funded_amount) = Self::pull_assets(&assets, sender)?;
        let escrow = Escrow {
            sender: sender.clone(),
            recipient: recipient.clone(),
            arbiter: arbiter.clone(),
            assets,
            state: EscrowState::Funded,
            deadline,
            grace_period,
            refund_window,
            funded_amount,
            memo,
            schedule: ReleaseSchedule::none(),
            released_amount: 0,
            override_signers: release_signers,
            override_threshold: release_threshold,
            override_nonce: 0,
        };
        self.push_escrow(escrow, None);
        assert(self.records().drop_last() =~= old(self).records());
        Ok((id, moves))
    }

    /// Create a funded escrow that vests entirely at `unlock_time` (a cliff
    /// from now); the arbiter may release and the sender reclaim from then on.
    pub fn create_timelock(
        &mut self,
        now: u64,
        sender: &Address,
        recipient: &Address,
        arbiter: &Address,
        assets: Vec<AssetAmount>,
        unlock_time: u64,
        memo: String,
    ) -> (r: Result<(u64, Vec<Movement>), Error>)
        requires
            old(self).wf(),
        ensures
            final(self).wf(),
            match (if recipient@ == sender@ || unlock_time <= now {
                Err(Error::InvalidInput)
            } else {
                match assets_check(assets@) {
                    Err(e) => Err(e),
                    Ok(_) => match next_id_of(*old(self)) {
                        Err(e) => Err(e),
                        Ok(_) => sum_amounts(assets@),
                    },
                }
            }) {
                Err(e) => r == Err::<(u64, Vec<Movement>), Error>(e) && *final(self) == *old(self),
                Ok(total) => r matches Ok((id, moves)) && id == old(self).records().len() + 1
                    && moves@ == deposits(assets@, *sender) && final(self).records().len() == id
                    && final(self).records().drop_last() == old(self).records() && escrow_fields(
                    final(self).records().last(),
                    *sender,
                    *recipient,
                    *arbiter,
                    assets@,
                    EscrowState::Funded,
                    unlock_time,
                    0,
                    0,
                    total,
                    memo,
                    ReleaseSchedule {
                        release_type: ReleaseType::Cliff,
                        start_time: now,
                        cliff_time: unlock_time,
                        end_time: unlock_time,
                    },
                    Seq::empty(),
                    0,
                ) && final(self).milestone_records() == old(self).milestone_records().push(None),
            },
    {
        if *recipient == *sender {
            return Err(Error::InvalidInput);
        }
        if unlock_time <= now {
            return Err(Error::InvalidInput);
        }
        Self::validate_assets(&assets)?;
        proof {
            lemma_checked_assets_positive(assets@);
        }
        let _id = self.next_id()?;
        let (moves, funded_amount) = Self::pull_assets(&assets, sender)?;
        let id = _id;
        let escrow = Escrow {
            sender: sender.clone(),
            recipient: recipient.clone(),
            arbiter: arbiter.clone(),
            assets,
            state: EscrowState::Funded,
            deadline: unlock_time,
            grace_period: 0,
            refund_window: 0,
            funded_amount,
            memo,
            schedule: ReleaseSchedule {
                release_type: ReleaseType::Cliff,
                start_time: now,
                cliff_time: unlock_time,
                end_time: unlock_time,
            },
            released_amount: 0,
            override_signers: Vec::new(),
            override_threshold: 0,
            override_nonce: 0,
        };
        self.push_escrow(escrow, None);
        assert(self.records().drop_last() =~= old(self).records());
        Ok((id, moves))
    }

    /// Create a funded escrow vesting under `schedule` (cliff or linear).
    /// `deadline == 0` means the schedule's end; a deadline before the end is
    /// refused.
    pub fn create_scheduled(
        &mut self,
        now: u64,
        sender: &Address,
        recipient: &Address,
        arbiter: &Address,
        assets: Vec<AssetAmount>,
        schedule: ReleaseSchedule,
        deadline: u64,
        memo: String,
    ) -> (r: Result<(u64, Vec<Movement>), Error>)
        requires
            old(self).wf(),
        ensures
            final(self).wf(),
            match scheduled_checks(*old(self), now, *sender, *recipient, assets@, schedule, deadline) {
                Err(e) => r == Err::<(u64, Vec<Movement>), Error>(e) && *final(self) == *old(self),
                Ok(effective) => match sum_amounts(assets@) {
                    Err(e) => r == Err::<(u64, Vec<Movement>), Error>(e) && *final(self)
                        == *old(self),
                    Ok(total) => r matches Ok((id, moves)) && id == old(self).records().len() + 1
                        && moves@ == deposits(assets@, *sender) && final(self).records().len()
                        == id && final(self).records().drop_last() == old(self).records()
                        && escrow_fields(
                        final(self).records().last(),
                        *sender,
                        *recipient,
                        *arbiter,
                        assets@,
                        EscrowState::Funded,
                        effective,
                        0,
                        0,
                        total,
                        memo,
                        schedule,
                        Seq::empty(),
                        0,
                    ) && final(self).milestone_records() == old(self).milestone_records().push(
                        None,
                    ),
                },
            },
    {
        if *recipient == *sender {
            return Err(Error::InvalidInput);
        }
        Self::validate_assets(&assets)?;
        proof {
            lemma_checked_assets_positive(assets@);
        }
        if schedule.start_time > schedule.cliff_time || schedule.cliff_time > schedule.end_time
            || schedule.end_time <= schedule.start_time {
            return Err(Error::InvalidInput);
        }
        if schedule.end_time <= now {
            return Err(Error::InvalidInput);
        }
        let effective_deadline = if deadline == 0 {
            schedule.end_time
        } else {
            deadline
        };
        if effective_deadline < schedule.end_time {
            return Err(Error::InvalidInput);
        }
        let id = self.next_id()?;
        let (moves, funded_amount) = Self::pull_assets(&assets, sender)?;
        let escrow = Escrow {
            sender: sender.clone(),
            recipient: recipient.clone(),
            arbiter: arbiter.clone(),
            assets,
            state: EscrowState::Funded,
            deadline: effective_deadline,
            grace_period: 0,
            refund_window: 0,
            funded_amount,
            memo,
            schedule,
            released_amount: 0,
            override_signers: Vec::new(),
            override_threshold: 0,
            override_nonce: 0,
        };
        self.push_escrow(escrow, None);
        assert(self.records().drop_last() =~= old(self).records());
        Ok((id, moves))
    }

    /// Record an unfunded time-locked escrow (state `Created`, cliff at
    /// `unlock_time`); `fund` pulls the assets later.
    pub fn initialize_timelock(
        &mut self,
        now: u64,
        sender: &Address,
        recipient: &Address,
        arbiter: &Address,
        assets: Vec<AssetAmount>,
        unlock_time: u64,
        grace_period: u64,
        memo: String,
    ) -> (r: Result<u64, Error>)
        requires
            old(self).wf(),
        ensures
            final(self).wf(),
            match (if recipient@ == sender@ || unlock_time <= now || unlock_time + grace_period
                > u64::MAX {
                Err(Error::InvalidInput)
            } else {
                match assets_check(assets@) {
                    Err(e) => Err(e),
                    Ok(_) => next_id_of(*old(self)),
                }
            }) {
                Err(e) => r == Err::<u64, Error>(e) && *final(self) == *old(self),
                Ok(id) => r == Ok::<u64, Error>(id) && final(self).records().len() == id
                    && final(self).records().drop_last() == old(self).records() && escrow_fields(
                    final(self).records().last(),
                    *sender,
                    *recipient,
                    *arbiter,
                    assets@,
                    EscrowState::Created,
                    unlock_time,
                    grace_period,
                    0,
                    0,
                    memo,
                    ReleaseSchedule {
                        release_type: ReleaseType::Cliff,
                        start_time: now,
                        cliff_time: unlock_time,
                        end_time: unlock_time,
                    },
                    Seq::empty(),
                    0,
                ) && final(self).milestone_records() == old(self).milestone_records().push(None),
            },
    {
        if *recipient == *sender {
            return Err(Error::InvalidInput);
        }
        if unlock_time <= now {
            return Err(Error::InvalidInput);
        }
        if unlock_time.checked_add(grace_period).is_none() {
            return Err(Error::InvalidInput);
        }
        Self::validate_assets(&assets)?;
        proof {
            lemma_checked_assets_positive(assets@);
        }
        let id = self.next_id()?;
        let escrow = Escrow {
            sender: sender.clone(),
            recipient: recipient.clone(),
            arbiter: arbiter.clone(),
            assets,
            state: EscrowState::Created,
            deadline: unlock_time,
            grace_period,
            refund_window: 0,
            funded_amount: 0,
            memo,
            schedule: ReleaseSchedule {
                release_type: ReleaseType::Cliff,
                start_time: now,
                cliff_time: unlock_time,
                end_time: unlock_time,
            },
            released_amount: 0,
            override_signers: Vec::new(),
            override_threshold: 0,
            override_nonce: 0,
        };
        self.push_escrow(escrow, None);
        assert(self.records().drop_last() =~= old(self).records());
        Ok(id)
    }

    /// Fund a milestone escrow with a single asset and an ordered list of
    /// basis-point weighted milestones summing to exactly 10_000. The arbiter
    /// then approves each milestone; plain `release` is blocked.
    pub fn deposit_with_milestones(
        &mut self,
        now: u64,
        sender: &Address,
        recipient: &Address,
        arbiter: &Address,
        asset: &Address,
        amount: i128,
        deadline: u64,
        memo: String,
        milestones: Vec<MilestoneSpec>,
    ) -> (r: Result<(u64, Vec<Movement>), Error>)
        requires
            old(self).wf(),
        ensures
            final(self).wf(),
            match (if amount <= 0 {
                Err(Error::InvalidAmount)
            } else if recipient@ == sender@ || deadline <= now || milestones@.len() == 0 {
                Err(Error::InvalidInput)
            } else {
                match bps_total(milestones@) {
                    None => Err(Error::Overflow),
                    Some(t) => if t != 10_000 {
                        Err(Error::InvalidInput)
                    } else {
                        next_id_of(*old(self))
                    },
                }
            }) {
                Err(e) => r == Err::<(u64, Vec<Movement>), Error>(e) && *final(self) == *old(self),
                Ok(id) => r matches Ok((rid, moves)) && rid == id && moves@ == seq![
                    Movement::Deposit { asset: *asset, from: *sender, amount },
                ] && final(self).records().len() == id && final(self).records().drop_last()
                    == old(self).records() && escrow_fields(
                    final(self).records().last(),
                    *sender,
                    *recipient,
                    *arbiter,
                    seq![AssetAmount { asset: *asset, amount }],
                    EscrowState::Funded,
                    deadline,
                    0,
                    0,
                    amount,
                    memo,
                    unscheduled(),
                    Seq::empty(),
                    0,
                ) && final(self).milestone_records().drop_last() == old(self).milestone_records()
                    && final(self).milestone_records().last() is Some && fresh_milestones(
                    final(self).milestone_records().last()->0,
                    milestones@,
                ),
            },
    {
        require_positive_amount(amount)?;
        if *recipient == *sender {
            return Err(Error::InvalidInput);
        }
        if deadline <= now {
            return Err(Error::InvalidInput);
        }
        if milestones.len() == 0 {
            return Err(Error::InvalidInput);
        }
        let mut total_bps: u32 = 0;
        let mut i: usize = 0;
        while i < milestones.len()
            invariant
                i <= milestones@.len(),
                bps_total(milestones@.subrange(0, i as int)) == Some(total_bps),
                *self == *old(self),
                old(self).wf(),
                amount > 0,
                recipient@ != sender@,
                deadline > now,
                milestones@.len() > 0,
            decreases milestones@.len() - i,
        {
            let ghost next = milestones@.subrange(0, i + 1);
            assert(next.drop_last() =~= milestones@.subrange(0, i as int));
            match total_bps.checked_add(milestones[i].release_bps) {
                Some(t) => {
                    total_bps = t;
                },
                None => {
                    proof {
                        lemma_bps_prefix_overflow(milestones@, i as int + 1);
                    }
                    return Err(Error::Overflow);
                },
            }
            i = i + 1;
        }
        assert(milestones@.subrange(0, milestones@.len() as int) =~= milestones@);
        if total_bps != 10_000 {
            return Err(Error::InvalidInput);
        }
        let id = self.next_id()?;
        let mut moves: Vec<Movement> = Vec::new();
        moves.push(Movement::Deposit { asset: asset.clone(), from: sender.clone(), amount });
        let mut items: Vec<Milestone> = Vec::new();
        let mut k: usize = 0;
        while k < milestones.len()
            invariant
                k <= milestones@.len(),
                items@.len() == k,
                forall|j: int|
                    0 <= j < k ==> #[trigger] items@[j] == (Milestone {
                        index: j as u32,
                        description: milestones@[j].description,
                        release_bps: milestones@[j].release_bps,
                        released: false,
                    }),
            decreases milestones@.len() - k,
        {
            items.push(
                Milestone {
                    index: k as u32,
                    description: milestones[k].description.clone(),
                    release_bps: milestones[k].release_bps,
                    released: false,
                },
            );
            k = k + 1;
        }
        let set = MilestoneSet { milestones: items, released_amount: 0 };
        let mut assets: Vec<AssetAmount> = Vec::new();
        assets.push(AssetAmount { asset: asset.clone(), amount });
        let escrow = Escrow {
            sender: sender.clone(),
            recipient: recipient.clone(),
            arbiter: arbiter.clone(),
            assets,
            state: EscrowState::Funded,
            deadline,
            grace_period: 0,
            refund_window: 0,
            funded_amount: amount,
            memo,
            schedule: ReleaseSchedule::none(),
            released_amount: 0,
            override_signers: Vec::new(),
            override_threshold: 0,
            override_nonce: 0,
        };
        proof {
            let e = escrow;
            assert(e.assets@ =~= seq![AssetAmount { asset: *asset, amount }]);
            assert(e.assets@.drop_last() =~= Seq::<AssetAmount>::empty());
            assert(e.assets@.last() == e.assets@[0]);
            assert(sum_amounts(e.assets@.drop_last()) == Ok::<i128, Error>(0));
            assert(sum_amounts(e.assets@) == Ok::<i128, Error>(amount));
            assert(bps_total(milestones@) == Some(10_000u32));
            lemma_fresh_weights(set.milestones@, milestones@);
        }
        self.push_escrow(escrow, Some(set));
        assert(self.records().drop_last() =~= old(self).records());
        assert(self.milestone_records().drop_last() =~= old(self).milestone_records());
        assert(moves@ =~= seq![Movement::Deposit { asset: *asset, from: *sender, amount }]);
        Ok((id, moves))
    }

    fn slot(&self, id: u64) -> (r: Result<usize, Error>)
        ensures
            match self.escrow(id) {
                Some(_) => r matches Ok(i) && i == id - 1 && i < self.records().len(),
                None => r == Err::<usize, Error>(Error::NotFound),
            },
    {
        let n = self.escrows.len();
        if id == 0 || id as u128 > n as u128 {
            return Err(Error::NotFound);
        }
        Ok((id - 1) as usize)
    }

    /// Overwrite the scalar bookkeeping of escrow slot `i`.
    fn update_scalars(&mut self, i: usize, state: EscrowState, funded: i128, released: i128, nonce: u64)
        requires
            old(self).wf(),
            i < old(self).records().len(),
            funded == 0 || sum_amounts(old(self).records()[i as int].assets@) == Ok::<i128, Error>(
                funded,
            ),
            0 <= released <= funded,
            old(self).milestone_records()[i as int] is Some ==> funded == old(self).records()[
                i as int].funded_amount,
        ensures
            final(self).wf(),
            final(self).records() == old(self).records().update(
                i as int,
                Escrow {
                    state,
                    funded_amount: funded,
                    released_amount: released,
                    override_nonce: nonce,
                    ..old(self).records()[i as int]
                },
            ),
            final(self).milestone_records() == old(self).milestone_records(),
            final(self).is_initialized() == old(self).is_initialized(),
    {
        self.escrows[i].state = state;
        self.escrows[i].funded_amount = funded;
        self.escrows[i].released_amount = released;
        self.escrows[i].override_nonce = nonce;
        assert(self.escrows@ =~= old(self).escrows@.update(
            i as int,
            Escrow {
                state,
                funded_amount: funded,
                released_amount: released,
                override_nonce: nonce,
                ..old(self).escrows@[i as int]
            },
        ));
        assert forall|j: int| 0 <= j < self.records().len() implies #[trigger] custody_ok(
            self.records()[j],
        ) by {
            old(self).lemma_custody_at(i as int);
            old(self).lemma_custody_at(j);
        }
        assert forall|j: int|
            0 <= j < self.records().len() && #[trigger] self.milestone_records()[j] is Some
                implies self.records()[j].assets@.len() >= 1 && milestones_ok(
                self.records()[j],
                self.milestone_records()[j]->0,
            ) by {
            old(self).lemma_custody_at(j);
        }
    }

    /// Payouts of each asset's share `amount * num / den` to `to`.
    fn pay_shares(assets: &Vec<AssetAmount>, num: i128, den: i128, to: &Address) -> (r: Result<
        Vec<Movement>,
        Error,
    >)
        ensures
            match payouts(assets@, num, den, *to) {
                Ok(ms) => r matches Ok(m) && m@ == ms,
                Err(e) => r == Err::<Vec<Movement>, Error>(e),
            },
    {
        let mut moves: Vec<Movement> = Vec::new();
        let mut i: usize = 0;
        while i < assets.len()
            invariant
                i <= assets@.len(),
                payouts(assets@.subrange(0, i as int), num, den, *to) == Ok::<Seq<Movement>, Error>(
                    moves@,
                ),
            decreases assets@.len() - i,
        {
            let ghost next = assets@.subrange(0, i + 1);
            assert(next.drop_last() =~= assets@.subrange(0, i as int));
            assert(next.last() == assets@[i as int]);
            let m = match checked_mul(assets[i].amount, num) {
                Ok(m) => m,
                Err(e) => {
                    proof {
                        lemma_payouts_prefix_error(assets@, num, den, *to, i as int + 1);
                    }
                    return Err(e);
                },
            };
            let amount = match checked_div(m, den) {
                Ok(a) => a,
                Err(e) => {
                    proof {
                        lemma_payouts_prefix_error(assets@, num, den, *to, i as int + 1);
                    }
                    return Err(e);
                },
            };
            if amount > 0 {
                moves.push(Movement::Payout { asset: assets[i].asset.clone(), to: to.clone(), amount });
            }
            i = i + 1;
        }
        assert(assets@.subrange(0, assets@.len() as int) =~= assets@);
        Ok(moves)
    }

    /// The movements returning this escrow's un-released remainder to `to`.
    fn disburse_remainder(escrow: &Escrow, to: &Address) -> (r: Result<Vec<Movement>, Error>)
        ensures
            match remainder_payouts(*escrow, *to) {
                Ok(ms) => r matches Ok(m) && m@ == ms,
                Err(e) => r == Err::<Vec<Movement>, Error>(e),
            },
    {
        let remaining = checked_sub(escrow.funded_amount, escrow.released_amount)?;
        if remaining <= 0 {
            return Ok(Vec::new());
        }
        Self::pay_shares(&escrow.assets, remaining, escrow.funded_amount, to)
    }

    /// Fund a `Created` escrow: the sender deposits every listed amount.
    pub fn fund(&mut self, sender: &Address, id: u64) -> (r: Result<Vec<Movement>, Error>)
        requires
            old(self).wf(),
        ensures
            final(self).wf(),
            match old(self).escrow(id) {
                None => r == Err::<Vec<Movement>, Error>(Error::NotFound) && *final(self) == *old(self),
                Some(e) => if e.sender@ != sender@ {
                    r == Err::<Vec<Movement>, Error>(Error::Unauthorized) && *final(self) == *old(self)
                } else if e.state != EscrowState::Created {
                    r == Err::<Vec<Movement>, Error>(Error::InvalidState) && *final(self) == *old(self)
                } else {
                    match sum_amounts(e.assets@) {
                        Err(err) => r == Err::<Vec<Movement>, Error>(err) && *final(self)
                            == *old(self),
                        Ok(total) => r matches Ok(m) && m@ == deposits(e.assets@, *sender) && applied(
                            *old(self),
                            *final(self),
                            id,
                            Escrow { funded_amount: total, state: EscrowState::Funded, ..e },
                        ),
                    }
                },
            },
    {
        let i = self.slot(id)?;
        if !(self.escrows[i].sender == *sender) {
            return Err(Error::Unauthorized);
        }
        if self.escrows[i].state != EscrowState::Created {
            return Err(Error::InvalidState);
        }
        let (moves, total) = Self::pull_assets(&self.escrows[i].assets, sender)?;
        let released = self.escrows[i].released_amount;
        let nonce = self.escrows[i].override_nonce;
        proof {
            self.lemma_custody_at(i as int);
            lemma_sum_nonneg(self.records()[i as int].assets@);
        }
        self.update_scalars(i, EscrowState::Funded, total, released, nonce);
        Ok(moves)
    }

    /// The recipient withdraws `amount` of what has vested (pro-rated across
    /// assets). Returns the new cumulative released amount.
    pub fn withdraw(&mut self, now: u64, caller: &Address, id: u64, amount: i128) -> (r: Result<
        (i128, Vec<Movement>),
        Error,
    >)
        requires
            old(self).wf(),
        ensures
            final(self).wf(),
            if amount <= 0 {
                r == Err::<(i128, Vec<Movement>), Error>(Error::InvalidAmount) && *final(self)
                    == *old(self)
            } else {
                match old(self).escrow(id) {
                    None => r == Err::<(i128, Vec<Movement>), Error>(Error::NotFound) && *final(self)
                        == *old(self),
                    Some(e) => match withdrawal(e, *caller, amount, now) {
                        Err(err) => r == Err::<(i128, Vec<Movement>), Error>(err) && *final(self)
                            == *old(self),
                        Ok((ne, ms, v)) => r matches Ok((rv, m)) && rv == v && m@ == ms && applied(
                            *old(self),
                            *final(self),
                            id,
                            ne,
                        ),
                    },
                }
            },
    {
        require_positive_amount(amount)?;
        let i = self.slot(id)?;
        if !(self.escrows[i].recipient == *caller) {
            return Err(Error::Unauthorized);
        }
        if self.escrows[i].state != EscrowState::Funded {
            return Err(Error::InvalidState);
        }
        let claimable = calculate_claimable_amount(&self.escrows[i], now)?;
        if claimable <= 0 {
            return Err(Error::TimeLockActive);
        }
        if amount > claimable {
            return Err(Error::InsufficientFunds);
        }
        let released = checked_add(self.escrows[i].released_amount, amount)?;
        let moves = Self::pay_shares(
            &self.escrows[i].assets,
            amount,
            self.escrows[i].funded_amount,
            &self.escrows[i].recipient,
        )?;
        let funded = self.escrows[i].funded_amount;
        let nonce = self.escrows[i].override_nonce;
        let state = if released == funded {
            EscrowState::Released
        } else {
            EscrowState::Funded
        };
        proof {
            self.lemma_custody_at(i as int);
            crate::escrow_laws::lemma_claimable_bounded(self.records()[i as int], now);
        }
        self.update_scalars(i, state, funded, released, nonce);
        Ok((released, moves))
    }

    /// The recipient claims everything currently available: the vested,
    /// unreleased part of a scheduled escrow, or (unscheduled) the whole
    /// remainder once the grace has passed. Returns the amount claimed.
    pub fn claim(&mut self, now: u64, caller: &Address, id: u64) -> (r: Result<(i128, Vec<Movement>), Error>)
        requires
            old(self).wf(),
        ensures
            final(self).wf(),
            match old(self).escrow(id) {
                None => r == Err::<(i128, Vec<Movement>), Error>(Error::NotFound) && *final(self)
                    == *old(self),
                Some(e) => match claiming(e, *caller, now) {
                    Err(err) => r == Err::<(i128, Vec<Movement>), Error>(err) && *final(self)
                        == *old(self),
                    Ok((ne, ms, v)) => r matches Ok((rv, m)) && rv == v && m@ == ms && applied(
                        *old(self),
                        *final(self),
                        id,
                        ne,
                    ),
                },
            },
    {
        let i = self.slot(id)?;
        if !(self.escrows[i].recipient == *caller) {
            return Err(Error::Unauthorized);
        }
        if self.escrows[i].state == EscrowState::Funded {
            let sched = self.escrows[i].schedule.release_type;
            let claimable = if sched == ReleaseType::Cliff || sched == ReleaseType::Linear {
                calculate_claimable_amount(&self.escrows[i], now)?
            } else {
                if now < Self::grace_end(&self.escrows[i]) {
                    return Err(Error::TimeLockActive);
                }
                checked_sub(self.escrows[i].funded_amount, self.escrows[i].released_amount)?
            };
            if claimable <= 0 {
                return Err(Error::TimeLockActive);
            }
            let released = checked_add(self.escrows[i].released_amount, claimable)?;
            let moves = Self::pay_shares(
                &self.escrows[i].assets,
                claimable,
                self.escrows[i].funded_amount,
                &self.escrows[i].recipient,
            )?;
            let funded = self.escrows[i].funded_amount;
            let nonce = self.escrows[i].override_nonce;
            let state = if released == funded {
                EscrowState::Released
            } else {
                EscrowState::Funded
            };
            proof {
                self.lemma_custody_at(i as int);
                crate::escrow_laws::lemma_claimable_bounded(self.records()[i as int], now);
            }
            self.update_scalars(i, state, funded, released, nonce);
            Ok((claimable, moves))
        } else if self.escrows[i].state == EscrowState::Created {
            if now < Self::grace_end(&self.escrows[i]) {
                return Err(Error::TimeLockActive);
            }
            if self.escrows[i].funded_amount <= 0 {
                return Err(Error::InvalidState);
            }
            let moves = Self::disburse_remainder(&self.escrows[i], &self.escrows[i].recipient)?;
            let funded = self.escrows[i].funded_amount;
            let nonce = self.escrows[i].override_nonce;
            proof {
                self.lemma_custody_at(i as int);
            }
            self.update_scalars(i, EscrowState::Released, funded, funded, nonce);
            Ok((funded, moves))
        } else {
            Err(Error::InvalidState)
        }
    }

    /// The arbiter releases the whole remainder to the recipient, before the
    /// reclaim boundary; `release_amount` may not exceed what is still held,
    /// nor, on a vesting escrow, what has vested. Blocked on milestone
    /// escrows.
    pub fn release(&mut self, now: u64, arbiter: &Address, id: u64, release_amount: i128) -> (r: Result<
        Vec<Movement>,
        Error,
    >)
        requires
            old(self).wf(),
        ensures
            final(self).wf(),
            match old(self).escrow(id) {
                None => r == Err::<Vec<Movement>, Error>(Error::NotFound) && *final(self) == *old(self),
                Some(e) => match releasing(
                    e,
                    *arbiter,
                    old(self).milestone_records()[id - 1] is Some,
                    release_amount,
                    now,
                ) {
                    Err(err) => r == Err::<Vec<Movement>, Error>(err) && *final(self) == *old(self),
                    Ok((ne, ms)) => r matches Ok(m) && m@ == ms && applied(*old(self), *final(self), id, ne),
                },
            },
    {
        let i = self.slot(id)?;
        if !(self.escrows[i].arbiter == *arbiter) {
            return Err(Error::Unauthorized);
        }
        if self.escrows[i].state != EscrowState::Funded {
            return Err(Error::InvalidState);
        }
        if self.milestone_sets[i].is_some() {
            return Err(Error::InvalidState);
        }
        if now >= Self::grace_end(&self.escrows[i]) {
            return Err(Error::EscrowExpired);
        }
        let remaining = checked_sub(self.escrows[i].funded_amount, self.escrows[i].released_amount)?;
        if release_amount > remaining {
            return Err(Error::InvalidAmount);
        }
        let rt = self.escrows[i].schedule.release_type;
        if rt == ReleaseType::Cliff || rt == ReleaseType::Linear {
            let v = calculate_vested_amount(
                self.escrows[i].funded_amount,
                &self.escrows[i].schedule,
                now,
            )?;
            if release_amount > v {
                return Err(Error::TimeLockActive);
            }
        }
        let moves = Self::disburse_remainder(&self.escrows[i], &self.escrows[i].recipient)?;
        let funded = self.escrows[i].funded_amount;
        let nonce = self.escrows[i].override_nonce;
        proof {
            self.lemma_custody_at(i as int);
        }
        self.update_scalars(i, EscrowState::Released, funded, funded, nonce);
        Ok(moves)
    }

    /// Mark a funded escrow `Expired` once the reclaim boundary is reached
    /// (permissionless). Funds stay in custody.
    pub fn expire(&mut self, now: u64, id: u64) -> (r: Result<(), Error>)
        requires
            old(self).wf(),
        ensures
            final(self).wf(),
            match old(self).escrow(id) {
                None => r == Err::<(), Error>(Error::NotFound) && *final(self) == *old(self),
                Some(e) => if e.state != EscrowState::Funded || now < grace_end_of(e) {
                    r == Err::<(), Error>(Error::InvalidState) && *final(self) == *old(self)
                } else {
                    r == Ok::<(), Error>(()) && applied(
                        *old(self),
                        *final(self),
                        id,
                        Escrow { state: EscrowState::Expired, ..e },
                    )
                },
            },
    {
        let i = self.slot(id)?;
        if self.escrows[i].state != EscrowState::Funded {
            return Err(Error::InvalidState);
        }
        if now < Self::grace_end(&self.escrows[i]) {
            return Err(Error::InvalidState);
        }
        let funded = self.escrows[i].funded_amount;
        let released = self.escrows[i].released_amount;
        let nonce = self.escrows[i].override_nonce;
        proof {
            self.lemma_custody_at(i as int);
        }
        self.update_scalars(i, EscrowState::Expired, funded, released, nonce);
        Ok(())
    }

    fn reclaim_path(&mut self, now: u64, caller: &Address, id: u64, check_deadline: bool, early: Error) -> (r: Result<
        Vec<Movement>,
        Error,
    >)
        requires
            old(self).wf(),
        ensures
            final(self).wf(),
            match old(self).escrow(id) {
                None => r == Err::<Vec<Movement>, Error>(Error::NotFound) && *final(self) == *old(self),
                Some(e) => match reclaiming(e, *caller, now, check_deadline, early) {
                    Err(err) => r == Err::<Vec<Movement>, Error>(err) && *final(self) == *old(self),
                    Ok((ne, ms)) => r matches Ok(m) && m@ == ms && applied(*old(self), *final(self), id, ne),
                },
            },
    {
        let i = self.slot(id)?;
        if !(self.escrows[i].sender == *caller) {
            return Err(Error::Unauthorized);
        }
        let st = self.escrows[i].state;
        if !(st == EscrowState::Created || st == EscrowState::Funded || st == EscrowState::Expired) {
            return Err(Error::InvalidState);
        }
        if check_deadline && now < self.escrows[i].deadline {
            return Err(Error::TimeLockActive);
        }
        if now < Self::grace_end(&self.escrows[i]) {
            return Err(early);
        }
        Self::require_refund_window_open(&self.escrows[i], now)?;
        let moves = Self::disburse_remainder(&self.escrows[i], &self.escrows[i].sender)?;
        let funded = self.escrows[i].funded_amount;
        let released = self.escrows[i].released_amount;
        let nonce = self.escrows[i].override_nonce;
        proof {
            self.lemma_custody_at(i as int);
        }
        self.update_scalars(i, EscrowState::Refunded, funded, released, nonce);
        Ok(moves)
    }

    /// The sender recovers the remainder once the deadline and then the grace
    /// have passed (`TimeLockActive` before the deadline, `GraceActive` during
    /// the grace, `EscrowExpired` after a bounded refund window closed).
    pub fn refund(&mut self, now: u64, caller: &Address, id: u64) -> (r: Result<Vec<Movement>, Error>)
        requires
            old(self).wf(),
        ensures
            final(self).wf(),
            match old(self).escrow(id) {
                None => r == Err::<Vec<Movement>, Error>(Error::NotFound) && *final(self) == *old(self),
                Some(e) => match reclaiming(e, *caller, now, true, Error::GraceActive) {
                    Err(err) => r == Err::<Vec<Movement>, Error>(err) && *final(self) == *old(self),
                    Ok((ne, ms)) => r matches Ok(m) && m@ == ms && applied(*old(self), *final(self), id, ne),
                },
            },
    {
        self.reclaim_path(now, caller, id, true, Error::GraceActive)
    }

    /// The sender recovers a time-locked escrow's remainder after
    /// `deadline + grace_period` (`TimeLockActive` before).
    pub fn refund_timelock(&mut self, now: u64, caller: &Address, id: u64) -> (r: Result<Vec<Movement>, Error>)
        requires
            old(self).wf(),
        ensures
            final(self).wf(),
            match old(self).escrow(id) {
                None => r == Err::<Vec<Movement>, Error>(Error::NotFound) && *final(self) == *old(self),
                Some(e) => match reclaiming(e, *caller, now, false, Error::TimeLockActive) {
                    Err(err) => r == Err::<Vec<Movement>, Error>(err) && *final(self) == *old(self),
                    Ok((ne, ms)) => r matches Ok(m) && m@ == ms && applied(*old(self), *final(self), id, ne),
                },
            },
    {
        self.reclaim_path(now, caller, id, false, Error::TimeLockActive)
    }

    /// The sender reclaims the remainder after the grace fully elapsed
    /// without fulfillment (`TimeLockActive` before the deadline,
    /// `GraceActive` during the grace).
    pub fn reclaim(&mut self, now: u64, caller: &Address, id: u64) -> (r: Result<Vec<Movement>, Error>)
        requires
            old(self).wf(),
        ensures
            final(self).wf(),
            match old(self).escrow(id) {
                None => r == Err::<Vec<Movement>, Error>(Error::NotFound) && *final(self) == *old(self),
                Some(e) => match reclaiming(e, *caller, now, true, Error::GraceActive) {
                    Err(err) => r == Err::<Vec<Movement>, Error>(err) && *final(self) == *old(self),
                    Ok((ne, ms)) => r matches Ok(m) && m@ == ms && applied(*old(self), *final(self), id, ne),
                },
            },
    {
        self.reclaim_path(now, caller, id, true, Error::GraceActive)
    }

    /// Sender or arbiter cancels before the deadline, returning the
    /// remainder to the sender.
    pub fn cancel(&mut self, now: u64, caller: &Address, id: u64) -> (r: Result<Vec<Movement>, Error>)
        requires
            old(self).wf(),
        ensures
            final(self).wf(),
            match old(self).escrow(id) {
                None => r == Err::<Vec<Movement>, Error>(Error::NotFound) && *final(self) == *old(self),
                Some(e) => match cancelling(e, *caller, now) {
                    Err(err) => r == Err::<Vec<Movement>, Error>(err) && *final(self) == *old(self),
                    Ok((ne, ms)) => r matches Ok(m) && m@ == ms && applied(*old(self), *final(self), id, ne),
                },
            },
    {
        let i = self.slot(id)?;
        if !(self.escrows[i].sender == *caller) && !(self.escrows[i].arbiter == *caller) {
            return Err(Error::Unauthorized);
        }
        let st = self.escrows[i].state;
        if !(st == EscrowState::Funded || st == EscrowState::Created) {
            return Err(Error::InvalidState);
        }
        if now >= self.escrows[i].deadline {
            return Err(Error::InvalidState);
        }
        let moves = Self::disburse_remainder(&self.escrows[i], &self.escrows[i].sender)?;
        let funded = self.escrows[i].funded_amount;
        let released = self.escrows[i].released_amount;
        let nonce = self.escrows[i].override_nonce;
        proof {
            self.lemma_custody_at(i as int);
        }
        self.update_scalars(i, EscrowState::Refunded, funded, released, nonce);
        Ok(moves)
    }

    /// Close a settled (`Released` / `Refunded`) escrow; any party may.
    pub fn close(&mut self, caller: &Address, id: u64) -> (r: Result<(), Error>)
        requires
            old(self).wf(),
        ensures
            final(self).wf(),
            match old(self).escrow(id) {
                None => r == Err::<(), Error>(Error::NotFound) && *final(self) == *old(self),
                Some(e) => if !(e.state == EscrowState::Released || e.state == EscrowState::Refunded) {
                    r == Err::<(), Error>(Error::InvalidState) && *final(self) == *old(self)
                } else if caller@ != e.sender@ && caller@ != e.recipient@ && caller@ != e.arbiter@ {
                    r == Err::<(), Error>(Error::Unauthorized) && *final(self) == *old(self)
                } else {
                    r == Ok::<(), Error>(()) && applied(
                        *old(self),
                        *final(self),
                        id,
                        Escrow { state: EscrowState::Closed, ..e },
                    )
                },
            },
    {
        let i = self.slot(id)?;
        let st = self.escrows[i].state;
        if !(st == EscrowState::Released || st == EscrowState::Refunded) {
            return Err(Error::InvalidState);
        }
        if !(*caller == self.escrows[i].sender) && !(*caller == self.escrows[i].recipient) && !(
        *caller == self.escrows[i].arbiter) {
            return Err(Error::Unauthorized);
        }
        let funded = self.escrows[i].funded_amount;
        let released = self.escrows[i].released_amount;
        let nonce = self.escrows[i].override_nonce;
        proof {
            self.lemma_custody_at(i as int);
        }
        self.update_scalars(i, EscrowState::Closed, funded, released, nonce);
        Ok(())
    }

    /// Release to the recipient through the signature override: `keys` are
    /// the public keys behind the presented signatures, each of which the
    /// caller has verified against this escrow's override payload. They must
    /// be distinct configured signers, at least `override_threshold` of them,
    /// and `nonce` must exceed the last one used, before the deadline.
    pub fn override_release(&mut self, now: u64, id: u64, nonce: u64, keys: &Vec<PublicKey>) -> (r: Result<
        Vec<Movement>,
        Error,
    >)
        requires
            old(self).wf(),
        ensures
            final(self).wf(),
            match old(self).escrow(id) {
                None => r == Err::<Vec<Movement>, Error>(Error::NotFound) && *final(self) == *old(self),
                Some(e) => match overriding(e, nonce, keys@, now) {
                    Err(err) => r == Err::<Vec<Movement>, Error>(err) && *final(self) == *old(self),
                    Ok((ne, ms)) => r matches Ok(m) && m@ == ms && applied(*old(self), *final(self), id, ne),
                },
            },
    {
        let i = self.slot(id)?;
        if self.escrows[i].override_signers.len() == 0 || self.escrows[i].override_threshold == 0 {
            return Err(Error::Unauthorized);
        }
        if self.escrows[i].state != EscrowState::Funded {
            return Err(Error::InvalidState);
        }
        if now >= self.escrows[i].deadline {
            return Err(Error::EscrowExpired);
        }
        if nonce <= self.escrows[i].override_nonce {
            return Err(Error::InvalidNonce);
        }
        if (keys.len() as u64) < (self.escrows[i].override_threshold as u64) {
            return Err(Error::ThresholdNotMet);
        }
        let ghost e = self.escrows@[i as int];
        let mut seen: Vec<PublicKey> = Vec::new();
        let mut k: usize = 0;
        while k < keys.len()
            invariant
                k <= keys@.len(),
                seen@ == keys@.subrange(0, k as int),
                key_scan(e.override_signers@, keys@, 0) == key_scan(e.override_signers@, keys@, k as int),
                *self == *old(self),
                old(self).wf(),
                i == id - 1,
                i < self.escrows@.len(),
                old(self).escrow(id) == Some(e),
                e.override_signers@.len() > 0,
                e.override_threshold > 0,
                e.state == EscrowState::Funded,
                now < e.deadline,
                nonce > e.override_nonce,
                keys@.len() >= e.override_threshold,
            decreases keys@.len() - k,
        {
            if !lists_key(&self.escrows[i].override_signers, &keys[k]) {
                return Err(Error::NotASigner);
            }
            if lists_key(&seen, &keys[k]) {
                return Err(Error::AlreadySigned);
            }
            seen.push(keys[k].clone());
            k = k + 1;
            assert(seen@ =~= keys@.subrange(0, k as int));
        }
        if (seen.len() as u64) < (self.escrows[i].override_threshold as u64) {
            return Err(Error::ThresholdNotMet);
        }
        let moves = Self::disburse_remainder(&self.escrows[i], &self.escrows[i].recipient)?;
        let funded = self.escrows[i].funded_amount;
        proof {
            self.lemma_custody_at(i as int);
        }
        self.update_scalars(i, EscrowState::Released, funded, funded, nonce);
        Ok(moves)
    }

    fn find_milestone(ms: &Vec<Milestone>, index: u32) -> (r: Option<usize>)
        ensures
            match r {
                Some(k) => k < ms@.len() && last_match(ms@, index) == Some(k as int),
                None => last_match(ms@, index) is None,
            },
    {
        let mut found: Option<usize> = None;
        let mut j: usize = 0;
        while j < ms.len()
            invariant
                j <= ms@.len(),
                match found {
                    Some(f) => f < j && last_match(ms@.subrange(0, j as int), index) == Some(f as int),
                    None => last_match(ms@.subrange(0, j as int), index) is None,
                },
            decreases ms@.len() - j,
        {
            let ghost next = ms@.subrange(0, j + 1);
            assert(next.drop_last() =~= ms@.subrange(0, j as int));
            if ms[j].index == index {
                found = Some(j);
            }
            j = j + 1;
        }
        assert(ms@.subrange(0, ms@.len() as int) =~= ms@);
        found
    }

    fn count_unreleased(ms: &Vec<Milestone>) -> (r: usize)
        ensures
            r == unreleased_count(ms@),
    {
        let mut n: usize = 0;
        let mut j: usize = 0;
        while j < ms.len()
            invariant
                j <= ms@.len(),
                n == unreleased_count(ms@.subrange(0, j as int)),
                n <= j,
            decreases ms@.len() - j,
        {
            let ghost next = ms@.subrange(0, j + 1);
            assert(next.drop_last() =~= ms@.subrange(0, j as int));
            if !ms[j].released {
                n = n + 1;
            }
            j = j + 1;
        }
        assert(ms@.subrange(0, ms@.len() as int) =~= ms@);
        n
    }

    fn all_released(ms: &Vec<Milestone>) -> (r: bool)
        ensures
            r == forall|j: int| 0 <= j < ms@.len() ==> #[trigger] ms@[j].released,
    {
        let mut j: usize = 0;
        while j < ms.len()
            invariant
                j <= ms@.len(),
                forall|k: int| 0 <= k < j ==> #[trigger] ms@[k].released,
            decreases ms@.len() - j,
        {
            if !ms[j].released {
                return false;
            }
            j = j + 1;
        }
        true
    }

    fn total_amount(assets: &Vec<AssetAmount>) -> (r: Result<i128, Error>)
        ensures
            r == sum_amounts(assets@),
    {
        let mut total: i128 = 0;
        let mut i: usize = 0;
        while i < assets.len()
            invariant
                i <= assets@.len(),
                sum_amounts(assets@.subrange(0, i as int)) == Ok::<i128, Error>(total),
            decreases assets@.len() - i,
        {
            let ghost next = assets@.subrange(0, i + 1);
            assert(next.drop_last() =~= assets@.subrange(0, i as int));
            match checked_add(total, assets[i].amount) {
                Ok(t) => {
                    total = t;
                },
                Err(e) => {
                    proof {
                        lemma_sum_prefix_error(assets@, i as int + 1);
                    }
                    return Err(e);
                },
            }
            i = i + 1;
        }
        assert(assets@.subrange(0, assets@.len() as int) =~= assets@);
        Ok(total)
    }

    /// The arbiter approves milestone `index`, paying its share of the total
    /// (the last unreleased milestone pays the exact remainder) in the
    /// escrow's primary asset. A milestone is paid at most once.
    pub fn release_milestone(&mut self, caller: &Address, id: u64, index: u32) -> (r: Result<
        Vec<Movement>,
        Error,
    >)
        requires
            old(self).wf(),
        ensures
            final(self).wf(),
            match old(self).escrow(id) {
                None => r == Err::<Vec<Movement>, Error>(Error::NotFound) && *final(self) == *old(self),
                Some(e) => match milestone_payout(e, old(self).milestone_records()[id - 1], *caller, index) {
                    Err(err) => r == Err::<Vec<Movement>, Error>(err) && *final(self) == *old(self),
                    Ok((ne, k, nr, ms)) => r matches Ok(m) && m@ == ms && final(self).records()
                        == old(self).records().update(id - 1, ne) && final(self).is_initialized()
                        == old(self).is_initialized() && final(self).milestone_records().len()
                        == old(self).milestone_records().len() && (forall|j: int|
                        0 <= j < old(self).milestone_records().len() && j != id - 1
                            ==> #[trigger] final(self).milestone_records()[j]
                            == old(self).milestone_records()[j]) && ({
                        let before = old(self).milestone_records()[id - 1]->0;
                        let after = final(self).milestone_records()[id - 1];
                        &&& after is Some
                        &&& after->0.released_amount == nr
                        &&& after->0.milestones@ == before.milestones@.update(
                            k,
                            Milestone { released: true, ..before.milestones@[k] },
                        )
                    }),
                },
            },
    {
        let i = self.slot(id)?;
        if !(self.escrows[i].arbiter == *caller) {
            return Err(Error::Unauthorized);
        }
        let st = self.escrows[i].state;
        if !(st == EscrowState::Funded || st == EscrowState::Released) {
            return Err(Error::InvalidState);
        }
        let (k, payout, new_released) = match &self.milestone_sets[i] {
            None => return Err(Error::NotFound),
            Some(set) => {
                proof {
                    assert(old(self).milestone_records()[id - 1] == Some(*set));
                }
                let k = match Self::find_milestone(&set.milestones, index) {
                    Some(k) => k,
                    None => return Err(Error::InvalidInput),
                };
                if set.milestones[k].released {
                    return Err(Error::InvalidState);
                }
                let total = Self::total_amount(&self.escrows[i].assets)?;
                let gross = checked_div(
                    checked_mul(total, set.milestones[k].release_bps as i128)?,
                    10_000,
                )?;
                let remaining = checked_sub(total, set.released_amount)?;
                let unreleased = Self::count_unreleased(&set.milestones);
                let payout = if unreleased == 1 {
                    remaining
                } else {
                    gross
                };
                let new_released = checked_add(set.released_amount, payout)?;
                proof {
                    lemma_milestone_step(
                        old(self).records()[i as int],
                        *set,
                        k as int,
                        total,
                        gross,
                        unreleased == 1,
                        payout,
                        new_released,
                    );
                }
                (k, payout, new_released)
            },
        };
        let mut set = match self.milestone_sets[i].take() {
            Some(set) => set,
            None => return Err(Error::NotFound),
        };
        let ghost before = set;
        set.milestones[k].released = true;
        set.released_amount = new_released;
        let all = Self::all_released(&set.milestones);
        self.milestone_sets.set(i, Some(set));
        proof {
            assert forall|j: int| 0 <= j < self.records().len() implies #[trigger] custody_ok(
                self.records()[j],
            ) by {
                old(self).lemma_custody_at(j);
            }
            assert forall|j: int|
                0 <= j < self.records().len() && #[trigger] self.milestone_records()[j] is Some
                    implies self.records()[j].assets@.len() >= 1 && milestones_ok(
                    self.records()[j],
                    self.milestone_records()[j]->0,
                ) by {
                old(self).lemma_custody_at(j);
            }
        }
        let mut moves: Vec<Movement> = Vec::new();
        moves.push(
            Movement::Payout {
                asset: self.escrows[i].assets[0].asset.clone(),
                to: self.escrows[i].recipient.clone(),
                amount: payout,
            },
        );
        let state = if all {
            EscrowState::Released
        } else {
            self.escrows[i].state
        };
        let funded = self.escrows[i].funded_amount;
        let nonce = self.escrows[i].override_nonce;
        self.update_scalars(i, state, funded, new_released, nonce);
        Ok(moves)
    }

    /// The escrow record.
    pub fn get(&self, id: u64) -> (r: Result<Escrow, Error>)
        ensures
            match self.escrow(id) {
                None => r == Err::<Escrow, Error>(Error::NotFound),
                Some(e) => r matches Ok(c) && same_escrow(c, e),
            },
    {
        let i = self.slot(id)?;
        Ok(self.escrows[i].copied())
    }

    /// The milestone state of a milestone escrow.
    pub fn milestones(&self, id: u64) -> (r: Result<MilestoneSet, Error>)
        requires
            self.wf(),
        ensures
            match self.escrow(id) {
                None => r == Err::<MilestoneSet, Error>(Error::NotFound),
                Some(_) => match self.milestone_records()[id - 1] {
                    None => r == Err::<MilestoneSet, Error>(Error::NotFound),
                    Some(set) => r matches Ok(c) && same_milestones(c, set),
                },
            },
    {
        let i = self.slot(id)?;
        match &self.milestone_sets[i] {
            Some(set) => Ok(set.copied()),
            None => Err(Error::NotFound),
        }
    }

    /// When the sender's refund and reclaim paths open for `id`.
    pub fn refund_opens_at(&self, id: u64) -> (r: Result<u64, Error>)
        ensures
            match self.escrow(id) {
                None => r == Err::<u64, Error>(Error::NotFound),
                Some(e) => r == Ok::<u64, Error>(grace_end_of(e)),
            },
    {
        let i = self.slot(id)?;
        Ok(Self::grace_end(&self.escrows[i]))
    }

    /// When the refund window of `id` closes (`0` = never).
    pub fn refund_window_closes_at(&self, id: u64) -> (r: Result<u64, Error>)
        ensures
            match self.escrow(id) {
                None => r == Err::<u64, Error>(Error::NotFound),
                Some(e) => r == Ok::<u64, Error>(closes_at_of(e)),
            },
    {
        let i = self.slot(id)?;
        Ok(Self::closes_at(&self.escrows[i]))
    }

    /// Whether the sender may reclaim `id` at `now`.
    pub fn is_refundable(&self, now: u64, id: u64) -> (r: Result<bool, Error>)
        ensures
            match self.escrow(id) {
                None => r == Err::<bool, Error>(Error::NotFound),
                Some(e) => r == Ok::<bool, Error>(refundable(e, now)),
            },
    {
        let i = self.slot(id)?;
        let st = self.escrows[i].state;
        if !(st == EscrowState::Created || st == EscrowState::Funded || st == EscrowState::Expired) {
            return Ok(false);
        }
        if now < Self::grace_end(&self.escrows[i]) {
            return Ok(false);
        }
        Ok(Self::require_refund_window_open(&self.escrows[i], now).is_ok())
    }

    /// What the recipient could withdraw from `id` at `now`.
    pub fn get_claimable_amount(&self, now: u64, id: u64) -> (r: Result<i128, Error>)
        ensures
            match self.escrow(id) {
                None => r == Err::<i128, Error>(Error::NotFound),
                Some(e) => r == claimable(e, now),
            },
    {
        let i = self.slot(id)?;
        calculate_claimable_amount(&self.escrows[i], now)
    }

    /// How much of `id` has vested at `now`.
    pub fn get_vested_amount(&self, now: u64, id: u64) -> (r: Result<i128, Error>)
        ensures
            match self.escrow(id) {
                None => r == Err::<i128, Error>(Error::NotFound),
                Some(e) => r == vested(e.funded_amount, e.schedule, now),
            },
    {
        let i = self.slot(id)?;
        calculate_vested_amount(self.escrows[i].funded_amount, &self.escrows[i].schedule, now)
    }

    /// The vesting schedule of `id`.
    pub fn get_schedule(&self, id: u64) -> (r: Result<ReleaseSchedule, Error>)
        ensures
            match self.escrow(id) {
                None => r == Err::<ReleaseSchedule, Error>(Error::NotFound),
                Some(e) => r == Ok::<ReleaseSchedule, Error>(e.schedule),
            },
    {
        let i = self.slot(id)?;
        Ok(self.escrows[i].schedule)
    }

    /// The reclaim boundary: `deadline + grace_period`, saturating.
    pub fn grace_end(escrow: &Escrow) -> (r: u64)
        ensures
            r == grace_end_of(*escrow),
    {
        escrow.deadline.saturating_add(escrow.grace_period)
    }

    /// When the refund window closes (`0` = never).
    pub fn closes_at(escrow: &Escrow) -> (r: u64)
        ensures
            r == closes_at_of(*escrow),
    {
        if escrow.refund_window == 0 {
            return 0;
        }
        Self::grace_end(escrow).saturating_add(escrow.refund_window)
    }

    fn require_refund_window_open(escrow: &Escrow, now: u64) -> (r: Result<(), Error>)
        ensures
            r == (if window_closed(*escrow, now) {
                Err::<(), Error>(Error::EscrowExpired)
            } else {
                Ok(())
            }),
    {
        let closes_at = Self::closes_at(escrow);
        if closes_at != 0 && now >= closes_at {
            return Err(Error::EscrowExpired);
        }
        Ok(())
    }

    fn validate_assets(assets: &Vec<AssetAmount>) -> (r: Result<(), Error>)
        ensures
            r == assets_check(assets@),
    {
        if assets.len() == 0 || assets.len() > MAX_ESCROW_ASSETS {
            return Err(Error::InvalidInput);
        }
        let mut i: usize = 0;
        while i < assets.len()
            invariant
                i <= assets@.len(),
                0 < assets@.len() <= MAX_ESCROW_ASSETS,
                asset_scan(assets@, 0) == asset_scan(assets@, i as int),
            decreases assets@.len() - i,
        {
            require_positive_amount(assets[i].amount)?;
            let mut j: usize = i + 1;
            while j < assets.len()
                invariant
                    i < j <= assets@.len(),
                    i < assets@.len(),
                    0 < assets@.len() <= MAX_ESCROW_ASSETS,
                    assets@[i as int].amount > 0,
                    asset_scan(assets@, 0) == asset_scan(assets@, i as int),
                    forall|k: int| i < k < j ==> assets@[k].asset@ != assets@[i as int].asset@,
                decreases assets@.len() - j,
            {
                if assets[j].asset == assets[i].asset {
                    assert(i < j < assets@.len() && assets@[j as int].asset@ == assets@[i as int].asset@);
                    assert(asset_scan(assets@, i as int) == Some(Error::InvalidInput));
                    return Err(Error::InvalidInput);
                }
                j = j + 1;
            }
            i = i + 1;
        }
        Ok(())
    }

    fn validate_override_config(signers: &Vec<PublicKey>, threshold: u32) -> (r: Result<(), Error>)
        ensures
            r == override_config_check(signers@, threshold),
    {
        if signers.len() == 0 {
            if threshold != 0 {
                return Err(Error::InvalidThreshold);
            }
            return Ok(());
        }
        if signers.len() > MAX_SIGNERS {
            return Err(Error::TooManySigners);
        }
        if threshold == 0 || threshold as usize > signers.len() {
            return Err(Error::InvalidThreshold);
        }
        let mut i: usize = 0;
        while i < signers.len()
            invariant
                i <= signers@.len(),
                0 < signers@.len() <= MAX_SIGNERS,
                0 < threshold <= signers@.len(),
                forall|a: int, b: int|
                    0 <= a < i && a < b < signers@.len() ==> #[trigger] signers@[a]@
                        != #[trigger] signers@[b]@,
            decreases signers@.len() - i,
        {
            let mut j: usize = i + 1;
            while j < signers.len()
                invariant
                    i < j <= signers@.len(),
                    i < signers@.len(),
                    0 < signers@.len() <= MAX_SIGNERS,
                    0 < threshold <= signers@.len(),
                    forall|a: int, b: int|
                        0 <= a < i && a < b < signers@.len() ==> #[trigger] signers@[a]@
                            != #[trigger] signers@[b]@,
                    forall|b: int| i < b < j ==> signers@[i as int]@ != #[trigger] signers@[b]@,
                decreases signers@.len() - j,
            {
                if signers[j] == signers[i] {
                    assert(0 <= i < j < signers@.len() && signers@[i as int]@ == signers@[j as int]@);
                    return Err(Error::InvalidInput);
                }
                j = j + 1;
            }
            i = i + 1;
        }
        Ok(())
    }

    /// The id the next escrow receives.
    fn next_id(&self) -> (r: Result<u64, Error>)
        requires
            self.wf(),
        ensures
            r == (if !self.is_initialized() {
                Err::<u64, Error>(Error::NotInitialized)
            } else if self.records().len() >= u64::MAX {
                Err(Error::Overflow)
            } else {
                Ok((self.records().len() + 1) as u64)
            }),
    {
        if !self.initialized {
            return Err(Error::NotInitialized);
        }
        let n = self.escrows.len();
        if n as u128 >= u64::MAX as u128 {
            return Err(Error::Overflow);
        }
        Ok((n as u64) + 1)
    }

    /// Deposits of every listed amount from `from` and their checked total.
    fn pull_assets(assets: &Vec<AssetAmount>, from: &Address) -> (r: Result<(Vec<Movement>, i128), Error>)
        ensures
            match sum_amounts(assets@) {
                Ok(total) => r matches Ok((moves, t)) && t == total && moves@ == deposits(assets@, *from),
                Err(e) => r == Err::<(Vec<Movement>, i128), Error>(e),
            },
    {
        let mut moves: Vec<Movement> = Vec::new();
        let mut total: i128 = 0;
        let mut i: usize = 0;
        while i < assets.len()
            invariant
                i <= assets@.len(),
                sum_amounts(assets@.subrange(0, i as int)) == Ok::<i128, Error>(total),
                moves@ == deposits(assets@.subrange(0, i as int), *from),
            decreases assets@.len() - i,
        {
            let ghost pre = assets@.subrange(0, i as int);
            let ghost next = assets@.subrange(0, i + 1);
            assert(next.drop_last() =~= pre);
            assert(next.last() == assets@[i as int]);
            moves.push(
                Movement::Deposit {
                    asset: assets[i].asset.clone(),
                    from: from.clone(),
                    amount: assets[i].amount,
                },
            );
            match checked_add(total, assets[i].amount) {
                Ok(t) => {
                    total = t;
                },
                Err(e) => {
                    proof {
                        lemma_sum_prefix_error(assets@, i as int + 1);
                    }
                    return Err(e);
                },
            }
            i = i + 1;
            assert(moves@ =~= deposits(assets@.subrange(0, i as int), *from));
        }
        assert(assets@.subrange(0, assets@.len() as int) =~= assets@);
        Ok((moves, total))
    }
}

/// An overflowing prefix of the milestone weights makes the whole total
/// overflow.
proof fn lemma_bps_prefix_overflow(ms: Seq<MilestoneSpec>, n: int)
    requires
        0 <= n <= ms.len(),
        bps_total(ms.subrange(0, n)) is None,
    ensures
        bps_total(ms) is None,
    decreases ms.len() - n,
{
    if n < ms.len() {
        let next = ms.subrange(0, n + 1);
        assert(next.drop_last() =~= ms.subrange(0, n));
        lemma_bps_prefix_overflow(ms, n + 1);
    } else {
        assert(ms.subrange(0, n) =~= ms);
    }
}

/// A failing share on a prefix makes the whole payout list fail the same way.
proof fn lemma_payouts_prefix_error(assets: Seq<AssetAmount>, num: i128, den: i128, to: Address, n: int)
    requires
        0 <= n <= assets.len(),
        payouts(assets.subrange(0, n), num, den, to) is Err,
    ensures
        payouts(assets, num, den, to) == payouts(assets.subrange(0, n), num, den, to),
    decreases assets.len() - n,
{
    if n < assets.len() {
        let next = assets.subrange(0, n + 1);
        assert(next.drop_last() =~= assets.subrange(0, n));
        lemma_payouts_prefix_error(assets, num, den, to, n + 1);
    } else {
        assert(assets.subrange(0, n) =~= assets);
    }
}

/// An overflowing prefix sum makes the whole sum overflow.
proof fn lemma_sum_prefix_error(assets: Seq<AssetAmount>, n: int)
    requires
        0 <= n <= assets.len(),
        sum_amounts(assets.subrange(0, n)) is Err,
    ensures
        sum_amounts(assets) == sum_amounts(assets.subrange(0, n)),
    decreases assets.len() - n,
{
    if n < assets.len() {
        let next = assets.subrange(0, n + 1);
        assert(next.drop_last() =~= assets.subrange(0, n));
        lemma_sum_prefix_error(assets, n + 1);
    } else {
        assert(assets.subrange(0, n) =~= assets);
    }
}

/// Calculate the amount vested under `schedule` at `current_time`.
pub fn calculate_vested_amount(amount: i128, schedule: &ReleaseSchedule, current_time: u64) -> (r:
    Result<i128, Error>)
    ensures
        r == vested(amount, *schedule, current_time),
{
    match schedule.release_type {
        ReleaseType::Unscheduled => Ok(0),
        ReleaseType::Cliff => {
            if schedule.end_time < schedule.start_time || schedule.cliff_time < schedule.start_time
                || schedule.cliff_time > schedule.end_time {
                return Err(Error::InvalidInput);
            }
            if current_time < schedule.cliff_time || current_time < schedule.start_time {
                return Ok(0);
            }
            if current_time >= schedule.end_time {
                Ok(amount)
            } else {
                Ok(0)
            }
        },
        ReleaseType::Linear => {
            if schedule.end_time <= schedule.start_time || schedule.cliff_time
                < schedule.start_time || schedule.cliff_time > schedule.end_time {
                return Err(Error::InvalidInput);
            }
            if current_time < schedule.cliff_time || current_time < schedule.start_time {
                return Ok(0);
            }
            if current_time >= schedule.end_time {
                return Ok(amount);
            }
            let total_duration = (schedule.end_time - schedule.start_time) as i128;
            let elapsed = (current_time - schedule.start_time) as i128;
            checked_div(checked_mul(amount, elapsed)?, total_duration)
        },
    }
}

/// Calculate what is claimable now from an escrow: vested minus released,
/// never negative.
pub fn calculate_claimable_amount(escrow: &Escrow, current_time: u64) -> (r: Result<i128, Error>)
    ensures
        r == claimable(*escrow, current_time),
{
    if escrow.schedule.release_type == ReleaseType::Cliff || escrow.schedule.release_type
        == ReleaseType::Linear {
        let vested = calculate_vested_amount(escrow.funded_amount, &escrow.schedule, current_time)?;
        let claimable = checked_sub(vested, escrow.released_amount)?;
        if claimable < 0 {
            return Ok(0);
        }
        Ok(claimable)
    } else {
        Ok(0)
    }
}

} // verus!
