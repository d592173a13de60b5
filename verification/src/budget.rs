//! Budgets: spending limits with periodic auto-reset windows, bounded rollover
//! of unspent allowance, deficit carry-forward, expiry, freezing, archiving and
//! per-asset recurring limits.
//!
//! A window is half-open, `[window_start, window_start + duration)`: a ledger
//! timestamp equal to the window end already belongs to the next window.
//! Transitions are settled lazily and all at once: when `n` whole windows have
//! elapsed the budget lands in the state it would have reached had it been
//! visited at every boundary, re-anchored to the boundary rather than to
//! "now". Rollover does not compound: the immediately preceding window
//! contributes its unspent remainder, every idle window a full base limit, and
//! the total is clamped once to the effective cap.
use vstd::prelude::*;
use crate::shared::{
    checked_add, checked_div, checked_mul, checked_rem, checked_sub, require_non_empty,
    require_positive_amount, spec_checked_add,
    spec_checked_div, spec_checked_mul, spec_checked_sub, trunc_div, trunc_rem, Address, Error,
    ResourceState, BPS_DENOMINATOR, SECONDS_PER_DAY, SECONDS_PER_MONTH, SECONDS_PER_WEEK,
};
use crate::table::Table;

verus! {

/// Reset period of a recurring budget. `OneShot` never resets; `Custom` takes
/// its interval from the budget's `period_seconds`.
#[derive(Clone, Copy, Debug, PartialEq, Eq, Structural)]
pub enum Period {
    OneShot,
    Daily,
    Weekly,
    Monthly,
    Custom,
}

/// A stored budget record.
#[derive(Debug)]
pub struct Budget {
    pub owner: Address,
    pub limit: i128,
    pub spent: i128,
    pub period: Period,
    /// Window length in seconds when `period` is `Custom` (0 when unused).
    pub period_seconds: u64,
    /// Start of the current window (unix seconds).
    pub window_start: u64,
    /// Whether unspent allowance carries into the next period.
    pub rollover_enabled: bool,
    /// Unspent allowance carried from prior periods.
    pub rollover_credit: i128,
    /// Absolute bound on `rollover_credit` (0 = uncapped).
    pub rollover_cap: i128,
    /// Bound on `rollover_credit` in basis points of `limit` (0 = uncapped).
    pub rollover_max_bps: i128,
    /// Whether spending beyond the limit is allowed (deficit).
    pub allow_deficit: bool,
    /// Deficit carried from prior periods.
    pub deficit_amount: i128,
    /// Instant at and after which the budget is expired (0 = never).
    pub expires_at: u64,
    pub state: ResourceState,
}

impl Budget {
    /// A field-for-field copy of this record.
    pub fn copied(&self) -> (r: Budget)
        ensures
            r == *self,
    {
        Budget {
            owner: self.owner.clone(),
            limit: self.limit,
            spent: self.spent,
            period: self.period,
            period_seconds: self.period_seconds,
            window_start: self.window_start,
            rollover_enabled: self.rollover_enabled,
            rollover_credit: self.rollover_credit,
            rollover_cap: self.rollover_cap,
            rollover_max_bps: self.rollover_max_bps,
            allow_deficit: self.allow_deficit,
            deficit_amount: self.deficit_amount,
            expires_at: self.expires_at,
            state: self.state,
        }
    }
}

/// A per-asset limit recurring on its own fixed window (0 = never resets).
#[derive(Clone, Copy, Debug, PartialEq, Eq, Structural)]
pub struct AssetBudget {
    pub limit: i128,
    pub spent: i128,
    pub window_seconds: u64,
    pub window_start: u64,
}

/// What a settled window transition did.
#[derive(Clone, Copy, Debug, PartialEq, Eq, Structural)]
pub enum TransitionAction {
    /// Spending exceeded capacity; the excess became carried deficit.
    Deficit,
    /// The unspent remainder rolled over as credit.
    Rollover,
    /// The window simply reset.
    Reset,
}

/// Report of a settled window transition: the action, its amount (the
/// deficit incurred, or the unspent remainder) and the window's leftover
/// capacity.
#[derive(Clone, Copy, Debug, PartialEq, Eq, Structural)]
pub struct Transition {
    pub action: TransitionAction,
    pub amount: i128,
    pub leftover: i128,
}

// ---------------------------------------------------------------------------
// Mathematical model of the recurring-allowance rules.
// ---------------------------------------------------------------------------

/// The window length implied by a budget's period, or `None` when it does not
/// recur (one-shot, or `Custom` without an interval).
pub open spec fn window_len(b: Budget) -> Option<u64> {
    match b.period {
        Period::OneShot => None,
        Period::Daily => Some(SECONDS_PER_DAY),
        Period::Weekly => Some(SECONDS_PER_WEEK),
        Period::Monthly => Some(SECONDS_PER_MONTH),
        Period::Custom => if b.period_seconds == 0 {
            None
        } else {
            Some(b.period_seconds)
        },
    }
}

/// Clamp a credit to its cap (0 = uncapped).
pub open spec fn capped(credit: i128, cap: i128) -> i128 {
    if cap != 0 && credit > cap {
        cap
    } else {
        credit
    }
}

/// `bps` basis points of `limit`, computed as `q * bps + (r * bps) / 10_000`
/// where `q`, `r` are the 10_000-ary quotient and remainder of `limit`, with
/// checked arithmetic at every step.
pub open spec fn percentage_of(limit: i128, bps: i128) -> Result<i128, Error> {
    if bps == 0 {
        Ok(0)
    } else {
        let q = trunc_div(limit as int, 10_000) as i128;
        let r = trunc_rem(limit as int, 10_000) as i128;
        match spec_checked_mul(q, bps) {
            Err(e) => Err(e),
            Ok(whole) => match spec_checked_mul(r, bps) {
                Err(e) => Err(e),
                Ok(rb) => match spec_checked_div(rb, 10_000) {
                    Err(e) => Err(e),
                    Ok(part) => spec_checked_add(whole, part),
                },
            },
        }
    }
}

/// The effective rollover cap: the smaller of the absolute cap and the
/// percentage cap, a zero on either side meaning "no bound from that side".
pub open spec fn effective_cap(b: Budget) -> Result<i128, Error> {
    match percentage_of(b.limit, b.rollover_max_bps) {
        Err(e) => Err(e),
        Ok(p) => Ok(
            if b.rollover_cap == 0 {
                p
            } else if p == 0 {
                b.rollover_cap
            } else if b.rollover_cap <= p {
                b.rollover_cap
            } else {
                p
            },
        ),
    }
}

/// `x` saturated into the `i128` range.
pub open spec fn saturate(x: int) -> i128 {
    if x > i128::MAX {
        i128::MAX
    } else if x < i128::MIN {
        i128::MIN
    } else {
        x as i128
    }
}

/// `credit` plus `idle` full base limits: saturating when the budget has an
/// absolute cap (the cap is applied right after), checked otherwise.
pub open spec fn accrued(credit: i128, b: Budget, idle: i128) -> Result<i128, Error> {
    if b.rollover_cap != 0 {
        Ok(saturate(credit + saturate(b.limit * idle)))
    } else {
        match spec_checked_mul(b.limit, idle) {
            Err(e) => Err(e),
            Ok(m) => spec_checked_add(credit, m),
        }
    }
}

/// The rollover credit for the next window after `periods` whole windows
/// elapsed with `leftover` unspent in the first of them.
pub open spec fn rolled_credit(b: Budget, leftover: i128, periods: i128) -> Result<i128, Error> {
    if !b.rollover_enabled {
        Ok(0)
    } else {
        let base = if periods > 1 {
            accrued(leftover, b, (periods - 1) as i128)
        } else {
            Ok(leftover)
        };
        match base {
            Err(e) => Err(e),
            Ok(c) => match effective_cap(b) {
                Err(e) => Err(e),
                Ok(cap) => Ok(capped(c, cap)),
            },
        }
    }
}

/// Whether the budget is expired at `now`.
pub open spec fn is_expired_at(b: Budget, now: u64) -> bool {
    b.expires_at != 0 && now >= b.expires_at
}

/// The window transition hook: settles every whole window elapsed by `now`,
/// or reports expiry / overflow. `None` as the report means nothing was due.
pub open spec fn settled(b: Budget, now: u64) -> Result<(Budget, Option<Transition>), Error> {
    if is_expired_at(b, now) {
        Err(Error::BudgetExpired)
    } else {
        match window_len(b) {
            None => Ok((b, None)),
            Some(w) => if b.window_start + w > u64::MAX {
                Err(Error::Overflow)
            } else if now < b.window_start + w {
                Ok((b, None))
            } else {
                let periods = (now - b.window_start) / (w as int);
                match spec_checked_add(b.limit, b.rollover_credit) {
                    Err(e) => Err(e),
                    Ok(capacity) => match spec_checked_sub(capacity, b.spent) {
                        Err(e) => Err(e),
                        Ok(leftover) => match rolled_credit(b, leftover, periods as i128) {
                            Err(e) => Err(e),
                            Ok(credit) => {
                                let deficit_case = b.spent > capacity && b.allow_deficit;
                                let excess = b.spent - capacity;
                                if deficit_case && (excess > i128::MAX || !(i128::MIN
                                    <= b.deficit_amount + excess <= i128::MAX)) {
                                    Err(Error::Overflow)
                                } else {
                                    let nb = Budget {
                                        rollover_credit: if deficit_case {
                                            0
                                        } else {
                                            credit
                                        },
                                        deficit_amount: if deficit_case {
                                            (b.deficit_amount + excess) as i128
                                        } else {
                                            b.deficit_amount
                                        },
                                        spent: 0,
                                        window_start: (b.window_start + periods * w) as u64,
                                        ..b
                                    };
                                    let t = Transition {
                                        action: if deficit_case {
                                            TransitionAction::Deficit
                                        } else if b.rollover_enabled {
                                            TransitionAction::Rollover
                                        } else {
                                            TransitionAction::Reset
                                        },
                                        amount: if deficit_case {
                                            excess as i128
                                        } else {
                                            leftover
                                        },
                                        leftover,
                                    };
                                    Ok((nb, Some(t)))
                                }
                            },
                        },
                    },
                }
            },
        }
    }
}


/// A budget record the caller owns, or why not.
pub open spec fn owned(stored: Option<Budget>, caller: Address) -> Result<Budget, Error> {
    match stored {
        None => Err(Error::NotFound),
        Some(b) => if b.owner@ != caller@ {
            Err(Error::Unauthorized)
        } else {
            Ok(b)
        },
    }
}

/// The lifecycle gate for spending: only an active budget passes.
pub open spec fn active_gate(b: Budget) -> Result<(), Error> {
    match b.state {
        ResourceState::Active => Ok(()),
        ResourceState::Frozen | ResourceState::Paused => Err(Error::BudgetFrozen),
        ResourceState::Archived => Err(Error::BudgetArchived),
    }
}

/// Remaining allowance of a settled budget: limit plus credit, less any
/// carried deficit (when deficits are allowed) and what has been spent.
pub open spec fn remaining_of(b: Budget) -> Result<i128, Error> {
    match spec_checked_add(b.limit, b.rollover_credit) {
        Err(e) => Err(e),
        Ok(capacity) => if b.allow_deficit && b.deficit_amount > 0 {
            match spec_checked_sub(capacity, b.deficit_amount) {
                Err(e) => Err(e),
                Ok(net) => spec_checked_sub(net, b.spent),
            }
        } else {
            spec_checked_sub(capacity, b.spent)
        },
    }
}

/// The debit rule applied to a settled budget `b`: the new record and the
/// remaining allowance, or the refusal.
pub open spec fn debited(b: Budget, amount: i128) -> Result<(Budget, i128), Error> {
    match spec_checked_add(b.limit, b.rollover_credit) {
        Err(e) => Err(e),
        Ok(capacity) => {
            let ceiling = if b.allow_deficit && b.deficit_amount > 0 {
                spec_checked_sub(capacity, b.deficit_amount)
            } else {
                Ok(capacity)
            };
            match ceiling {
                Err(e) => Err(e),
                Ok(ceiling) => match spec_checked_add(b.spent, amount) {
                    Err(e) => Err(e),
                    Ok(new_spent) => if new_spent > ceiling {
                        if b.allow_deficit && b.deficit_amount == 0 {
                            match spec_checked_sub(capacity, new_spent) {
                                Err(e) => Err(e),
                                Ok(rem) => Ok((Budget { spent: new_spent, ..b }, rem)),
                            }
                        } else {
                            match spec_checked_sub(ceiling, b.spent) {
                                Err(e) => Err(e),
                                Ok(_) => Err(Error::BudgetExceeded),
                            }
                        }
                    } else {
                        match spec_checked_sub(ceiling, new_spent) {
                            Err(e) => Err(e),
                            Ok(rem) => Ok((Budget { spent: new_spent, ..b }, rem)),
                        }
                    },
                },
            }
        },
    }
}

/// `consume`: positive amount, owner, active, settle, then debit.
pub open spec fn consume_outcome(stored: Option<Budget>, caller: Address, amount: i128, now: u64) -> Result<
    (Budget, i128),
    Error,
> {
    if amount <= 0 {
        Err(Error::InvalidAmount)
    } else {
        match owned(stored, caller) {
            Err(e) => Err(e),
            Ok(b) => match active_gate(b) {
                Err(e) => Err(e),
                Ok(_) => match settled(b, now) {
                    Err(e) => Err(e),
                    Ok((nb, _)) => debited(nb, amount),
                },
            },
        }
    }
}

/// `release`: credit a spend back within the current window.
pub open spec fn release_outcome(stored: Option<Budget>, caller: Address, amount: i128, now: u64) -> Result<
    (Budget, i128),
    Error,
> {
    if amount <= 0 {
        Err(Error::InvalidAmount)
    } else {
        match owned(stored, caller) {
            Err(e) => Err(e),
            Ok(b) => match active_gate(b) {
                Err(e) => Err(e),
                Ok(_) => match settled(b, now) {
                    Err(e) => Err(e),
                    Ok((nb, _)) => if amount > nb.spent {
                        Err(Error::InvalidAmount)
                    } else {
                        let rb = Budget { spent: (nb.spent - amount) as i128, ..nb };
                        match remaining_of(rb) {
                            Err(e) => Err(e),
                            Ok(rem) => Ok((rb, rem)),
                        }
                    },
                },
            },
        }
    }
}

/// The per-asset window hook: every whole window elapsed resets `spent` and
/// re-anchors the window to its boundary.
pub open spec fn asset_settled(a: AssetBudget, now: u64) -> AssetBudget {
    if a.window_seconds == 0 || now < a.window_start || now - a.window_start < a.window_seconds {
        a
    } else {
        let periods = (now - a.window_start) / (a.window_seconds as int);
        AssetBudget { spent: 0, window_start: (a.window_start + periods * a.window_seconds) as u64, ..a }
    }
}


/// `allocate_with_deficit`: the new budget record, or why it is refused.
pub open spec fn allocation(
    stored: Option<Budget>,
    owner: Address,
    budget_id: Seq<char>,
    limit: i128,
    period: Period,
    rollover_enabled: bool,
    allow_deficit: bool,
    expires_at: u64,
    now: u64,
) -> Result<Budget, Error> {
    if budget_id.len() == 0 {
        Err(Error::InvalidInput)
    } else if limit < 0 {
        Err(Error::InvalidAmount)
    } else if expires_at != 0 && expires_at <= now {
        Err(Error::InvalidInput)
    } else if allow_deficit && period == Period::OneShot {
        Err(Error::InvalidInput)
    } else if stored is Some {
        Err(Error::AlreadyExists)
    } else {
        Ok(
            Budget {
                owner,
                limit,
                spent: 0,
                period,
                period_seconds: 0,
                window_start: now,
                rollover_enabled,
                rollover_credit: 0,
                rollover_cap: 0,
                rollover_max_bps: 0,
                allow_deficit,
                deficit_amount: 0,
                expires_at,
                state: ResourceState::Active,
            },
        )
    }
}

/// `set_recurrence`: settle under the old policy, adopt the new one, clamp
/// the carried credit to the new effective cap and re-anchor the window.
pub open spec fn recurrence(
    stored: Option<Budget>,
    caller: Address,
    period: Period,
    period_seconds: u64,
    rollover_enabled: bool,
    rollover_cap: i128,
    rollover_max_bps: i128,
    now: u64,
) -> Result<Budget, Error> {
    if rollover_cap < 0 || rollover_max_bps < 0 {
        Err(Error::InvalidAmount)
    } else if rollover_max_bps >= BPS_DENOMINATOR {
        Err(Error::InvalidInput)
    } else if period == Period::Custom && period_seconds == 0 {
        Err(Error::InvalidInput)
    } else {
        match owned(stored, caller) {
            Err(e) => Err(e),
            Ok(b) => match active_gate(b) {
                Err(e) => Err(e),
                Ok(_) => match settled(b, now) {
                    Err(e) => Err(e),
                    Ok((nb, _)) => {
                        let cb = Budget {
                            period,
                            period_seconds: if period == Period::Custom {
                                period_seconds
                            } else {
                                0
                            },
                            rollover_enabled,
                            rollover_cap,
                            rollover_max_bps,
                            ..nb
                        };
                        let credit = if !rollover_enabled {
                            Ok(0i128)
                        } else if cb.rollover_credit > 0 {
                            match effective_cap(cb) {
                                Err(e) => Err(e),
                                Ok(cap) => Ok(capped(cb.rollover_credit, cap)),
                            }
                        } else {
                            Ok(cb.rollover_credit)
                        };
                        match credit {
                            Err(e) => Err(e),
                            Ok(c) => Ok(Budget { rollover_credit: c, window_start: now, ..cb }),
                        }
                    },
                },
            },
        }
    }
}

/// `check_and_record_spend` on a per-asset limit: settle its window, then
/// debit `amount` within the limit.
pub open spec fn asset_debited(a: AssetBudget, amount: i128, now: u64) -> Result<AssetBudget, Error> {
    let a1 = asset_settled(a, now);
    let end = if a1.window_start + a1.window_seconds > u64::MAX {
        u64::MAX as int
    } else {
        a1.window_start + a1.window_seconds
    };
    let a2 = if a1.window_seconds > 0 && now >= end {
        AssetBudget { spent: 0, window_start: now, ..a1 }
    } else {
        a1
    };
    match spec_checked_add(a2.spent, amount) {
        Err(e) => Err(e),
        Ok(new_spent) => if new_spent > a2.limit {
            Err(Error::BudgetExceeded)
        } else {
            Ok(AssetBudget { spent: new_spent, ..a2 })
        },
    }
}


/// `transfer_allocation`: the two updated records, or why it is refused.
pub open spec fn reallocation(
    from: Option<Budget>,
    to: Option<Budget>,
    caller: Address,
    same_id: bool,
    amount: i128,
    now: u64,
) -> Result<(Budget, Budget), Error> {
    if amount <= 0 {
        Err(Error::InvalidAmount)
    } else if same_id {
        Err(Error::InvalidInput)
    } else {
        match owned(from, caller) {
            Err(e) => Err(e),
            Ok(f) => match to {
                None => Err(Error::NotFound),
                Some(t) => if t.owner@ != caller@ {
                    Err(Error::Unauthorized)
                } else {
                    match active_gate(f) {
                        Err(e) => Err(e),
                        Ok(_) => match active_gate(t) {
                            Err(e) => Err(e),
                            Ok(_) => if is_expired_at(f, now) || is_expired_at(t, now) {
                                Err(Error::BudgetExpired)
                            } else {
                                match spec_checked_sub(f.limit, f.spent) {
                                    Err(e) => Err(e),
                                    Ok(available) => if amount > available {
                                        Err(Error::BudgetExceeded)
                                    } else {
                                        match spec_checked_sub(f.limit, amount) {
                                            Err(e) => Err(e),
                                            Ok(fl) => match spec_checked_add(t.limit, amount) {
                                                Err(e) => Err(e),
                                                Ok(tl) => Ok(
                                                    (
                                                        Budget { limit: fl, ..f },
                                                        Budget { limit: tl, ..t },
                                                    ),
                                                ),
                                            },
                                        }
                                    },
                                }
                            },
                        },
                    }
                },
            },
        }
    }
}

/// The gates every per-asset operation passes through: owner, active and
/// not expired.
pub open spec fn asset_gates(stored: Option<Budget>, caller: Address, now: u64) -> Result<(), Error> {
    match owned(stored, caller) {
        Err(e) => Err(e),
        Ok(b) => match active_gate(b) {
            Err(e) => Err(e),
            Ok(_) => if is_expired_at(b, now) {
                Err(Error::BudgetExpired)
            } else {
                Ok(())
            },
        },
    }
}

/// The contract state: the admin and every stored budget and per-asset limit.
pub struct BudgetContract {
    admin: Option<Address>,
    budgets: Table<Budget>,
    asset_budgets: Table<Table<AssetBudget>>,
}

/// `a + b` saturated into the `i128` range.
fn saturating_add(a: i128, b: i128) -> (r: i128)
    ensures
        r == saturate(a + b),
{
    match a.checked_add(b) {
        Some(v) => v,
        None => if b > 0 {
            i128::MAX
        } else {
            i128::MIN
        },
    }
}

/// `a * b` saturated into the `i128` range.
fn saturating_mul(a: i128, b: i128) -> (r: i128)
    ensures
        r == saturate(a * b),
{
    match a.checked_mul(b) {
        Some(v) => v,
        None => {
            if (a > 0) == (b > 0) {
                assert(a * b > 0) by (nonlinear_arith)
                    requires
                        (a > 0) == (b > 0),
                        a * b != 0,
                ;
                i128::MAX
            } else {
                assert(a * b < 0) by (nonlinear_arith)
                    requires
                        (a > 0) != (b > 0),
                        a * b != 0,
                ;
                i128::MIN
            }
        },
    }
}

/// `post` is `pre` with budget `id` set to `b` and nothing else changed.
pub open spec fn budget_set(pre: BudgetContract, post: BudgetContract, id: Seq<char>, b: Budget) -> bool {
    &&& post.budget_records() == pre.budget_records().insert(id, b)
    &&& post.asset_records() == pre.asset_records()
    &&& post.admin_of() == pre.admin_of()
}

/// A valid budget record: a non-negative limit, spend and carried deficit.
pub open spec fn budget_ok(b: Budget) -> bool {
    &&& 0 <= b.limit
    &&& 0 <= b.spent
    &&& 0 <= b.deficit_amount
}

/// Settling a valid budget keeps it valid.
pub proof fn lemma_settled_keeps_ok(b: Budget, now: u64)
    requires
        budget_ok(b),
        settled(b, now) is Ok,
    ensures
        budget_ok(settled(b, now)->Ok_0.0),
{
}

/// A ledger whose budgets are those of a valid ledger is valid.
proof fn lemma_wf_same_budgets(pre: BudgetContract, post: BudgetContract)
    requires
        pre.wf(),
        post.budget_records() == pre.budget_records(),
    ensures
        post.wf(),
{
    assert forall|k: Seq<char>| #[trigger]
        post.budget_records().contains_key(k) implies budget_ok(post.budget_records()[k]) by {
        assert(pre.budget_records().contains_key(k));
    }
}

impl BudgetContract {
    /// Every stored budget, by id.
    pub closed spec fn budget_records(self) -> Map<Seq<char>, Budget> {
        self.budgets.view()
    }

    /// Every stored per-asset limit, by budget id then token.
    pub closed spec fn asset_records(self) -> Map<Seq<char>, Map<Seq<char>, AssetBudget>> {
        self.asset_budgets.view().map_values(|t: Table<AssetBudget>| t.view())
    }

    /// The protocol admin, once initialized.
    pub closed spec fn admin_of(self) -> Option<Address> {
        self.admin
    }

    /// The budget stored under `id`, if any.
    pub open spec fn stored(self, id: Seq<char>) -> Option<Budget> {
        self.budget_records().get(id)
    }

    /// The ledger's invariant: every stored budget is valid.
    pub open spec fn wf(self) -> bool {
        forall|k: Seq<char>| #[trigger] self.budget_records().contains_key(k) ==> budget_ok(
            self.budget_records()[k],
        )
    }

    /// A freshly deployed, uninitialized contract with no budgets.
    pub fn new() -> (c: Self)
        ensures
            c.budget_records() == Map::<Seq<char>, Budget>::empty(),
            c.asset_records() == Map::<Seq<char>, Map<Seq<char>, AssetBudget>>::empty(),
            c.admin_of() == Option::<Address>::None,
            c.wf(),
    {
        let c = BudgetContract { admin: None, budgets: Table::new(), asset_budgets: Table::new() };
        assert(c.asset_records() =~= Map::<Seq<char>, Map<Seq<char>, AssetBudget>>::empty());
        c
    }

    fn load(&self, id: &String) -> (r: Result<Budget, Error>)
        ensures
            r == (match self.stored(id@) {
                Some(b) => Ok::<Budget, Error>(b),
                None => Err(Error::NotFound),
            }),
    {
        match self.budgets.get(id) {
            Some(b) => Ok(b.copied()),
            None => Err(Error::NotFound),
        }
    }

    fn store(&mut self, id: &String, budget: Budget)
        requires
            old(self).wf(),
            budget_ok(budget),
        ensures
            budget_set(*old(self), *final(self), id@, budget),
            final(self).wf(),
    {
        self.budgets.insert(id.clone(), budget);
        proof {
            assert forall|k: Seq<char>| #[trigger]
                self.budget_records().contains_key(k) implies budget_ok(
                self.budget_records()[k],
            ) by {
                if k != id@ {
                    assert(old(self).budget_records().contains_key(k));
                }
            }
        }
    }

    fn require_owner(&self, id: &String, caller: &Address) -> (r: Result<Budget, Error>)
        ensures
            r == owned(self.stored(id@), *caller),
    {
        let budget = self.load(id)?;
        if !(budget.owner == *caller) {
            return Err(Error::Unauthorized);
        }
        Ok(budget)
    }

    fn require_active(budget: &Budget) -> (r: Result<(), Error>)
        ensures
            r == active_gate(*budget),
    {
        match budget.state {
            ResourceState::Active => Ok(()),
            ResourceState::Frozen | ResourceState::Paused => Err(Error::BudgetFrozen),
            ResourceState::Archived => Err(Error::BudgetArchived),
        }
    }

    fn effective_remaining(budget: &Budget) -> (r: Result<i128, Error>)
        ensures
            r == remaining_of(*budget),
    {
        let capacity = checked_add(budget.limit, budget.rollover_credit)?;
        if budget.allow_deficit && budget.deficit_amount > 0 {
            let net = checked_sub(capacity, budget.deficit_amount)?;
            checked_sub(net, budget.spent)
        } else {
            checked_sub(capacity, budget.spent)
        }
    }

    /// Debit `amount` from the budget: settles any pending transition first,
    /// then enforces `spent + amount <= limit + rollover_credit` (less any
    /// carried deficit), else `BudgetExceeded`. With deficits allowed and none
    /// carried yet, the first overspend is accepted and becomes next period's
    /// deficit. Returns the remaining allowance.
    pub fn consume(&mut self, now: u64, caller: &Address, budget_id: &String, amount: i128) -> (r:
        Result<i128, Error>)
        requires
            old(self).wf(),
        ensures
            final(self).wf(),
            match consume_outcome(old(self).stored(budget_id@), *caller, amount, now) {
                Ok((nb, rem)) => r == Ok::<i128, Error>(rem) && budget_set(
                    *old(self),
                    *final(self),
                    budget_id@,
                    nb,
                ),
                Err(e) => r == Err::<i128, Error>(e) && *final(self) == *old(self),
            },
    {
        require_positive_amount(amount)?;
        let mut budget = self.require_owner(budget_id, caller)?;
        Self::require_active(&budget)?;
        Self::window_transition(&mut budget, now)?;
        let capacity = checked_add(budget.limit, budget.rollover_credit)?;
        let ceiling = if budget.allow_deficit && budget.deficit_amount > 0 {
            checked_sub(capacity, budget.deficit_amount)?
        } else {
            capacity
        };
        let new_spent = checked_add(budget.spent, amount)?;
        if new_spent > ceiling {
            if budget.allow_deficit && budget.deficit_amount == 0 {
                let remaining = checked_sub(capacity, new_spent)?;
                budget.spent = new_spent;
                self.store(budget_id, budget);
                return Ok(remaining);
            }
            let _remaining = checked_sub(ceiling, budget.spent)?;
            return Err(Error::BudgetExceeded);
        }
        let remaining = checked_sub(ceiling, new_spent)?;
        budget.spent = new_spent;
        self.store(budget_id, budget);
        Ok(remaining)
    }

    /// Credit `amount` back to the budget (a refunded spend) after settling
    /// any pending transition; more than the current window's spend is
    /// refused with `InvalidAmount`. Returns the new remaining allowance.
    pub fn release(&mut self, now: u64, caller: &Address, budget_id: &String, amount: i128) -> (r:
        Result<i128, Error>)
        requires
            old(self).wf(),
        ensures
            final(self).wf(),
            match release_outcome(old(self).stored(budget_id@), *caller, amount, now) {
                Ok((nb, rem)) => r == Ok::<i128, Error>(rem) && budget_set(
                    *old(self),
                    *final(self),
                    budget_id@,
                    nb,
                ),
                Err(e) => r == Err::<i128, Error>(e) && *final(self) == *old(self),
            },
    {
        require_positive_amount(amount)?;
        let mut budget = self.require_owner(budget_id, caller)?;
        Self::require_active(&budget)?;
        Self::window_transition(&mut budget, now)?;
        if amount > budget.spent {
            return Err(Error::InvalidAmount);
        }
        budget.spent = checked_sub(budget.spent, amount)?;
        let remaining = Self::effective_remaining(&budget)?;
        self.store(budget_id, budget);
        Ok(remaining)
    }

    /// Remaining allowance, settling (and persisting) any pending transition
    /// first. An expired budget, or one whose transition cannot be computed,
    /// reports 0 and is left untouched.
    pub fn remaining(&mut self, now: u64, budget_id: &String) -> (r: Result<i128, Error>)
        requires
            old(self).wf(),
        ensures
            final(self).wf(),
            match old(self).stored(budget_id@) {
                None => r == Err::<i128, Error>(Error::NotFound) && *final(self) == *old(self),
                Some(b) => match settled(b, now) {
                    Err(_) => r == Ok::<i128, Error>(0) && *final(self) == *old(self),
                    Ok((nb, _)) => match remaining_of(nb) {
                        Ok(rem) => r == Ok::<i128, Error>(rem) && budget_set(
                            *old(self),
                            *final(self),
                            budget_id@,
                            nb,
                        ),
                        Err(e) => r == Err::<i128, Error>(e) && *final(self) == *old(self),
                    },
                },
            },
    {
        let mut budget = self.load(budget_id)?;
        match Self::window_transition(&mut budget, now) {
            Ok(_) => {},
            Err(_) => return Ok(0),
        }
        let remaining = Self::effective_remaining(&budget)?;
        self.store(budget_id, budget);
        Ok(remaining)
    }

    /// The per-asset limit stored for `(budget_id, token)`, if any.
    pub open spec fn asset_stored(self, budget_id: Seq<char>, token: Seq<char>) -> Option<AssetBudget> {
        match self.asset_records().get(budget_id) {
            Some(m) => m.get(token),
            None => None,
        }
    }

    fn load_asset(&self, budget_id: &String, token: &Address) -> (r: Option<AssetBudget>)
        ensures
            r == self.asset_stored(budget_id@, token@),
    {
        match self.asset_budgets.get(budget_id) {
            Some(t) => match t.get(token) {
                Some(a) => Some(*a),
                None => None,
            },
            None => None,
        }
    }

    fn store_asset(&mut self, budget_id: &String, token: &Address, a: AssetBudget)
        requires
            old(self).wf(),
        ensures
            final(self).wf(),
            final(self).asset_records() == old(self).asset_records().insert(
                budget_id@,
                match old(self).asset_records().get(budget_id@) {
                    Some(m) => m,
                    None => Map::empty(),
                }.insert(token@, a),
            ),
            final(self).budget_records() == old(self).budget_records(),
            final(self).admin_of() == old(self).admin_of(),
    {
        let ghost pre = old(self).asset_records();
        let mut inner = match self.asset_budgets.remove(budget_id) {
            Some(t) => t,
            None => Table::new(),
        };
        inner.insert(token.clone(), a);
        self.asset_budgets.insert(budget_id.clone(), inner);
        assert(self.asset_records() =~= pre.insert(
            budget_id@,
            match pre.get(budget_id@) {
                Some(m) => m,
                None => Map::empty(),
            }.insert(token@, a),
        ));
        proof {
            lemma_wf_same_budgets(*old(self), *self);
        }
    }

    /// Record the protocol admin; refused once initialized.
    pub fn initialize(&mut self, admin: &Address) -> (r: Result<(), Error>)
        requires
            old(self).wf(),
        ensures
            final(self).wf(),
            match old(self).admin_of() {
                Some(_) => r == Err::<(), Error>(Error::AlreadyInitialized) && *final(self)
                    == *old(self),
                None => r == Ok::<(), Error>(()) && final(self).admin_of() == Some(*admin)
                    && final(self).budget_records() == old(self).budget_records()
                    && final(self).asset_records() == old(self).asset_records(),
            },
    {
        if self.admin.is_some() {
            return Err(Error::AlreadyInitialized);
        }
        self.admin = Some(admin.clone());
        proof {
            lemma_wf_same_budgets(*old(self), *self);
        }
        Ok(())
    }

    /// Allocate a non-deficit budget: see [`Self::allocate_with_deficit`].
    pub fn allocate(
        &mut self,
        now: u64,
        owner: &Address,
        budget_id: &String,
        limit: i128,
        period: Period,
        rollover_enabled: bool,
        expires_at: u64,
    ) -> (r: Result<(), Error>)
        requires
            old(self).wf(),
        ensures
            final(self).wf(),
            match allocation(
                old(self).stored(budget_id@),
                *owner,
                budget_id@,
                limit,
                period,
                rollover_enabled,
                false,
                expires_at,
                now,
            ) {
                Ok(b) => r == Ok::<(), Error>(()) && budget_set(*old(self), *final(self), budget_id@, b),
                Err(e) => r == Err::<(), Error>(e) && *final(self) == *old(self),
            },
    {
        self.allocate_with_deficit(now, owner, budget_id, limit, period, rollover_enabled, false, expires_at)
    }

    /// Create a budget owned by `owner` with a spending `limit`, a reset
    /// `period`, optional rollover and deficit carry-forward, and an optional
    /// expiry (`0` = never). Refuses an empty id, a negative limit, an expiry
    /// already reached, deficit on a one-shot budget and an existing id.
    pub fn allocate_with_deficit(
        &mut self,
        now: u64,
        owner: &Address,
        budget_id: &String,
        limit: i128,
        period: Period,
        rollover_enabled: bool,
        allow_deficit: bool,
        expires_at: u64,
    ) -> (r: Result<(), Error>)
        requires
            old(self).wf(),
        ensures
            final(self).wf(),
            match allocation(
                old(self).stored(budget_id@),
                *owner,
                budget_id@,
                limit,
                period,
                rollover_enabled,
                allow_deficit,
                expires_at,
                now,
            ) {
                Ok(b) => r == Ok::<(), Error>(()) && budget_set(*old(self), *final(self), budget_id@, b),
                Err(e) => r == Err::<(), Error>(e) && *final(self) == *old(self),
            },
    {
        require_non_empty(budget_id)?;
        Self::require_valid_limit(limit)?;
        if expires_at != 0 && expires_at <= now {
            return Err(Error::InvalidInput);
        }
        if allow_deficit && period == Period::OneShot {
            return Err(Error::InvalidInput);
        }
        if self.budgets.contains(budget_id) {
            return Err(Error::AlreadyExists);
        }
        let budget = Budget {
            owner: owner.clone(),
            limit,
            spent: 0,
            period,
            period_seconds: 0,
            window_start: now,
            rollover_enabled,
            rollover_credit: 0,
            rollover_cap: 0,
            rollover_max_bps: 0,
            allow_deficit,
            deficit_amount: 0,
            expires_at,
            state: ResourceState::Active,
        };
        self.store(budget_id, budget);
        Ok(())
    }

    fn require_valid_limit(limit: i128) -> (r: Result<(), Error>)
        ensures
            r == (if limit < 0 { Err::<(), Error>(Error::InvalidAmount) } else { Ok(()) }),
    {
        if limit < 0 {
            return Err(Error::InvalidAmount);
        }
        Ok(())
    }

    /// Configure the recurring allowance policy (owner-gated, active only).
    /// A transition already due under the old policy is settled first; the
    /// carried credit is clamped to the new effective cap (dropped when
    /// rollover is disabled) and the window re-anchors to `now`.
    pub fn set_recurrence(
        &mut self,
        now: u64,
        caller: &Address,
        budget_id: &String,
        period: Period,
        period_seconds: u64,
        rollover_enabled: bool,
        rollover_cap: i128,
        rollover_max_bps: i128,
    ) -> (r: Result<(), Error>)
        requires
            old(self).wf(),
        ensures
            final(self).wf(),
            match recurrence(
                old(self).stored(budget_id@),
                *caller,
                period,
                period_seconds,
                rollover_enabled,
                rollover_cap,
                rollover_max_bps,
                now,
            ) {
                Ok(b) => r == Ok::<(), Error>(()) && budget_set(*old(self), *final(self), budget_id@, b),
                Err(e) => r == Err::<(), Error>(e) && *final(self) == *old(self),
            },
    {
        Self::require_valid_limit(rollover_cap)?;
        Self::require_valid_limit(rollover_max_bps)?;
        if rollover_max_bps >= BPS_DENOMINATOR {
            return Err(Error::InvalidInput);
        }
        if period == Period::Custom && period_seconds == 0 {
            return Err(Error::InvalidInput);
        }
        let mut budget = self.require_owner(budget_id, caller)?;
        Self::require_active(&budget)?;
        Self::window_transition(&mut budget, now)?;
        budget.period = period;
        budget.period_seconds = if period == Period::Custom {
            period_seconds
        } else {
            0
        };
        budget.rollover_enabled = rollover_enabled;
        budget.rollover_cap = rollover_cap;
        budget.rollover_max_bps = rollover_max_bps;
        if !rollover_enabled {
            budget.rollover_credit = 0;
        } else if budget.rollover_credit > 0 {
            let cap = Self::effective_rollover_cap(&budget)?;
            budget.rollover_credit = Self::apply_cap(budget.rollover_credit, cap);
        }
        budget.window_start = now;
        self.store(budget_id, budget);
        Ok(())
    }

    /// Zero the spent counter and the carried credit and restart the window
    /// at `now` (owner-gated; refused when archived or expired).
    pub fn reset(&mut self, now: u64, caller: &Address, budget_id: &String) -> (r: Result<(), Error>)
        requires
            old(self).wf(),
        ensures
            final(self).wf(),
            match owned(old(self).stored(budget_id@), *caller) {
                Err(e) => r == Err::<(), Error>(e) && *final(self) == *old(self),
                Ok(b) => if b.state == ResourceState::Archived {
                    r == Err::<(), Error>(Error::BudgetArchived) && *final(self) == *old(self)
                } else if is_expired_at(b, now) {
                    r == Err::<(), Error>(Error::BudgetExpired) && *final(self) == *old(self)
                } else {
                    r == Ok::<(), Error>(()) && budget_set(
                        *old(self),
                        *final(self),
                        budget_id@,
                        Budget { spent: 0, rollover_credit: 0, window_start: now, ..b },
                    )
                },
            },
    {
        let mut budget = self.require_owner(budget_id, caller)?;
        if budget.state == ResourceState::Archived {
            return Err(Error::BudgetArchived);
        }
        if budget.expires_at != 0 && now >= budget.expires_at {
            return Err(Error::BudgetExpired);
        }
        budget.spent = 0;
        budget.rollover_credit = 0;
        budget.window_start = now;
        self.store(budget_id, budget);
        Ok(())
    }

    /// Force the period transition hook (owner-gated; refused when archived).
    pub fn rollover(&mut self, now: u64, caller: &Address, budget_id: &String) -> (r: Result<(), Error>)
        requires
            old(self).wf(),
        ensures
            final(self).wf(),
            match owned(old(self).stored(budget_id@), *caller) {
                Err(e) => r == Err::<(), Error>(e) && *final(self) == *old(self),
                Ok(b) => if b.state == ResourceState::Archived {
                    r == Err::<(), Error>(Error::BudgetArchived) && *final(self) == *old(self)
                } else {
                    match settled(b, now) {
                        Err(e) => r == Err::<(), Error>(e) && *final(self) == *old(self),
                        Ok((nb, _)) => r == Ok::<(), Error>(()) && budget_set(
                            *old(self),
                            *final(self),
                            budget_id@,
                            nb,
                        ),
                    }
                },
            },
    {
        let mut budget = self.require_owner(budget_id, caller)?;
        if budget.state == ResourceState::Archived {
            return Err(Error::BudgetArchived);
        }
        Self::window_transition(&mut budget, now)?;
        self.store(budget_id, budget);
        Ok(())
    }

    /// Change the limit (owner-gated; not archived) after settling any
    /// pending transition; the new limit may not be below the current spend.
    pub fn set_limit(&mut self, now: u64, caller: &Address, budget_id: &String, new_limit: i128) -> (r:
        Result<(), Error>)
        requires
            old(self).wf(),
        ensures
            final(self).wf(),
            if new_limit < 0 {
                r == Err::<(), Error>(Error::InvalidAmount) && *final(self) == *old(self)
            } else {
                match owned(old(self).stored(budget_id@), *caller) {
                    Err(e) => r == Err::<(), Error>(e) && *final(self) == *old(self),
                    Ok(b) => if b.state == ResourceState::Archived {
                        r == Err::<(), Error>(Error::BudgetArchived) && *final(self) == *old(self)
                    } else {
                        match settled(b, now) {
                            Err(e) => r == Err::<(), Error>(e) && *final(self) == *old(self),
                            Ok((nb, _)) => if new_limit < nb.spent {
                                r == Err::<(), Error>(Error::InvalidInput) && *final(self)
                                    == *old(self)
                            } else {
                                r == Ok::<(), Error>(()) && budget_set(
                                    *old(self),
                                    *final(self),
                                    budget_id@,
                                    Budget { limit: new_limit, ..nb },
                                )
                            },
                        }
                    },
                }
            },
    {
        Self::require_valid_limit(new_limit)?;
        let mut budget = self.require_owner(budget_id, caller)?;
        if budget.state == ResourceState::Archived {
            return Err(Error::BudgetArchived);
        }
        Self::window_transition(&mut budget, now)?;
        if new_limit < budget.spent {
            return Err(Error::InvalidInput);
        }
        budget.limit = new_limit;
        self.store(budget_id, budget);
        Ok(())
    }

    /// Freeze a budget (owner-gated); an archived budget stays archived.
    pub fn freeze(&mut self, caller: &Address, budget_id: &String) -> (r: Result<(), Error>)
        requires
            old(self).wf(),
        ensures
            final(self).wf(),
            match owned(old(self).stored(budget_id@), *caller) {
                Err(e) => r == Err::<(), Error>(e) && *final(self) == *old(self),
                Ok(b) => if b.state == ResourceState::Archived {
                    r == Err::<(), Error>(Error::BudgetArchived) && *final(self) == *old(self)
                } else {
                    r == Ok::<(), Error>(()) && budget_set(
                        *old(self),
                        *final(self),
                        budget_id@,
                        Budget { state: ResourceState::Frozen, ..b },
                    )
                },
            },
    {
        let mut budget = self.require_owner(budget_id, caller)?;
        if budget.state == ResourceState::Archived {
            return Err(Error::BudgetArchived);
        }
        budget.state = ResourceState::Frozen;
        self.store(budget_id, budget);
        Ok(())
    }

    /// Return a frozen budget to active (owner-gated).
    pub fn unfreeze(&mut self, caller: &Address, budget_id: &String) -> (r: Result<(), Error>)
        requires
            old(self).wf(),
        ensures
            final(self).wf(),
            match owned(old(self).stored(budget_id@), *caller) {
                Err(e) => r == Err::<(), Error>(e) && *final(self) == *old(self),
                Ok(b) => if b.state != ResourceState::Frozen {
                    r == Err::<(), Error>(Error::InvalidState) && *final(self) == *old(self)
                } else {
                    r == Ok::<(), Error>(()) && budget_set(
                        *old(self),
                        *final(self),
                        budget_id@,
                        Budget { state: ResourceState::Active, ..b },
                    )
                },
            },
    {
        let mut budget = self.require_owner(budget_id, caller)?;
        if budget.state != ResourceState::Frozen {
            return Err(Error::InvalidState);
        }
        budget.state = ResourceState::Active;
        self.store(budget_id, budget);
        Ok(())
    }

    /// Archive a budget (owner-gated, terminal).
    pub fn archive(&mut self, caller: &Address, budget_id: &String) -> (r: Result<(), Error>)
        requires
            old(self).wf(),
        ensures
            final(self).wf(),
            match owned(old(self).stored(budget_id@), *caller) {
                Err(e) => r == Err::<(), Error>(e) && *final(self) == *old(self),
                Ok(b) => r == Ok::<(), Error>(()) && budget_set(
                    *old(self),
                    *final(self),
                    budget_id@,
                    Budget { state: ResourceState::Archived, ..b },
                ),
            },
    {
        let mut budget = self.require_owner(budget_id, caller)?;
        budget.state = ResourceState::Archived;
        self.store(budget_id, budget);
        Ok(())
    }

    /// The stored budget record.
    pub fn get(&self, budget_id: &String) -> (r: Result<Budget, Error>)
        ensures
            r == (match self.stored(budget_id@) {
                Some(b) => Ok::<Budget, Error>(b),
                None => Err(Error::NotFound),
            }),
    {
        self.load(budget_id)
    }

    /// The transition the hook would settle for `budget_id` at `now`, without
    /// applying it (what a caller announces before a mutating entrypoint).
    pub fn pending_transition(&self, now: u64, budget_id: &String) -> (r: Result<
        Option<Transition>,
        Error,
    >)
        ensures
            match self.stored(budget_id@) {
                None => r == Err::<Option<Transition>, Error>(Error::NotFound),
                Some(b) => match settled(b, now) {
                    Ok((_, t)) => r == Ok::<Option<Transition>, Error>(t),
                    Err(e) => r == Err::<Option<Transition>, Error>(e),
                },
            },
    {
        let mut budget = self.load(budget_id)?;
        Self::window_transition(&mut budget, now)
    }

    /// Move unused allocation between two budgets of the same owner: reduces
    /// `from`'s limit and raises `to`'s. Only `from`'s unspent part may move.
    pub fn transfer_allocation(
        &mut self,
        now: u64,
        caller: &Address,
        from_id: &String,
        to_id: &String,
        amount: i128,
    ) -> (r: Result<(), Error>)
        requires
            old(self).wf(),
        ensures
            final(self).wf(),
            match reallocation(
                old(self).stored(from_id@),
                old(self).stored(to_id@),
                *caller,
                from_id@ == to_id@,
                amount,
                now,
            ) {
                Ok((f, t)) => r == Ok::<(), Error>(()) && final(self).budget_records()
                    == old(self).budget_records().insert(from_id@, f).insert(to_id@, t)
                    && final(self).asset_records() == old(self).asset_records()
                    && final(self).admin_of() == old(self).admin_of(),
                Err(e) => r == Err::<(), Error>(e) && *final(self) == *old(self),
            },
    {
        require_positive_amount(amount)?;
        if *from_id == *to_id {
            return Err(Error::InvalidInput);
        }
        let mut from = self.require_owner(from_id, caller)?;
        let mut to = self.load(to_id)?;
        if !(to.owner == *caller) {
            return Err(Error::Unauthorized);
        }
        Self::require_active(&from)?;
        Self::require_active(&to)?;
        if from.expires_at != 0 && now >= from.expires_at {
            return Err(Error::BudgetExpired);
        }
        if to.expires_at != 0 && now >= to.expires_at {
            return Err(Error::BudgetExpired);
        }
        let available = checked_sub(from.limit, from.spent)?;
        if amount > available {
            return Err(Error::BudgetExceeded);
        }
        from.limit = checked_sub(from.limit, amount)?;
        to.limit = checked_add(to.limit, amount)?;
        self.store(from_id, from);
        self.store(to_id, to);
        Ok(())
    }

    fn require_asset_gates(&self, now: u64, caller: &Address, budget_id: &String) -> (r: Result<
        (),
        Error,
    >)
        ensures
            r == asset_gates(self.stored(budget_id@), *caller, now),
    {
        let budget = self.require_owner(budget_id, caller)?;
        Self::require_active(&budget)?;
        if budget.expires_at != 0 && now >= budget.expires_at {
            return Err(Error::BudgetExpired);
        }
        Ok(())
    }

    /// Set the recurring limit for `token` under a budget (owner-gated,
    /// active, not expired). `window_seconds == 0` keeps it one-shot.
    pub fn set_budget_limit(
        &mut self,
        now: u64,
        caller: &Address,
        budget_id: &String,
        token: &Address,
        limit: i128,
        window_seconds: u64,
    ) -> (r: Result<(), Error>)
        requires
            old(self).wf(),
        ensures
            final(self).wf(),
            if limit < 0 {
                r == Err::<(), Error>(Error::InvalidAmount) && *final(self) == *old(self)
            } else {
                match asset_gates(old(self).stored(budget_id@), *caller, now) {
                    Err(e) => r == Err::<(), Error>(e) && *final(self) == *old(self),
                    Ok(_) => r == Ok::<(), Error>(()) && final(self).asset_stored(budget_id@, token@)
                        == Some(AssetBudget { limit, spent: 0, window_seconds, window_start: now })
                        && final(self).budget_records() == old(self).budget_records()
                        && final(self).admin_of() == old(self).admin_of()
                        && forall|b: Seq<char>, t: Seq<char>|
                        #![trigger final(self).asset_stored(b, t)]
                        (b, t) != (budget_id@, token@) ==> final(self).asset_stored(b, t) == old(self).asset_stored(b, t),
                }
            },
    {
        Self::require_valid_limit(limit)?;
        self.require_asset_gates(now, caller, budget_id)?;
        let a = AssetBudget { limit, spent: 0, window_seconds, window_start: now };
        self.store_asset(budget_id, token, a);
        Ok(())
    }

    fn asset_window_transition(a: AssetBudget, now: u64) -> (r: AssetBudget)
        ensures
            r == asset_settled(a, now),
    {
        if a.window_seconds == 0 {
            return a;
        }
        let elapsed = now.saturating_sub(a.window_start);
        if elapsed < a.window_seconds {
            return a;
        }
        let periods = elapsed / a.window_seconds;
        assert(periods * a.window_seconds <= elapsed) by (nonlinear_arith)
            requires
                periods == elapsed / a.window_seconds,
                a.window_seconds > 0,
        ;
        AssetBudget {
            spent: 0,
            window_start: a.window_start + periods * a.window_seconds,
            ..a
        }
    }

    /// Check and record a spend of `amount` of `token` against its per-asset
    /// limit, settling the limit's window first.
    pub fn check_and_record_spend(
        &mut self,
        now: u64,
        caller: &Address,
        budget_id: &String,
        token: &Address,
        amount: i128,
    ) -> (r: Result<(), Error>)
        requires
            old(self).wf(),
        ensures
            final(self).wf(),
            if amount <= 0 {
                r == Err::<(), Error>(Error::InvalidAmount) && *final(self) == *old(self)
            } else {
                match asset_gates(old(self).stored(budget_id@), *caller, now) {
                    Err(e) => r == Err::<(), Error>(e) && *final(self) == *old(self),
                    Ok(_) => match old(self).asset_stored(budget_id@, token@) {
                        None => r == Err::<(), Error>(Error::AssetNotAuthorized) && *final(self)
                            == *old(self),
                        Some(a) => match asset_debited(a, amount, now) {
                            Err(e) => r == Err::<(), Error>(e) && *final(self) == *old(self),
                            Ok(na) => r == Ok::<(), Error>(()) && final(self).asset_stored(
                                budget_id@,
                                token@,
                            ) == Some(na) && final(self).budget_records()
                                == old(self).budget_records() && final(self).admin_of()
                                == old(self).admin_of() && forall|b: Seq<char>, t: Seq<char>|
                                #![trigger final(self).asset_stored(b, t)]
                                (b, t) != (budget_id@, token@) ==> final(self).asset_stored(b, t)
                                    == old(self).asset_stored(b, t),
                        },
                    },
                }
            },
    {
        require_positive_amount(amount)?;
        self.require_asset_gates(now, caller, budget_id)?;
        let a = match self.load_asset(budget_id, token) {
            Some(a) => a,
            None => return Err(Error::AssetNotAuthorized),
        };
        let mut a = Self::asset_window_transition(a, now);
        if a.window_seconds > 0 && now >= a.window_start.saturating_add(a.window_seconds) {
            a.spent = 0;
            a.window_start = now;
        }
        let new_spent = checked_add(a.spent, amount)?;
        if new_spent > a.limit {
            return Err(Error::BudgetExceeded);
        }
        a.spent = new_spent;
        self.store_asset(budget_id, token, a);
        Ok(())
    }

    /// The per-asset limit as of the current window; a due reset is settled
    /// and persisted.
    pub fn get_asset_budget(&mut self, now: u64, budget_id: &String, token: &Address) -> (r: Result<
        AssetBudget,
        Error,
    >)
        requires
            old(self).wf(),
        ensures
            final(self).wf(),
            match old(self).asset_stored(budget_id@, token@) {
                None => r == Err::<AssetBudget, Error>(Error::AssetNotAuthorized) && *final(self)
                    == *old(self),
                Some(a) => r == Ok::<AssetBudget, Error>(asset_settled(a, now)) && final(self).asset_stored(budget_id@, token@) == Some(asset_settled(a, now)) && final(self).budget_records() == old(self).budget_records() && final(self).admin_of()
                    == old(self).admin_of() && forall|b: Seq<char>, t: Seq<char>|
                    #![trigger final(self).asset_stored(b, t)]
                    (b, t) != (budget_id@, token@) ==> final(self).asset_stored(b, t) == old(self).asset_stored(b, t),
            },
    {
        let a = match self.load_asset(budget_id, token) {
            Some(a) => a,
            None => return Err(Error::AssetNotAuthorized),
        };
        let a = Self::asset_window_transition(a, now);
        self.store_asset(budget_id, token, a);
        Ok(a)
    }

    /// Remaining allowance for `token` in its current window.
    pub fn asset_remaining(&mut self, now: u64, budget_id: &String, token: &Address) -> (r: Result<
        i128,
        Error,
    >)
        requires
            old(self).wf(),
        ensures
            final(self).wf(),
            match old(self).asset_stored(budget_id@, token@) {
                None => r == Err::<i128, Error>(Error::AssetNotAuthorized),
                Some(a) => r == spec_checked_sub(
                    asset_settled(a, now).limit,
                    asset_settled(a, now).spent,
                ),
            },
    {
        let a = self.get_asset_budget(now, budget_id, token)?;
        checked_sub(a.limit, a.spent)
    }

    /// Clamp an accumulated rollover credit to its cap (0 = uncapped).
    pub fn apply_cap(credit: i128, cap: i128) -> (r: i128)
        ensures
            r == capped(credit, cap),
    {
        if cap != 0 && credit > cap {
            cap
        } else {
            credit
        }
    }

    /// The window length implied by a budget's period.
    fn window_of(budget: &Budget) -> (r: Option<u64>)
        ensures
            r == window_len(*budget),
    {
        match budget.period {
            Period::OneShot => None,
            Period::Daily => Some(SECONDS_PER_DAY),
            Period::Weekly => Some(SECONDS_PER_WEEK),
            Period::Monthly => Some(SECONDS_PER_MONTH),
            Period::Custom => {
                if budget.period_seconds == 0 {
                    None
                } else {
                    Some(budget.period_seconds)
                }
            },
        }
    }

    /// `bps` basis points of `limit` without an overflowing intermediate.
    fn percentage_of_limit(limit: i128, bps: i128) -> (r: Result<i128, Error>)
        ensures
            r == percentage_of(limit, bps),
    {
        if bps == 0 {
            return Ok(0);
        }
        let q = checked_div(limit, BPS_DENOMINATOR)?;
        let r = checked_rem(limit, BPS_DENOMINATOR)?;
        let whole = checked_mul(q, bps)?;
        let part = checked_div(checked_mul(r, bps)?, BPS_DENOMINATOR)?;
        checked_add(whole, part)
    }

    /// The two-layer rollover ceiling: absolute cap intersected with the
    /// percentage cap.
    fn effective_rollover_cap(budget: &Budget) -> (r: Result<i128, Error>)
        ensures
            r == effective_cap(*budget),
    {
        let pct_cap = Self::percentage_of_limit(budget.limit, budget.rollover_max_bps)?;
        let c = budget.rollover_cap;
        if c == 0 {
            Ok(pct_cap)
        } else if pct_cap == 0 {
            Ok(c)
        } else if c <= pct_cap {
            Ok(c)
        } else {
            Ok(pct_cap)
        }
    }

    /// Add the allowance of `idle` fully unspent periods to a credit.
    fn accrue_idle_periods(credit: i128, budget: &Budget, idle: i128) -> (r: Result<i128, Error>)
        ensures
            r == accrued(credit, *budget, idle),
    {
        if budget.rollover_cap != 0 {
            return Ok(saturating_add(credit, saturating_mul(budget.limit, idle)));
        }
        checked_add(credit, checked_mul(budget.limit, idle)?)
    }

    /// The recurring-allowance hook: settles every window transition due at
    /// `now` in place, or fails with `BudgetExpired` / `Overflow`.
    fn window_transition(budget: &mut Budget, now: u64) -> (r: Result<Option<Transition>, Error>)
        ensures
            match settled(*old(budget), now) {
                Ok((nb, t)) => r == Ok::<Option<Transition>, Error>(t) && *final(budget) == nb,
                Err(e) => r == Err::<Option<Transition>, Error>(e),
            },
    {
        if budget.expires_at != 0 && now >= budget.expires_at {
            return Err(Error::BudgetExpired);
        }
        let window = match Self::window_of(budget) {
            Some(w) => w,
            None => return Ok(None),
        };
        let end = match budget.window_start.checked_add(window) {
            Some(e) => e,
            None => return Err(Error::Overflow),
        };
        if now < end {
            return Ok(None);
        }
        let elapsed = now - budget.window_start;
        let periods_u: u64 = elapsed / window;
        assert(periods_u * window <= elapsed) by (nonlinear_arith)
            requires
                periods_u == elapsed / window,
                window > 0,
        ;
        let periods = periods_u as i128;
        let capacity = checked_add(budget.limit, budget.rollover_credit)?;
        let leftover = checked_sub(capacity, budget.spent)?;
        let credit = if budget.rollover_enabled {
            let mut credit = leftover;
            if periods > 1 {
                credit = Self::accrue_idle_periods(credit, budget, periods - 1)?;
            }
            Self::apply_cap(credit, Self::effective_rollover_cap(budget)?)
        } else {
            0
        };
        let spent = budget.spent;
        let deficit_case = spent > capacity && budget.allow_deficit;
        let mut amount = leftover;
        if deficit_case {
            let deficit = checked_sub(spent, capacity)?;
            budget.deficit_amount = checked_add(budget.deficit_amount, deficit)?;
            budget.rollover_credit = 0;
            amount = deficit;
        } else {
            budget.rollover_credit = credit;
        }
        budget.spent = 0;
        budget.window_start = budget.window_start + periods_u * window;
        let action = if deficit_case {
            TransitionAction::Deficit
        } else if budget.rollover_enabled {
            TransitionAction::Rollover
        } else {
            TransitionAction::Reset
        };
        Ok(Some(Transition { action, amount, leftover }))
    }
}

} // verus!
