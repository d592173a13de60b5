//! Properties of the recurring-allowance rules that span calls: exactness of
//! the percentage cap, boundedness of rollover, path independence of the
//! lazily evaluated window transition, validity of every stored record,
//! conservation of the total limit when allocation moves between budgets,
//! and a release undoing the consume before it.
use vstd::prelude::*;
use vstd::arithmetic::div_mod::{lemma_fundamental_div_mod, lemma_div_multiples_vanish_fancy};
use crate::budget::{
    budget_ok, consume_outcome, is_expired_at, owned, reallocation, recurrence, release_outcome,
    BudgetContract,
    accrued, capped, effective_cap, percentage_of, rolled_credit, settled, window_len, Budget,
};
use crate::shared::{Address, Error, ResourceState, trunc_div, trunc_rem, spec_checked_sub};

verus! {

/// The percentage cap is exact: for a non-negative limit and a percentage
/// below 100%, `bps` basis points of `limit` is exactly
/// `floor(limit * bps / 10_000)`, never an overflow, and never more than the
/// limit itself.
pub proof fn lemma_percentage_exact(limit: i128, bps: i128)
    requires
        0 <= limit,
        0 <= bps < 10_000,
    ensures
        percentage_of(limit, bps) == Ok::<i128, Error>((limit * bps / 10_000) as i128),
        0 <= limit * bps / 10_000 <= limit,
{
    let d: int = 10_000;
    let l = limit as int;
    let p = bps as int;
    assert(l * p >= 0) by (nonlinear_arith)
        requires
            l >= 0,
            p >= 0,
    ;
    assert(l * p <= l * d) by (nonlinear_arith)
        requires
            l >= 0,
            0 <= p < d,
    ;
    assert((l * d) / d == l) by {
        lemma_div_multiples_vanish_fancy(l, 0, d);
        assert(d * l + 0 == l * d) by (nonlinear_arith);
    }
    assert(l * p / d <= l) by (nonlinear_arith)
        requires
            0 <= l * p <= l * d,
            (l * d) / d == l,
            d > 0,
    ;
    if bps != 0 {
        let q = l / d;
        let r = l % d;
        lemma_fundamental_div_mod(l, d);
        assert(trunc_div(l, d) == q);
        assert(trunc_rem(l, d) == r);
        assert(0 <= q && 0 <= r < d);
        assert(0 <= q * p <= l) by (nonlinear_arith)
            requires
                0 <= q,
                0 <= p < d,
                l == d * q + r,
                0 <= r,
        ;
        assert(0 <= r * p < d * d) by (nonlinear_arith)
            requires
                0 <= r < d,
                0 <= p < d,
        ;
        let b = r * p;
        lemma_fundamental_div_mod(b, d);
        assert(trunc_div(b, d) == b / d);
        assert(l * p == d * (q * p + b / d) + b % d) by (nonlinear_arith)
            requires
                l == d * q + r,
                b == r * p,
                b == d * (b / d) + b % d,
        ;
        lemma_div_multiples_vanish_fancy(q * p + b / d, b % d, d);
        assert(0 <= b / d < d) by (nonlinear_arith)
            requires
                0 <= b < d * d,
                b == d * (b / d) + b % d,
                0 <= b % d < d,
        ;
    }
}

/// The effective rollover cap is never looser than either configured bound:
/// it is at most the absolute cap when one is set, at most the percentage of
/// the limit when one is set, and non-negative.
pub proof fn lemma_effective_cap_is_tightest(b: Budget)
    requires
        b.limit >= 0,
        b.rollover_cap >= 0,
        0 <= b.rollover_max_bps < 10_000,
    ensures
        effective_cap(b) is Ok,
        effective_cap(b)->Ok_0 >= 0,
        b.rollover_cap != 0 ==> effective_cap(b)->Ok_0 <= b.rollover_cap,
        b.rollover_max_bps != 0 && b.limit * b.rollover_max_bps / 10_000 != 0
            ==> effective_cap(b)->Ok_0 <= b.limit * b.rollover_max_bps / 10_000,
        b.rollover_cap == 0 && b.rollover_max_bps == 0 ==> effective_cap(b)->Ok_0 == 0,
{
    lemma_percentage_exact(b.limit, b.rollover_max_bps);
}


/// Accrual of idle windows is exact when the totals fit: saturation never
/// kicks in and checked arithmetic never fails.
proof fn lemma_accrued_exact(x: i128, b: Budget, idle: i128)
    requires
        0 <= idle,
        0 <= b.limit,
        b.limit * idle <= i128::MAX,
        x + b.limit * idle <= i128::MAX,
    ensures
        accrued(x, b, idle) == Ok::<i128, Error>((x + b.limit * idle) as i128),
{
    assert(0 <= b.limit * idle) by (nonlinear_arith)
        requires
            0 <= idle,
            0 <= b.limit,
    ;
}

/// Clamping once after adding a non-negative amount gives the same result as
/// clamping before and after.
proof fn lemma_capped_absorbs(x: i128, y: int, c: i128)
    requires
        0 <= y,
        x + y <= i128::MAX,
        capped(x, c) + y <= i128::MAX,
    ensures
        capped((capped(x, c) + y) as i128, c) == capped((x + y) as i128, c),
{
}

/// A percentage of a non-negative limit at a non-negative rate is never
/// negative.
proof fn lemma_percentage_nonneg(limit: i128, bps: i128)
    requires
        0 <= limit,
        0 <= bps,
        percentage_of(limit, bps) is Ok,
    ensures
        percentage_of(limit, bps)->Ok_0 >= 0,
{
    if bps != 0 {
        let q = trunc_div(limit as int, 10_000);
        let r = trunc_rem(limit as int, 10_000);
        assert(q >= 0 && r >= 0);
        assert(q * bps >= 0 && r * bps >= 0) by (nonlinear_arith)
            requires
                q >= 0,
                r >= 0,
                bps >= 0,
        ;
    }
}

/// The recurring-allowance hook is path independent: settling a budget at
/// `t1` and then again at a later `t2` yields exactly the record obtained by
/// settling once at `t2`. A budget left untouched for several windows
/// therefore lands in the state it would have reached had it been visited at
/// every boundary, and lazy evaluation can neither skip nor duplicate a
/// reset. It fails where settling books a deficit while rollover is enabled
/// (a later visit would then roll the fresh window's limit over), and for a
/// negative limit, rollover cap or rate; those are left out, as are totals
/// that do not fit the machine integers.
pub proof fn lemma_settlement_path_independent(b: Budget, t1: u64, t2: u64)
    requires
        t1 <= t2,
        0 <= b.limit,
        0 <= b.rollover_cap,
        0 <= b.rollover_max_bps,
        !(b.spent > b.limit + b.rollover_credit && b.allow_deficit && b.rollover_enabled),
        match window_len(b) {
            Some(w) => t2 + w <= u64::MAX && b.limit * ((t2 - b.window_start) / (w as int)) <= i128::MAX
                && b.limit + b.rollover_credit - b.spent + b.limit * ((t2 - b.window_start) / (
            w as int)) <= i128::MAX,
            None => true,
        },
        settled(b, t2) is Ok,
    ensures
        settled(b, t1) is Ok,
        settled(settled(b, t1)->Ok_0.0, t2) is Ok,
        settled(settled(b, t1)->Ok_0.0, t2)->Ok_0.0 == settled(b, t2)->Ok_0.0,
{
    if window_len(b) is None {
        return;
    }
    let w = window_len(b)->0 as int;
    let ws = b.window_start as int;
    if t1 < ws + w {
        return;
    }
    let l = b.limit as int;
    let p = (t2 - ws) / w;
    let p1 = (t1 - ws) / w;
    lemma_fundamental_div_mod(t1 - ws, w);
    lemma_fundamental_div_mod(t2 - ws, w);
    assert(p1 >= 1 && p >= p1) by {
        vstd::arithmetic::div_mod::lemma_div_is_ordered(t1 - ws, t2 - ws, w);
        lemma_div_multiples_vanish_fancy(1, 0, w);
        vstd::arithmetic::div_mod::lemma_div_is_ordered(w, t1 - ws, w);
    }
    assert(0 <= l * (p - 1) && l * (p1 - 1) <= l * (p - 1) && l * (p1 - 1) >= 0 && l * p1 <= l
        * p && l * (p - 1) <= l * p) by (nonlinear_arith)
        requires
            l >= 0,
            1 <= p1 <= p,
    ;
    assert(0 <= p1 <= p <= t2);
    // What settling once at `t2` required of the arithmetic.
    assert(crate::shared::spec_checked_add(b.limit, b.rollover_credit) is Ok);
    let capacity = b.limit + b.rollover_credit;
    assert(crate::shared::spec_checked_sub(capacity as i128, b.spent) is Ok);
    let leftover = capacity - b.spent;
    assert(rolled_credit(b, leftover as i128, p as i128) is Ok);
    let deficit_case = b.spent > capacity && b.allow_deficit;
    assert(!b.rollover_enabled || !deficit_case);
    if b.rollover_enabled {
        assert(effective_cap(b) is Ok);
        lemma_percentage_nonneg(b.limit, b.rollover_max_bps);
    }
    let cap = effective_cap(b)->Ok_0;
    assert(b.rollover_enabled ==> cap >= 0);
    if b.rollover_enabled {
        if p1 > 1 {
            lemma_accrued_exact(leftover as i128, b, (p1 - 1) as i128);
        }
        if p > 1 {
            lemma_accrued_exact(leftover as i128, b, (p - 1) as i128);
        }
    }
    let x1 = leftover + l * (p1 - 1);
    let c1: int = if b.rollover_enabled {
        capped(x1 as i128, cap) as int
    } else {
        0
    };
    assert(((p1 as i128) - 1) as i128 == (p1 - 1) as i128);
    assert(p1 == 1 ==> x1 == leftover) by (nonlinear_arith)
        requires
            x1 == leftover + l * (p1 - 1),
    ;
    assert(rolled_credit(b, leftover as i128, p1 as i128) == Ok::<i128, Error>(c1 as i128));
    let ws1 = ws + p1 * w;
    assert(ws1 <= t1) by (nonlinear_arith)
        requires
            t1 - ws == w * p1 + (t1 - ws) % w,
            0 <= (t1 - ws) % w,
            ws1 == ws + p1 * w,
    ;
    assert(settled(b, t1) is Ok);
    let b1 = settled(b, t1)->Ok_0.0;
    let credit1: int = if deficit_case {
        0
    } else {
        c1
    };
    assert(b1.rollover_credit == credit1);
    assert(b1.spent == 0);
    assert(b1.window_start == ws1);
    // The first visit never leaves a negative capacity to book as a deficit.
    assert(b.rollover_enabled && !deficit_case && b.allow_deficit ==> leftover >= 0 && x1 >= 0
        && c1 >= 0);
    assert(b.rollover_enabled ==> c1 <= x1 || (c1 == cap && cap < x1));
    if t2 < ws1 + w {
        assert(p == p1) by {
            assert(t2 - ws == w * p1 + (t2 - ws1)) by (nonlinear_arith)
                requires
                    ws1 == ws + p1 * w,
            ;
            lemma_div_multiples_vanish_fancy(p1, t2 - ws1, w);
        }
        assert(settled(b, t2)->Ok_0.0 == b1);
        return;
    }
    let p2 = (t2 - ws1) / w;
    lemma_fundamental_div_mod(t2 - ws1, w);
    assert(p == p1 + p2 && p2 >= 1) by {
        assert(t2 - ws == w * (p1 + p2) + (t2 - ws1) % w) by (nonlinear_arith)
            requires
                ws1 == ws + p1 * w,
                t2 - ws1 == w * p2 + (t2 - ws1) % w,
        ;
        lemma_div_multiples_vanish_fancy(p1 + p2, (t2 - ws1) % w, w);
        lemma_div_multiples_vanish_fancy(1, 0, w);
        vstd::arithmetic::div_mod::lemma_div_is_ordered(w, t2 - ws1, w);
    }
    assert(l * (p1 - 1) + l * p2 == l * (p - 1) && l * p2 >= 0 && l * (p2 - 1) >= 0 && l + l * (
    p2 - 1) == l * p2 && l * (p2 - 1) <= l * p && l * p2 <= l * p) by (nonlinear_arith)
        requires
            p == p1 + p2,
            p2 >= 1,
            p1 >= 1,
            l >= 0,
    ;
    let capacity1 = l + credit1;
    assert(!(0 > capacity1 && b1.allow_deficit));
    assert(capacity1 + l * (p2 - 1) <= i128::MAX);
    if b.rollover_enabled && p2 > 1 {
        lemma_accrued_exact(capacity1 as i128, b1, (p2 - 1) as i128);
    }
    if b.rollover_enabled {
        lemma_capped_absorbs(x1 as i128, l * p2, cap);
    }
    assert(effective_cap(b1) == effective_cap(b));
    assert(((p2 as i128) - 1) as i128 == (p2 - 1) as i128);
    assert(p2 == 1 ==> capacity1 + l * (p2 - 1) == capacity1) by (nonlinear_arith);
    assert(((p as i128) - 1) as i128 == (p - 1) as i128);
    let credit2: int = if b.rollover_enabled {
        capped((capacity1 + l * (p2 - 1)) as i128, cap) as int
    } else {
        0
    };
    let direct: int = if b.rollover_enabled {
        capped((leftover + l * (p - 1)) as i128, cap) as int
    } else {
        0
    };
    assert(crate::shared::spec_checked_add(b1.limit, b1.rollover_credit) == Ok::<i128, Error>(
        capacity1 as i128,
    ));
    assert(crate::shared::spec_checked_sub(capacity1 as i128, 0) == Ok::<i128, Error>(
        capacity1 as i128,
    ));
    assert(rolled_credit(b1, capacity1 as i128, p2 as i128) == Ok::<i128, Error>(credit2 as i128));
    assert(rolled_credit(b, leftover as i128, p as i128) == Ok::<i128, Error>(direct as i128));
    assert(credit2 == direct) by {
        if b.rollover_enabled {
            assert(capacity1 + l * (p2 - 1) == c1 + l * p2);
            assert(leftover + l * (p - 1) == x1 + l * p2);
        }
    }
    assert(ws1 + p2 * w == ws + p * w) by (nonlinear_arith)
        requires
            ws1 == ws + p1 * w,
            p == p1 + p2,
    ;
    assert(settled(b1, t2) is Ok);
    assert(settled(b1, t2)->Ok_0.0 == settled(b, t2)->Ok_0.0);
}


/// Without deficits, a successful debit never lets spending pass the
/// window's capacity (base limit plus carried credit), and the reported
/// remaining allowance is exactly what is left of it.
pub proof fn lemma_consume_within_capacity(stored: Option<Budget>, caller: Address, amount: i128, now: u64)
    requires
        stored is Some,
        !stored->0.allow_deficit,
        consume_outcome(stored, caller, amount, now) is Ok,
    ensures
        ({
            let (nb, rem) = consume_outcome(stored, caller, amount, now)->Ok_0;
            &&& nb.spent <= nb.limit + nb.rollover_credit
            &&& rem == nb.limit + nb.rollover_credit - nb.spent
            &&& rem >= 0
        }),
{
}

/// With rollover enabled and an absolute cap configured, a settled window
/// never carries more credit than the cap.
pub proof fn lemma_rollover_credit_bounded(b: Budget, now: u64)
    requires
        0 <= b.rollover_cap,
        b.rollover_enabled,
        b.rollover_cap != 0,
        settled(b, now) is Ok,
        settled(b, now)->Ok_0.1 is Some,
    ensures
        settled(b, now)->Ok_0.0.rollover_credit <= b.rollover_cap,
{
    assert(effective_cap(b) is Ok ==> effective_cap(b)->Ok_0 <= b.rollover_cap);
}

/// Archiving is terminal: once a budget is archived, no spend, release,
/// recurrence change or freeze can act on it, and neither unfreezing nor
/// archiving again can revive it.
pub proof fn lemma_archive_is_terminal(
    c: BudgetContract,
    id: Seq<char>,
    caller: Address,
    amount: i128,
    now: u64,
    period: crate::budget::Period,
    period_seconds: u64,
    rollover_enabled: bool,
    rollover_cap: i128,
    rollover_max_bps: i128,
)
    requires
        c.stored(id) is Some,
        c.stored(id)->0.state == ResourceState::Archived,
    ensures
        consume_outcome(c.stored(id), caller, amount, now) is Err,
        release_outcome(c.stored(id), caller, amount, now) is Err,
        recurrence(
            c.stored(id),
            caller,
            period,
            period_seconds,
            rollover_enabled,
            rollover_cap,
            rollover_max_bps,
            now,
        ) is Err,
        owned(c.stored(id), caller) is Ok ==> owned(c.stored(id), caller)->Ok_0.state
            != ResourceState::Frozen,
{
}

/// Every budget a valid ledger stores is itself valid: its limit, spend and
/// carried deficit are non-negative.
pub proof fn lemma_stored_budget_valid(c: BudgetContract, id: Seq<char>)
    requires
        c.wf(),
        c.stored(id) is Some,
    ensures
        budget_ok(c.stored(id)->0),
{
    assert(c.budget_records().contains_key(id));
}

/// Moving allocation between two of the caller's budgets conserves their
/// total limit: when both are active and unexpired, the amount is positive
/// and within what the source has not spent, and the destination's new limit
/// fits, the move succeeds, the source's limit drops by the amount, the
/// destination's rises by it, and nothing else about either record changes.
pub proof fn lemma_transfer_conserves_total(
    c: BudgetContract,
    from_id: Seq<char>,
    to_id: Seq<char>,
    caller: Address,
    amount: i128,
    now: u64,
)
    requires
        c.wf(),
        from_id != to_id,
        c.stored(from_id) is Some,
        c.stored(to_id) is Some,
        c.stored(from_id)->0.owner@ == caller@,
        c.stored(to_id)->0.owner@ == caller@,
        c.stored(from_id)->0.state == ResourceState::Active,
        c.stored(to_id)->0.state == ResourceState::Active,
        !is_expired_at(c.stored(from_id)->0, now),
        !is_expired_at(c.stored(to_id)->0, now),
        0 < amount <= c.stored(from_id)->0.limit - c.stored(from_id)->0.spent,
        c.stored(to_id)->0.limit + amount <= i128::MAX,
    ensures
        ({
            let f = c.stored(from_id)->0;
            let t = c.stored(to_id)->0;
            let r = reallocation(c.stored(from_id), c.stored(to_id), caller, from_id == to_id, amount, now);
            &&& r is Ok
            &&& r->Ok_0.0 == Budget { limit: (f.limit - amount) as i128, ..f }
            &&& r->Ok_0.1 == Budget { limit: (t.limit + amount) as i128, ..t }
            &&& r->Ok_0.0.limit + r->Ok_0.1.limit == f.limit + t.limit
        }),
{
    lemma_stored_budget_valid(c, from_id);
    lemma_stored_budget_valid(c, to_id);
    let f = c.stored(from_id)->0;
    assert(spec_checked_sub(f.limit, f.spent) == Ok::<i128, Error>((f.limit - f.spent) as i128));
    assert(spec_checked_sub(f.limit, amount) == Ok::<i128, Error>((f.limit - amount) as i128));
}

/// Releasing what was just consumed undoes it: at the same time, a release
/// of the consumed amount succeeds, restores the spend to what it was right
/// after that call's window transition, and reports the remaining allowance
/// grown by exactly the amount. The one exception is a recurring window whose
/// next boundary no longer fits in a timestamp, where the release overflows.
pub proof fn lemma_release_undoes_consume(
    c: BudgetContract,
    id: Seq<char>,
    caller: Address,
    amount: i128,
    now: u64,
)
    requires
        c.wf(),
        consume_outcome(c.stored(id), caller, amount, now) is Ok,
        match window_len(c.stored(id)->0) {
            Some(w) => settled(c.stored(id)->0, now)->Ok_0.0.window_start + w <= u64::MAX,
            None => true,
        },
    ensures
        ({
            let (b1, rem) = consume_outcome(c.stored(id), caller, amount, now)->Ok_0;
            release_outcome(Some(b1), caller, amount, now) == Ok::<(Budget, i128), Error>(
                (settled(c.stored(id)->0, now)->Ok_0.0, (rem + amount) as i128),
            )
        }),
{
    let b = c.stored(id)->0;
    lemma_stored_budget_valid(c, id);
    let nb = settled(b, now)->Ok_0.0;
    assert(nb.spent >= 0);
    let (b1, rem) = consume_outcome(c.stored(id), caller, amount, now)->Ok_0;
    assert(b1 == Budget { spent: (nb.spent + amount) as i128, ..nb });
    match window_len(b) {
        Some(w) => {
            if now >= b.window_start + w {
                let periods = (now - b.window_start) / (w as int);
                assert(0 <= periods * w <= now - b.window_start) by (nonlinear_arith)
                    requires
                        w > 0,
                        periods == (now - b.window_start) / (w as int),
                        now >= b.window_start,
                ;
                assert(nb.window_start == b.window_start + periods * w);
                assert(now - nb.window_start < w) by (nonlinear_arith)
                    requires
                        w > 0,
                        periods == (now - b.window_start) / (w as int),
                        nb.window_start == b.window_start + periods * w,
                        now >= b.window_start,
                ;
            }
            assert(settled(b1, now) == Ok::<(Budget, Option<crate::budget::Transition>), Error>((b1, None)));
        },
        None => {},
    }
}

} // verus!
