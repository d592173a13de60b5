//! Properties of the escrow rules that span calls: release and refund never
//! overlap in time, a settled escrow settles no more, no settlement asks for
//! more than the escrow still holds, vesting is bounded and monotone, and
//! the refund window never closes before it opens.
use vstd::prelude::*;
use crate::escrow::{
    cancelling, claimable, closes_at_of, grace_end_of, overriding, payouts, reclaiming, releasing,
    remainder_payouts, share, sum_amounts, vested, window_closed, Escrow, EscrowContract,
    PublicKey, ReleaseSchedule, ReleaseType,
};
use crate::shared::{spec_checked_mul, trunc_div, Address, AssetAmount, Error, Movement};

verus! {

/// The total amount that a list of movements sends out of custody.
pub open spec fn paid_out(ms: Seq<Movement>) -> int
    decreases ms.len(),
{
    if ms.len() == 0 {
        0
    } else {
        paid_out(ms.drop_last()) + match ms.last() {
            Movement::Payout { amount, .. } => amount as int,
            Movement::Deposit { .. } => 0int,
        }
    }
}

/// The exact sum of the listed amounts.
pub open spec fn amount_total(assets: Seq<AssetAmount>) -> int
    decreases assets.len(),
{
    if assets.len() == 0 {
        0
    } else {
        amount_total(assets.drop_last()) + assets.last().amount
    }
}

/// Release closes exactly when refunds open: the arbiter's release succeeds
/// only strictly before `deadline + grace_period`, and every reclaim path of
/// the sender succeeds only from that instant on, so at no instant can both
/// settle the same escrow.
pub proof fn lemma_release_closes_when_refunds_open(
    e: Escrow,
    arbiter: Address,
    sender: Address,
    has_milestones: bool,
    release_amount: i128,
    now: u64,
    check_deadline: bool,
    early: Error,
)
    ensures
        releasing(e, arbiter, has_milestones, release_amount, now) is Ok ==> now < grace_end_of(e),
        reclaiming(e, sender, now, check_deadline, early) is Ok ==> now >= grace_end_of(e),
        !(releasing(e, arbiter, has_milestones, release_amount, now) is Ok && reclaiming(
            e,
            sender,
            now,
            check_deadline,
            early,
        ) is Ok),
{
}

/// Whether no settlement path can act on `e` any more: release, override,
/// cancellation and every reclaim path all fail, whoever asks and whenever.
pub open spec fn settled_for_good(e: Escrow) -> bool {
    &&& forall|c: Address, hm: bool, amt: i128, now: u64| #[trigger]
        releasing(e, c, hm, amt, now) is Err
    &&& forall|n: u64, keys: Seq<PublicKey>, now: u64| #[trigger] overriding(e, n, keys, now) is Err
    &&& forall|c: Address, now: u64| #[trigger] cancelling(e, c, now) is Err
    &&& forall|c: Address, now: u64, cd: bool, early: Error| #[trigger]
        reclaiming(e, c, now, cd, early) is Err
}

/// An escrow settles once: after a successful release, override,
/// cancellation or reclaim, no settlement path pays out of it again (a
/// second release or refund is refused without a second payout).
pub proof fn lemma_settlement_is_final(
    e: Escrow,
    caller: Address,
    has_milestones: bool,
    release_amount: i128,
    nonce: u64,
    keys: Seq<PublicKey>,
    now: u64,
    check_deadline: bool,
    early: Error,
)
    ensures
        releasing(e, caller, has_milestones, release_amount, now) matches Ok((ne, _))
            ==> settled_for_good(ne),
        overriding(e, nonce, keys, now) matches Ok((ne, _)) ==> settled_for_good(ne),
        cancelling(e, caller, now) matches Ok((ne, _)) ==> settled_for_good(ne),
        reclaiming(e, caller, now, check_deadline, early) matches Ok((ne, _)) ==> settled_for_good(
            ne,
        ),
{
}

/// One asset's pro-rated share never exceeds its exact fraction: for a
/// non-negative amount and `0 <= num`, `den > 0`, a successful share `x`
/// satisfies `0 <= x` and `x * den <= amount * num`.
proof fn lemma_share_bound(amount: i128, num: i128, den: i128)
    requires
        0 <= amount,
        0 <= num,
        0 < den,
    ensures
        share(amount, num, den) matches Ok(x) ==> 0 <= x && x * den <= amount * num,
{
    if let Ok(m) = spec_checked_mul(amount, num) {
        assert(m == amount * num);
        assert(m >= 0) by (nonlinear_arith)
            requires
                m == amount * num,
                amount >= 0,
                num >= 0,
        ;
        if m > 0 {
            let q = (m as int) / (den as int);
            assert(trunc_div(m as int, den as int) == q);
            assert(0 <= q && q * den <= m) by (nonlinear_arith)
                requires
                    q == (m as int) / (den as int),
                    m > 0,
                    den > 0,
            ;
        }
    }
}

/// Pro-rated payouts never exceed the fraction they are cut from: with
/// non-negative amounts, `0 <= num` and `den > 0`, the payouts of a
/// successful run total at most `num * amount_total(assets) / den`
/// (multiplied out: `paid * den <= num * total`), and none is negative.
proof fn lemma_payouts_bound(assets: Seq<AssetAmount>, num: i128, den: i128, to: Address)
    requires
        forall|i: int| 0 <= i < assets.len() ==> #[trigger] assets[i].amount >= 0,
        0 <= num,
        0 < den,
    ensures
        payouts(assets, num, den, to) matches Ok(ms) ==> paid_out(ms) * den <= num
            * amount_total(assets) && paid_out(ms) >= 0,
    decreases assets.len(),
{
    if assets.len() > 0 {
        let init = assets.drop_last();
        assert forall|i: int| 0 <= i < init.len() implies #[trigger] init[i].amount >= 0 by {
            assert(init[i] == assets[i]);
        }
        lemma_payouts_bound(init, num, den, to);
        let a = assets.last().amount;
        assert(a == assets[assets.len() - 1].amount);
        lemma_share_bound(a, num, den);
        if let Ok(ms) = payouts(assets, num, den, to) {
            if let Ok(prev) = payouts(init, num, den, to) {
                if let Ok(x) = share(a, num, den) {
                    let p = paid_out(prev);
                    let t = amount_total(init);
                    assert(p * den <= num * t && p >= 0);
                    assert(x * den <= a * num && x >= 0);
                    if x > 0 {
                        let pushed = prev.push(
                            Movement::Payout { asset: assets.last().asset, to, amount: x },
                        );
                        assert(pushed.drop_last() =~= prev);
                        assert(paid_out(ms) == p + x);
                    } else {
                        assert(paid_out(ms) == p);
                    }
                    assert(paid_out(ms) * den <= num * (t + a)) by (nonlinear_arith)
                        requires
                            p * den <= num * t,
                            x * den <= a * num,
                            paid_out(ms) == p + x || (paid_out(ms) == p && x <= 0),
                            x >= 0,
                            den > 0,
                            num >= 0,
                            a >= 0,
                    ;
                }
            }
        }
    }
}

/// No settlement asks for more than the escrow still holds: when the
/// escrow's assets are non-negative and add up to its funded amount and
/// `0 <= released <= funded`, the payouts that return its remainder total
/// at most `funded - released`.
pub proof fn lemma_remainder_within_custody(e: Escrow, to: Address)
    requires
        forall|i: int| 0 <= i < e.assets@.len() ==> #[trigger] e.assets@[i].amount >= 0,
        amount_total(e.assets@) == e.funded_amount,
        0 <= e.released_amount <= e.funded_amount,
    ensures
        remainder_payouts(e, to) matches Ok(ms) ==> 0 <= paid_out(ms) <= e.funded_amount
            - e.released_amount,
{
    let remaining = e.funded_amount - e.released_amount;
    if remaining > 0 {
        lemma_payouts_bound(e.assets@, remaining as i128, e.funded_amount, to);
        if let Ok(ms) = remainder_payouts(e, to) {
            let p = paid_out(ms);
            let f = e.funded_amount as int;
            assert(p <= remaining) by (nonlinear_arith)
                requires
                    p * f <= remaining * f,
                    f > 0,
            ;
        }
    } else {
        if let Ok(ms) = remainder_payouts(e, to) {
            assert(ms.len() == 0);
        }
    }
}

/// A checked sum that succeeds is the exact sum.
proof fn lemma_sum_exact(assets: Seq<AssetAmount>)
    requires
        sum_amounts(assets) is Ok,
    ensures
        amount_total(assets) == sum_amounts(assets)->Ok_0,
    decreases assets.len(),
{
    if assets.len() > 0 {
        lemma_sum_exact(assets.drop_last());
    }
}

/// No escrow a valid ledger holds ever pays out more than it still holds:
/// the payouts that return its remainder total at most `funded - released`,
/// and never a negative amount.
pub proof fn lemma_stored_remainder_within_custody(c: EscrowContract, id: u64, to: Address)
    requires
        c.wf(),
        c.escrow(id) is Some,
    ensures
        remainder_payouts(c.escrow(id)->0, to) matches Ok(ms) ==> 0 <= paid_out(ms)
            <= c.escrow(id)->0.funded_amount - c.escrow(id)->0.released_amount,
{
    let e = c.escrow(id)->0;
    c.lemma_custody_at(id - 1);
    if e.funded_amount == 0 {
        if let Ok(ms) = remainder_payouts(e, to) {
            assert(ms.len() == 0);
        }
    } else {
        lemma_sum_exact(e.assets@);
        assert forall|i: int| 0 <= i < e.assets@.len() implies #[trigger] e.assets@[i].amount >= 0 by {
            assert(e.assets@[i].amount > 0);
        }
        lemma_remainder_within_custody(e, to);
    }
}

/// Vesting is bounded and monotone in time: for a non-negative amount, what
/// has vested is between nothing and the whole amount, and a later instant
/// never has less vested than an earlier one.
pub proof fn lemma_vesting_bounded_monotone(amount: i128, s: ReleaseSchedule, t1: u64, t2: u64)
    requires
        0 <= amount,
        t1 <= t2,
    ensures
        vested(amount, s, t1) matches Ok(v) ==> 0 <= v <= amount,
        vested(amount, s, t1) matches Ok(v1) ==> (vested(amount, s, t2) matches Ok(v2) ==> v1
            <= v2),
{
    lemma_vested_bounds(amount, s, t1);
    lemma_vested_bounds(amount, s, t2);
    if s.release_type == ReleaseType::Linear && s.start_time < s.end_time && s.start_time
        <= s.cliff_time <= s.end_time {
        if s.cliff_time <= t1 && s.start_time <= t1 && t2 < s.end_time {
            let d = (s.end_time - s.start_time) as int;
            let a = amount as int;
            let e1 = (t1 - s.start_time) as int;
            let e2 = (t2 - s.start_time) as int;
            assert(a * e1 <= a * e2) by (nonlinear_arith)
                requires
                    0 <= e1 <= e2,
                    a >= 0,
            ;
            assert(a * e1 >= 0) by (nonlinear_arith)
                requires
                    0 <= e1,
                    a >= 0,
            ;
            assert((a * e1) / d <= (a * e2) / d) by (nonlinear_arith)
                requires
                    0 <= a * e1 <= a * e2,
                    d > 0,
            ;
        }
    }
}

/// What has vested by `now` is between nothing and the whole amount.
proof fn lemma_vested_bounds(amount: i128, s: ReleaseSchedule, now: u64)
    requires
        0 <= amount,
    ensures
        vested(amount, s, now) matches Ok(v) ==> 0 <= v <= amount,
{
    if s.release_type == ReleaseType::Linear && s.start_time < s.end_time && s.start_time
        <= s.cliff_time <= s.end_time && s.cliff_time <= now && s.start_time <= now && now
        < s.end_time {
        let d = (s.end_time - s.start_time) as int;
        let a = amount as int;
        let el = (now - s.start_time) as int;
        assert(0 <= a * el <= a * d) by (nonlinear_arith)
            requires
                0 <= el < d,
                a >= 0,
        ;
        if let Ok(m) = spec_checked_mul(amount, (now - s.start_time) as i128) {
            assert(m == a * el);
            if m > 0 {
                assert(trunc_div(m as int, d) == (m as int) / d);
                assert(0 <= (a * el) / d <= a) by (nonlinear_arith)
                    requires
                        0 <= a * el <= a * d,
                        d > 0,
                ;
            }
        }
    }
}

/// What a vesting escrow lets the recipient claim is never negative and,
/// once nothing is over-released, never more than what is still in custody.
pub proof fn lemma_claimable_bounded(e: Escrow, now: u64)
    requires
        0 <= e.released_amount <= e.funded_amount,
    ensures
        claimable(e, now) matches Ok(c) ==> 0 <= c <= e.funded_amount - e.released_amount,
{
    lemma_vested_bounds(e.funded_amount, e.schedule, now);
}

/// The refund window is measured from the end of the grace period: when
/// bounded it never closes before refunds open, it is still open one
/// instant before it closes, and an absurd length saturates at the end of
/// time instead of wrapping into an already-closed window.
pub proof fn lemma_refund_window_after_grace(e: Escrow, now: u64)
    ensures
        closes_at_of(e) == 0 <==> e.refund_window == 0,
        closes_at_of(e) != 0 ==> closes_at_of(e) >= grace_end_of(e),
        window_closed(e, now) ==> now >= grace_end_of(e),
        e.refund_window != 0 && grace_end_of(e) + e.refund_window <= u64::MAX ==> closes_at_of(e)
            == grace_end_of(e) + e.refund_window,
        e.refund_window != 0 && grace_end_of(e) + e.refund_window > u64::MAX ==> closes_at_of(e)
            == u64::MAX,
        now < closes_at_of(e) ==> !window_closed(e, now),
{
}


/// A cliff schedule unlocks everything at maturity and nothing before it:
/// for a well-formed cliff schedule, nothing has vested at any instant
/// before `end_time` (reaching the cliff alone unlocks nothing), the whole
/// amount has vested from `end_time` on, and so a cliff escrow has nothing
/// claimable before maturity.
pub proof fn lemma_cliff_unlocks_at_maturity(amount: i128, s: ReleaseSchedule, now: u64, e: Escrow)
    requires
        s.release_type == ReleaseType::Cliff,
        s.start_time <= s.cliff_time <= s.end_time,
    ensures
        now < s.end_time ==> vested(amount, s, now) == Ok::<i128, Error>(0),
        now >= s.end_time ==> vested(amount, s, now) == Ok::<i128, Error>(amount),
        e.schedule == s && 0 <= e.released_amount && now < s.end_time ==> claimable(e, now)
            == Ok::<i128, Error>(0),
{
}


/// A linear schedule vests pro rata: for a well-formed linear schedule and a
/// non-negative amount, nothing has vested before the cliff, everything from
/// `end_time` on, and in between the vested amount is the elapsed share
/// rounded down: `v * duration <= amount * elapsed < (v + 1) * duration`.
pub proof fn lemma_linear_vests_pro_rata(amount: i128, s: ReleaseSchedule, now: u64)
    requires
        s.release_type == ReleaseType::Linear,
        s.start_time <= s.cliff_time <= s.end_time,
        s.start_time < s.end_time,
        0 <= amount,
    ensures
        now < s.cliff_time ==> vested(amount, s, now) == Ok::<i128, Error>(0),
        now >= s.end_time ==> vested(amount, s, now) == Ok::<i128, Error>(amount),
        s.cliff_time <= now < s.end_time && vested(amount, s, now) is Ok ==> {
            let v = vested(amount, s, now)->Ok_0 as int;
            let d = s.end_time - s.start_time;
            let x = now - s.start_time;
            &&& v * d <= amount * x
            &&& amount * x < (v + 1) * d
        },
{
    if s.cliff_time <= now < s.end_time && vested(amount, s, now) is Ok {
        let d: int = s.end_time - s.start_time;
        let x: int = now - s.start_time;
        let m: int = amount * x;
        assert(m >= 0) by (nonlinear_arith)
            requires
                m == amount * x,
                amount >= 0,
                x >= 0,
        ;
        assert(trunc_div(m, d) == m / d);
        vstd::arithmetic::div_mod::lemma_fundamental_div_mod(m, d);
        let v = m / d;
        assert(vested(amount, s, now)->Ok_0 == v);
        assert(v * d <= m && m < (v + 1) * d) by (nonlinear_arith)
            requires
                m == d * v + m % d,
                0 <= m % d < d,
        ;
    }
}

} // verus!
