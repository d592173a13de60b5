//! Properties of the policy rules that span calls: window settlement never
//! drifts and does not depend on when it is observed, an allowance never
//! lets spend pass its limit, a split request is judged on its per-asset
//! totals, the deny lists win over every allow gate, an enabled whitelist
//! fails closed, and a permitted transfer has passed every gate.
use vstd::prelude::*;
use crate::policy::{
    aggregate, asset_gates, composite_outcome, consume, find_asset, flag_of, list_of, policy_gates,
    rules_outcome, settle, transfer_check, eval_node, AssetAllowance, PolicyContract, RuleNode, RuleOp,
    TransactionPayload,
};
use crate::shared::{lists, Address, AssetAmount, Error};

verus! {

/// Settling is path independent: settling at `t1` and then at a later
/// `t2` gives exactly what settling once at `t2` gives, so an allowance left
/// idle for many windows catches up in one step and windows never drift.
pub proof fn lemma_settle_path_independent(a: AssetAllowance, t1: u64, t2: u64)
    requires
        t1 <= t2,
    ensures
        settle(settle(a, t1), t2) == settle(a, t2),
{
    if a.window_seconds > 0 && t1 >= a.window_start {
        let ws = a.window_seconds as int;
        let s = a.window_start as int;
        let k1 = (t1 - s) / ws;
        let k2 = (t2 - s) / ws;
        assert(0 <= k1 <= k2 && k1 * ws <= t1 - s) by (nonlinear_arith)
            requires
                k1 == (t1 - s) / ws,
                k2 == (t2 - s) / ws,
                t1 - s <= t2 - s,
                0 <= t1 - s,
                ws > 0,
        ;
        let k = (t2 - (s + k1 * ws)) / ws;
        assert(k == k2 - k1) by (nonlinear_arith)
            requires
                k == (t2 - (s + k1 * ws)) / ws,
                k2 == (t2 - s) / ws,
                ws > 0,
        ;
        assert(k2 * ws <= t2 - s) by (nonlinear_arith)
            requires
                k2 == (t2 - s) / ws,
                t2 - s >= 0,
                ws > 0,
        ;
        assert(s + k1 * ws + (k2 - k1) * ws == s + k2 * ws) by (nonlinear_arith);
    }
}

/// Settled windows sit on the grid anchored at the first start: after
/// settling at `now` (at or past the start), the window holds `now`, starts
/// a whole number of windows after the old start, and an instant exactly at
/// a boundary belongs to the new window.
pub proof fn lemma_settle_on_grid(a: AssetAllowance, now: u64)
    requires
        a.window_seconds > 0,
        now >= a.window_start,
    ensures
        settle(a, now).window_start <= now < settle(a, now).window_start + a.window_seconds,
        (settle(a, now).window_start - a.window_start) % (a.window_seconds as int) == 0,
        settle(a, now).window_seconds == a.window_seconds,
{
    let ws = a.window_seconds as int;
    let s = a.window_start as int;
    let k = (now - s) / ws;
    assert(0 <= k && k * ws <= now - s < k * ws + ws) by (nonlinear_arith)
        requires
            k == (now - s) / ws,
            now - s >= 0,
            ws > 0,
    ;
    assert((k * ws) % ws == 0) by (nonlinear_arith)
        requires
            ws > 0,
            k >= 0,
    ;
}

/// An allowance never lets spend pass its limit: a spend it accepts leaves
/// the window's spend at most the limit.
pub proof fn lemma_spend_within_limit(stored: Option<AssetAllowance>, amount: i128, now: u64)
    ensures
        consume(stored, amount, now) matches Ok(Some(a)) ==> a.spent <= a.limit,
{
}

/// The exact total of the entries of `asset` in a request.
pub open spec fn total_of(entries: Seq<AssetAmount>, asset: Address) -> int
    decreases entries.len(),
{
    if entries.len() == 0 {
        0
    } else {
        total_of(entries.drop_last(), asset) + if entries.last().asset@ == asset@ {
            entries.last().amount as int
        } else {
            0int
        }
    }
}

proof fn lemma_find_asset(t: Seq<AssetAmount>, asset: Address)
    ensures
        find_asset(t, asset) matches Some(k) ==> 0 <= k < t.len() && t[k].asset@ == asset@,
        find_asset(t, asset) is None ==> forall|j: int| 0 <= j < t.len() ==> #[trigger] t[j].asset@ != asset@,
    decreases t.len(),
{
    if t.len() > 0 {
        lemma_find_asset(t.drop_last(), asset);
        if find_asset(t, asset) is None {
            assert forall|j: int| 0 <= j < t.len() implies #[trigger] t[j].asset@ != asset@ by {
                if j < t.len() - 1 {
                    assert(t.drop_last()[j] == t[j]);
                }
            }
        }
    }
}

/// A split request is judged on its totals: the aggregation of a request
/// lists every asset of the request once, each with the exact sum of its
/// entries, so several entries under a limit cannot add up past it unseen.
pub proof fn lemma_aggregate_sums_per_asset(entries: Seq<AssetAmount>)
    ensures
        aggregate(entries) matches Ok(t) ==> {
            &&& forall|a: int, b: int|
                0 <= a < b < t.len() ==> #[trigger] t[a].asset@ != #[trigger] t[b].asset@
            &&& forall|k: int| 0 <= k < t.len() ==> #[trigger] t[k].amount == total_of(entries, t[k].asset)
            &&& forall|i: int|
                0 <= i < entries.len() ==> #[trigger] find_asset(t, entries[i].asset) is Some
        },
    decreases entries.len(),
{
    if entries.len() > 0 {
        let prefix = entries.drop_last();
        lemma_aggregate_sums_per_asset(prefix);
        if let Ok(t) = aggregate(entries) {
            let tp = aggregate(prefix)->Ok_0;
            let x = entries.last();
            lemma_find_asset(tp, x.asset);
            assert forall|a: Address| #[trigger] total_of(entries, a) == total_of(prefix, a) + (if x.asset@
                == a@ {
                x.amount as int
            } else {
                0int
            }) by {}
            match find_asset(tp, x.asset) {
                Some(k0) => {
                    assert(t == tp.update(
                        k0,
                        AssetAmount { asset: tp[k0].asset, amount: (tp[k0].amount + x.amount) as i128 },
                    ));
                    assert forall|k: int| 0 <= k < t.len() implies #[trigger] t[k].amount == total_of(
                        entries,
                        t[k].asset,
                    ) by {
                        assert(total_of(entries, t[k].asset) == total_of(prefix, t[k].asset) + (if x.asset@
                            == t[k].asset@ {
                            x.amount as int
                        } else {
                            0int
                        }));
                        if k != k0 {
                            assert(t[k] == tp[k]);
                            if k < k0 {
                                assert(tp[k].asset@ != tp[k0].asset@);
                            } else {
                                assert(tp[k0].asset@ != tp[k].asset@);
                            }
                        }
                    }
                    assert forall|i: int| 0 <= i < entries.len() implies #[trigger] find_asset(
                        t,
                        entries[i].asset,
                    ) is Some by {
                        lemma_find_asset(t, entries[i].asset);
                        if i < prefix.len() {
                            assert(prefix[i] == entries[i]);
                            assert(find_asset(tp, prefix[i].asset) is Some);
                            lemma_find_asset(tp, entries[i].asset);
                            let j = find_asset(tp, entries[i].asset)->0;
                            assert(t[j].asset@ == entries[i].asset@);
                        } else {
                            assert(entries[i] == x);
                            assert(t[k0].asset@ == x.asset@);
                        }
                    }
                },
                None => {
                    assert(t == tp.push(AssetAmount { asset: x.asset, amount: x.amount }));
                    lemma_total_absent(prefix, tp, x.asset);
                    assert forall|k: int| 0 <= k < t.len() implies #[trigger] t[k].amount == total_of(
                        entries,
                        t[k].asset,
                    ) by {
                        assert(total_of(entries, t[k].asset) == total_of(prefix, t[k].asset) + (if x.asset@
                            == t[k].asset@ {
                            x.amount as int
                        } else {
                            0int
                        }));
                        if k < tp.len() {
                            assert(t[k] == tp[k]);
                            assert(tp[k].asset@ != x.asset@);
                        }
                    }
                    assert forall|a: int, b: int|
                        0 <= a < b < t.len() implies #[trigger] t[a].asset@ != #[trigger] t[b].asset@ by {
                        if b == tp.len() {
                            assert(tp[a].asset@ != x.asset@);
                        } else {
                            assert(t[a] == tp[a] && t[b] == tp[b]);
                        }
                    }
                    assert forall|i: int| 0 <= i < entries.len() implies #[trigger] find_asset(
                        t,
                        entries[i].asset,
                    ) is Some by {
                        lemma_find_asset(t, entries[i].asset);
                        if i < prefix.len() {
                            assert(prefix[i] == entries[i]);
                            assert(find_asset(tp, prefix[i].asset) is Some);
                            lemma_find_asset(tp, entries[i].asset);
                            let j = find_asset(tp, entries[i].asset)->0;
                            assert(t[j] == tp[j]);
                            assert(t[j].asset@ == entries[i].asset@);
                        } else {
                            assert(entries[i] == x);
                            assert(t[tp.len() as int].asset@ == x.asset@);
                        }
                    }
                },
            }
        }
    }
}

/// An asset that the aggregation of `p` does not list has no entries in it.
proof fn lemma_total_absent(p: Seq<AssetAmount>, tp: Seq<AssetAmount>, asset: Address)
    requires
        find_asset(tp, asset) is None,
        forall|i: int| 0 <= i < p.len() ==> #[trigger] find_asset(tp, p[i].asset) is Some,
    ensures
        total_of(p, asset) == 0,
    decreases p.len(),
{
    if p.len() > 0 {
        let last = p.last();
        assert(find_asset(tp, p[p.len() - 1].asset) is Some);
        lemma_find_asset(tp, last.asset);
        lemma_find_asset(tp, asset);
        let k = find_asset(tp, last.asset)->0;
        assert(tp[k].asset@ == last.asset@);
        assert(last.asset@ != asset@);
        assert forall|i: int| 0 <= i < p.drop_last().len() implies #[trigger] find_asset(
            tp,
            p.drop_last()[i].asset,
        ) is Some by {
            assert(p.drop_last()[i] == p[i]);
        }
        lemma_total_absent(p.drop_last(), tp, asset);
    }
}

/// The asset deny list wins over every allow gate: a denied asset is never
/// permitted under that policy, whatever its whitelists say.
pub proof fn lemma_asset_deny_list_wins(
    c: PolicyContract,
    id: String,
    asset: Address,
    recipient: Address,
    amount: i128,
    now: u64,
)
    requires
        lists(list_of(c.asset_blacklists(), id@), asset),
    ensures
        transfer_check(c, id, asset, recipient, amount, now) is Err,
{
}

/// An enforced recipient whitelist fails closed: a recipient it does not
/// list (in particular, any recipient of an empty whitelist) is never
/// permitted.
pub proof fn lemma_whitelist_fails_closed(
    c: PolicyContract,
    id: String,
    asset: Address,
    recipient: Address,
    amount: i128,
    now: u64,
)
    requires
        flag_of(c.recipient_modes(), id@),
        !lists(list_of(c.recipient_whitelists(), id@), recipient),
    ensures
        transfer_check(c, id, asset, recipient, amount, now) is Err,
{
}

/// A blocked recipient is refused before any allowance, asset or amount
/// gate: for an enabled policy, a positive transfer to a recipient on the
/// recipient deny list is refused as restricted, whatever else holds.
pub proof fn lemma_blocklist_checked_first(
    c: PolicyContract,
    id: String,
    asset: Address,
    recipient: Address,
    amount: i128,
    now: u64,
)
    requires
        amount > 0,
        c.policy_records().contains_key(id@),
        c.policy_records()[id@].enabled,
        c.blacklisted().contains_key(recipient@),
    ensures
        transfer_check(c, id, asset, recipient, amount, now) == Err::<(), Error>(
            Error::PolicyRecipientRestricted,
        ),
{
}

/// A permitted transfer has passed every gate: the policy exists, is
/// enabled and live, neither deny list holds the recipient, the amount is
/// within the cap, the allowance accepts it, and the composite rule and
/// every stacked rule hold.
pub proof fn lemma_permitted_transfer_passes_every_gate(
    c: PolicyContract,
    id: String,
    asset: Address,
    recipient: Address,
    amount: i128,
    now: u64,
)
    requires
        transfer_check(c, id, asset, recipient, amount, now) is Ok,
    ensures
        amount > 0,
        c.policy_records().contains_key(id@),
        c.policy_records()[id@].enabled,
        c.policy_records()[id@].expires_at == 0 || now < c.policy_records()[id@].expires_at,
        !c.blacklisted().contains_key(recipient@),
        !c.merchants().contains_key(recipient@),
        c.policy_records()[id@].max_amount == 0 || amount <= c.policy_records()[id@].max_amount,
        !lists(list_of(c.asset_blacklists(), id@), asset),
        consume(crate::policy::allowance_of(c, id@, asset@), amount, now) is Ok,
        composite_outcome(c, id@, TransactionPayload { asset, recipient, amount }) == Ok::<
            bool,
            Error,
        >(true),
        rules_outcome(c, id@, TransactionPayload { asset, recipient, amount }) == Ok::<bool, Error>(
            true,
        ),
{
    let p = policy_gates(c, id, recipient, now)->Ok_0;
    assert(asset_gates(c, id, p, asset, recipient, amount, now) is Ok);
}


/// The two blacklist leaves each read their own list and nothing else: a
/// merchant-blacklist leaf's verdict is the merchant membership whatever
/// the recipient blacklist says, and a recipient-blacklist leaf's verdict is
/// the recipient membership whatever the merchant blacklist says.
pub proof fn lemma_blacklist_leaves_read_their_own_list(
    tree: Seq<RuleNode>,
    i: int,
    payload: TransactionPayload,
    depth: nat,
    rb: bool,
    mb: bool,
    other: bool,
)
    requires
        0 <= i < tree.len(),
        depth > 0,
    ensures
        tree[i].op == RuleOp::MerchantBlacklisted ==> eval_node(tree, i, payload, depth, rb, mb)
            == Ok::<bool, Error>(mb) && eval_node(tree, i, payload, depth, other, mb) == eval_node(
            tree,
            i,
            payload,
            depth,
            rb,
            mb,
        ),
        tree[i].op == RuleOp::RecipientBlacklisted ==> eval_node(tree, i, payload, depth, rb, mb)
            == Ok::<bool, Error>(rb) && eval_node(tree, i, payload, depth, rb, other) == eval_node(
            tree,
            i,
            payload,
            depth,
            rb,
            mb,
        ),
{
}

/// A composite rule whose root is a merchant-blacklist leaf holds exactly
/// when the payload's recipient is on the merchant blacklist; one whose root
/// is a recipient-blacklist leaf holds exactly when the recipient is on the
/// recipient blacklist.
pub proof fn lemma_composite_blacklist_leaf(c: PolicyContract, id: Seq<char>, payload: TransactionPayload)
    requires
        c.composite_rules().contains_key(id),
        c.composite_rules()[id].len() > 0,
    ensures
        c.composite_rules()[id][0].op == RuleOp::MerchantBlacklisted ==> composite_outcome(
            c,
            id,
            payload,
        ) == Ok::<bool, Error>(c.merchants().contains_key(payload.recipient@)),
        c.composite_rules()[id][0].op == RuleOp::RecipientBlacklisted ==> composite_outcome(
            c,
            id,
            payload,
        ) == Ok::<bool, Error>(c.blacklisted().contains_key(payload.recipient@)),
{
}


/// Each comparison leaf tests its own field of the payload against the
/// node's value: an amount cap holds exactly when the amount is at most the
/// cap, an allowed-recipient leaf exactly when the recipient is the node's
/// address, and an allowed-asset leaf exactly when the asset is.
pub proof fn lemma_comparison_leaves(
    tree: Seq<RuleNode>,
    i: int,
    payload: TransactionPayload,
    depth: nat,
    rb: bool,
    mb: bool,
)
    requires
        0 <= i < tree.len(),
        depth > 0,
    ensures
        tree[i].op == RuleOp::MaxAmount ==> eval_node(tree, i, payload, depth, rb, mb) == Ok::<
            bool,
            Error,
        >(payload.amount <= tree[i].value_i128),
        tree[i].op == RuleOp::AllowedRecipient ==> eval_node(tree, i, payload, depth, rb, mb)
            == Ok::<bool, Error>(payload.recipient@ == tree[i].value_address@),
        tree[i].op == RuleOp::AllowedAsset ==> eval_node(tree, i, payload, depth, rb, mb) == Ok::<
            bool,
            Error,
        >(payload.asset@ == tree[i].value_address@),
{
}

} // verus!
