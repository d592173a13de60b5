//! Transfer policies: "may `amount` of `asset` flow to `recipient` now?"
//!
//! A policy stores a hash of its off-chain configuration plus cheap scalar
//! gates (maximum amount, allowed recipient, allowed asset, expiry, an
//! enabled flag). Around it sit deny lists (recipients, merchants,
//! categories, per-policy assets), an optional asset whitelist and recipient
//! whitelist, per-asset spending allowances (cumulative or per fixed window),
//! a composite rule tree and a stack of further rule trees that must all
//! pass. `check_transfer` runs every gate in a fixed order and reports the
//! first that denies.
//!
//! Rule trees are flattened: node 0 is the root, and a branch's children are
//! the contiguous index range `[children_start, children_end)`. Evaluation
//! is depth-limited.
use vstd::prelude::*;
use crate::shared::{
    checked_add, checked_sub, copy_strings, lists, lists_key, require_non_empty, spec_checked_add, spec_checked_sub,
    Address, AssetAmount, Error,
};
use crate::table::Table;

verus! {

/// Deepest rule-tree nesting that evaluation follows.
pub const MAX_RULE_DEPTH: u32 = 10;

/// Largest number of entries in one multi-asset request.
pub const MAX_SPEND_ENTRIES: usize = 10;

/// Largest number of rule trees a policy may stack.
pub const MAX_POLICY_RULES: usize = 16;

/// A transfer submitted for rule evaluation.
#[derive(Debug)]
pub struct TransactionPayload {
    pub asset: Address,
    pub recipient: Address,
    pub amount: i128,
}

/// The operation of a rule node.
#[derive(Clone, Copy, Debug, PartialEq, Eq, Structural)]
pub enum RuleOp {
    /// Leaf: the amount is at most `value_i128`.
    MaxAmount,
    /// Leaf: the recipient is `value_address`.
    AllowedRecipient,
    /// Leaf: the asset is `value_address`.
    AllowedAsset,
    /// Leaf: the recipient is on the recipient blacklist.
    RecipientBlacklisted,
    /// Leaf: the recipient is on the merchant blacklist.
    MerchantBlacklisted,
    /// Branch: every child holds.
    And,
    /// Branch: some child holds.
    Or,
    /// Branch: the single child does not hold.
    Not,
}

/// One node of a flattened rule tree.
#[derive(Debug)]
pub struct RuleNode {
    pub op: RuleOp,
    pub value_i128: i128,
    pub value_address: Address,
    /// First child index (`0` for a leaf).
    pub children_start: u32,
    /// One past the last child index (`0` for a leaf).
    pub children_end: u32,
}

impl RuleNode {
    /// A field-for-field copy of this node.
    pub fn copied(&self) -> (r: RuleNode)
        ensures
            r == *self,
    {
        RuleNode {
            op: self.op,
            value_i128: self.value_i128,
            value_address: self.value_address.clone(),
            children_start: self.children_start,
            children_end: self.children_end,
        }
    }
}

/// Whether node `n` of a tree of `len` nodes has a malformed child range:
/// `And`/`Or` need a non-empty range inside the tree, `Not` exactly one
/// child inside the tree; leaves are never malformed.
pub open spec fn bad_children(n: RuleNode, len: int) -> bool {
    match n.op {
        RuleOp::And | RuleOp::Or => n.children_start >= n.children_end || n.children_end > len,
        RuleOp::Not => n.children_end - n.children_start != 1 || n.children_end > len,
        _ => false,
    }
}

/// The write-time check of a rule tree: non-empty, every child range
/// resolving inside the tree.
pub open spec fn tree_check(tree: Seq<RuleNode>) -> Result<(), Error> {
    if tree.len() == 0 {
        Err(Error::InvalidInput)
    } else if exists|i: int| 0 <= i < tree.len() && bad_children(#[trigger] tree[i], tree.len() as int) {
        Err(Error::InvalidInput)
    } else {
        Ok(())
    }
}

/// Reject a malformed rule tree.
pub fn validate_rule_tree(tree: &Vec<RuleNode>) -> (r: Result<(), Error>)
    ensures
        r == tree_check(tree@),
{
    if tree.len() == 0 {
        return Err(Error::InvalidInput);
    }
    let len = tree.len();
    let mut i: usize = 0;
    while i < len
        invariant
            i <= len,
            len == tree@.len(),
            len > 0,
            forall|j: int| 0 <= j < i ==> !bad_children(#[trigger] tree@[j], len as int),
        decreases len - i,
    {
        let node = &tree[i];
        let bad = match node.op {
            RuleOp::And | RuleOp::Or => node.children_start >= node.children_end
                || node.children_end as usize > len,
            RuleOp::Not => node.children_end.checked_sub(node.children_start) != Some(1u32)
                || node.children_end as usize > len,
            _ => false,
        };
        if bad {
            return Err(Error::InvalidInput);
        }
        i = i + 1;
    }
    Ok(())
}

/// The value of node `idx` of `tree` for `payload`, following at most
/// `depth` levels. `rb` / `mb` say whether the recipient is on the
/// recipient / merchant blacklist. Exhausted depth, a missing node and a
/// malformed branch are `InvalidInput`; `And` / `Or` walk their children in
/// order and stop at the first that decides.
pub open spec fn eval_node(
    tree: Seq<RuleNode>,
    idx: int,
    payload: TransactionPayload,
    depth: nat,
    rb: bool,
    mb: bool,
) -> Result<bool, Error>
    decreases depth, 1int, 0int,
{
    if depth == 0 || idx < 0 || idx >= tree.len() {
        Err(Error::InvalidInput)
    } else {
        let n = tree[idx];
        match n.op {
            RuleOp::MaxAmount => Ok(payload.amount <= n.value_i128),
            RuleOp::AllowedRecipient => Ok(payload.recipient@ == n.value_address@),
            RuleOp::AllowedAsset => Ok(payload.asset@ == n.value_address@),
            RuleOp::RecipientBlacklisted => Ok(rb),
            RuleOp::MerchantBlacklisted => Ok(mb),
            RuleOp::And => if n.children_start == n.children_end {
                Err(Error::InvalidInput)
            } else {
                eval_all(
                    tree,
                    n.children_start as int,
                    n.children_end as int,
                    payload,
                    (depth - 1) as nat,
                    rb,
                    mb,
                )
            },
            RuleOp::Or => if n.children_start == n.children_end {
                Err(Error::InvalidInput)
            } else {
                eval_any(
                    tree,
                    n.children_start as int,
                    n.children_end as int,
                    payload,
                    (depth - 1) as nat,
                    rb,
                    mb,
                )
            },
            RuleOp::Not => if n.children_end - n.children_start != 1 {
                Err(Error::InvalidInput)
            } else {
                match eval_node(tree, n.children_start as int, payload, (depth - 1) as nat, rb, mb) {
                    Err(e) => Err(e),
                    Ok(b) => Ok(!b),
                }
            },
        }
    }
}

/// Children `[i, end)` of an `And` node: the first error or `false` decides;
/// otherwise `true`.
pub open spec fn eval_all(
    tree: Seq<RuleNode>,
    i: int,
    end: int,
    payload: TransactionPayload,
    depth: nat,
    rb: bool,
    mb: bool,
) -> Result<bool, Error>
    decreases depth + 1, 0int, end - i,
{
    if i >= end {
        Ok(true)
    } else {
        match eval_node(tree, i, payload, depth, rb, mb) {
            Err(e) => Err(e),
            Ok(false) => Ok(false),
            Ok(true) => eval_all(tree, i + 1, end, payload, depth, rb, mb),
        }
    }
}

/// Children `[i, end)` of an `Or` node: the first error or `true` decides;
/// otherwise `false`.
pub open spec fn eval_any(
    tree: Seq<RuleNode>,
    i: int,
    end: int,
    payload: TransactionPayload,
    depth: nat,
    rb: bool,
    mb: bool,
) -> Result<bool, Error>
    decreases depth + 1, 0int, end - i,
{
    if i >= end {
        Ok(false)
    } else {
        match eval_node(tree, i, payload, depth, rb, mb) {
            Err(e) => Err(e),
            Ok(true) => Ok(true),
            Ok(false) => eval_any(tree, i + 1, end, payload, depth, rb, mb),
        }
    }
}

/// Evaluate node `idx` of `tree` against `payload` with at most `depth`
/// levels; `rb` / `mb` are the recipient's blacklist memberships.
pub fn evaluate_node(
    tree: &Vec<RuleNode>,
    idx: u32,
    payload: &TransactionPayload,
    depth: u32,
    rb: bool,
    mb: bool,
) -> (r: Result<bool, Error>)
    ensures
        r == eval_node(tree@, idx as int, *payload, depth as nat, rb, mb),
    decreases depth,
{
    if depth == 0 {
        return Err(Error::InvalidInput);
    }
    let remaining = depth - 1;
    if idx as usize >= tree.len() {
        return Err(Error::InvalidInput);
    }
    let node = &tree[idx as usize];
    match node.op {
        RuleOp::MaxAmount => Ok(payload.amount <= node.value_i128),
        RuleOp::AllowedRecipient => Ok(payload.recipient == node.value_address),
        RuleOp::AllowedAsset => Ok(payload.asset == node.value_address),
        RuleOp::RecipientBlacklisted => Ok(rb),
        RuleOp::MerchantBlacklisted => Ok(mb),
        RuleOp::And => {
            if node.children_start == node.children_end {
                return Err(Error::InvalidInput);
            }
            let start = node.children_start;
            let end = node.children_end;
            let mut i = start;
            while i < end
                invariant
                    i >= start,
                    depth > 0,
                    (idx as int) < tree@.len(),
                    tree@[idx as int].op == RuleOp::And,
                    tree@[idx as int].children_start == start,
                    tree@[idx as int].children_end == end,
                    start != end,
                    remaining == depth - 1,
                    eval_all(tree@, start as int, end as int, *payload, remaining as nat, rb, mb)
                        == eval_all(tree@, i as int, end as int, *payload, remaining as nat, rb, mb),
                decreases end - i,
            {
                match evaluate_node(tree, i, payload, remaining, rb, mb) {
                    Err(e) => {
                        return Err(e);
                    },
                    Ok(false) => {
                        return Ok(false);
                    },
                    Ok(true) => {},
                }
                i = i + 1;
            }
            Ok(true)
        },
        RuleOp::Or => {
            if node.children_start == node.children_end {
                return Err(Error::InvalidInput);
            }
            let start = node.children_start;
            let end = node.children_end;
            let mut i = start;
            while i < end
                invariant
                    i >= start,
                    depth > 0,
                    (idx as int) < tree@.len(),
                    tree@[idx as int].op == RuleOp::Or,
                    tree@[idx as int].children_start == start,
                    tree@[idx as int].children_end == end,
                    start != end,
                    remaining == depth - 1,
                    eval_any(tree@, start as int, end as int, *payload, remaining as nat, rb, mb)
                        == eval_any(tree@, i as int, end as int, *payload, remaining as nat, rb, mb),
                decreases end - i,
            {
                match evaluate_node(tree, i, payload, remaining, rb, mb) {
                    Err(e) => {
                        return Err(e);
                    },
                    Ok(true) => {
                        return Ok(true);
                    },
                    Ok(false) => {},
                }
                i = i + 1;
            }
            Ok(false)
        },
        RuleOp::Not => {
            if node.children_end.checked_sub(node.children_start) != Some(1u32) {
                return Err(Error::InvalidInput);
            }
            match evaluate_node(tree, node.children_start, payload, remaining, rb, mb) {
                Err(e) => Err(e),
                Ok(b) => Ok(!b),
            }
        },
    }
}

// ---------------------------------------------------------------------------
// Allowances.
// ---------------------------------------------------------------------------

/// A per-asset spending allowance of a policy. A limit of `0` means none is
/// enforced. With `window_seconds > 0` at most `limit` may be spent per
/// fixed window `[window_start + k * window_seconds, ...)`.
#[derive(Debug)]
pub struct AssetAllowance {
    pub policy_id: String,
    pub asset: Address,
    pub limit: i128,
    pub spent: i128,
    /// When the allowance stops permitting spends (`0` = never).
    pub expires_at: u64,
    /// Window length (`0` = cumulative, never resets).
    pub window_seconds: u64,
    /// Start of the current window.
    pub window_start: u64,
}

impl AssetAllowance {
    /// A field-for-field copy of this allowance.
    pub fn copied(&self) -> (r: AssetAllowance)
        ensures
            r == *self,
    {
        AssetAllowance {
            policy_id: self.policy_id.clone(),
            asset: self.asset.clone(),
            limit: self.limit,
            spent: self.spent,
            expires_at: self.expires_at,
            window_seconds: self.window_seconds,
            window_start: self.window_start,
        }
    }
}

/// The allowance with every window boundary passed by `now` settled: with
/// `k = (now - window_start) / window_seconds` whole windows elapsed, `k >=
/// 1` resets `spent` and moves `window_start` forward by exactly `k`
/// windows. A cumulative allowance, or a clock before `window_start`, is
/// left as it is.
pub open spec fn settle(a: AssetAllowance, now: u64) -> AssetAllowance {
    if a.window_seconds == 0 || now < a.window_start {
        a
    } else {
        let k = (now - a.window_start) / (a.window_seconds as int);
        if k == 0 {
            a
        } else {
            AssetAllowance {
                window_start: (a.window_start + k * a.window_seconds) as u64,
                spent: 0,
                ..a
            }
        }
    }
}

/// Settle every window boundary passed by `now` (never overflows: the new
/// start never passes `now`).
pub fn settle_window(allowance: &mut AssetAllowance, now: u64)
    ensures
        *final(allowance) == settle(*old(allowance), now),
        old(allowance).window_seconds > 0 && now >= old(allowance).window_start
            ==> final(allowance).window_start <= now,
{
    if allowance.window_seconds == 0 || now < allowance.window_start {
        return ;
    }
    let elapsed = now - allowance.window_start;
    let periods = elapsed / allowance.window_seconds;
    if periods == 0 {
        return ;
    }
    let ws = allowance.window_seconds;
    assert(periods * ws <= elapsed) by (nonlinear_arith)
        requires
            periods == elapsed / ws,
            ws > 0,
    ;
    let advance = periods * ws;
    allowance.window_start = allowance.window_start + advance;
    allowance.spent = 0;
}

/// Consuming `amount` against the stored allowance `stored` at `now`:
/// nothing is enforced without an allowance or with a zero limit; an expired
/// allowance denies; otherwise, after settling the window, the spend must fit
/// the headroom `limit - spent` (equality allowed). The result is the record
/// as it would be after the spend.
pub open spec fn consume(stored: Option<AssetAllowance>, amount: i128, now: u64) -> Result<
    Option<AssetAllowance>,
    Error,
> {
    match stored {
        None => Ok(None),
        Some(a) => if a.limit == 0 {
            Ok(None)
        } else if a.expires_at != 0 && now >= a.expires_at {
            Err(Error::PolicyDenied)
        } else {
            let s = settle(a, now);
            match spec_checked_sub(s.limit, s.spent) {
                Err(e) => Err(e),
                Ok(headroom) => if amount > headroom {
                    Err(Error::AllowanceExceeded)
                } else {
                    match spec_checked_add(s.spent, amount) {
                        Err(e) => Err(e),
                        Ok(spent) => Ok(Some(AssetAllowance { spent, ..s })),
                    }
                },
            }
        },
    }
}

/// Consume `amount` against `stored` at `now` (see [`consume`]).
pub fn consume_allowance(stored: Option<&AssetAllowance>, amount: i128, now: u64) -> (r: Result<
    Option<AssetAllowance>,
    Error,
>)
    ensures
        r == consume(
            match stored {
                Some(a) => Some(*a),
                None => None,
            },
            amount,
            now,
        ),
{
    let a = match stored {
        None => return Ok(None),
        Some(a) => a,
    };
    if a.limit == 0 {
        return Ok(None);
    }
    if a.expires_at != 0 && now >= a.expires_at {
        return Err(Error::PolicyDenied);
    }
    let mut s = a.copied();
    settle_window(&mut s, now);
    let headroom = checked_sub(s.limit, s.spent)?;
    if amount > headroom {
        return Err(Error::AllowanceExceeded);
    }
    s.spent = checked_add(s.spent, amount)?;
    Ok(Some(s))
}

// ---------------------------------------------------------------------------
// The policy ledger.
// ---------------------------------------------------------------------------

/// A registered policy: its owner, the hash of its off-chain configuration
/// and the scalar gates checked on every transfer.
#[derive(Debug)]
pub struct Policy {
    pub owner: Address,
    /// SHA-256 of the off-chain policy document.
    pub config_hash: [u8; 32],
    /// Largest amount per transfer (`0` = no cap).
    pub max_amount: i128,
    /// The only recipient allowed, if any.
    pub allowed_recipient: Option<Address>,
    /// The only asset allowed, if any.
    pub allowed_asset: Option<Address>,
    /// When the policy stops permitting transfers (`0` = never).
    pub expires_at: u64,
    pub enabled: bool,
}

fn copy_opt(a: &Option<Address>) -> (r: Option<Address>)
    ensures
        r == *a,
{
    match a {
        Some(x) => Some(x.clone()),
        None => None,
    }
}

impl Policy {
    /// A field-for-field copy of this policy.
    pub fn copied(&self) -> (r: Policy)
        ensures
            r == *self,
    {
        Policy {
            owner: self.owner.clone(),
            config_hash: self.config_hash,
            max_amount: self.max_amount,
            allowed_recipient: copy_opt(&self.allowed_recipient),
            allowed_asset: copy_opt(&self.allowed_asset),
            expires_at: self.expires_at,
            enabled: self.enabled,
        }
    }
}

/// `s` without any entry equal (by text) to `x`, order kept.
pub open spec fn without(s: Seq<Address>, x: Address) -> Seq<Address>
    decreases s.len(),
{
    if s.len() == 0 {
        Seq::empty()
    } else {
        let w = without(s.drop_last(), x);
        if s.last()@ == x@ {
            w
        } else {
            w.push(s.last())
        }
    }
}

/// The list stored under `id` in a keyed list store (empty when absent).
pub open spec fn list_of(m: Map<Seq<char>, Seq<Address>>, id: Seq<char>) -> Seq<Address> {
    if m.contains_key(id) {
        m[id]
    } else {
        Seq::empty()
    }
}

/// The flag stored under `id` (off when absent).
pub open spec fn flag_of(m: Map<Seq<char>, bool>, id: Seq<char>) -> bool {
    m.contains_key(id) && m[id]
}

/// The parts of the ledger's storage, for saying which one a call changes.
pub enum Store {
    Initialized,
    Policies,
    AssetWhitelists,
    AssetBlacklists,
    AssetModes,
    RecipientWhitelists,
    RecipientModes,
    Allowances,
    CompositeRules,
    RuleStacks,
    Blacklist,
    MerchantBlacklist,
    CategoryBlacklist,
}

/// The policy ledger: policies by id, the global recipient / merchant /
/// category deny lists (each entry remembers the policy that added it), and
/// per policy its asset whitelist and deny list, recipient whitelist (in
/// insertion order), the two whitelist modes, allowances per asset, its
/// composite rule and its rule stack.
pub struct PolicyContract {
    initialized: bool,
    policies: Table<Policy>,
    asset_whitelists: Table<Vec<Address>>,
    asset_blacklists: Table<Vec<Address>>,
    asset_modes: Table<bool>,
    recipient_whitelists: Table<Vec<Address>>,
    recipient_modes: Table<bool>,
    allowances: Table<Table<AssetAllowance>>,
    composite_rules: Table<Vec<RuleNode>>,
    rule_stacks: Table<Vec<Vec<RuleNode>>>,
    blacklist: Table<String>,
    merchant_blacklist: Table<String>,
    category_blacklist: Table<String>,
}

/// `new` equals `old` in every part of storage but `s`.
pub open spec fn keeps(old: PolicyContract, new: PolicyContract, s: Store) -> bool {
    &&& (s != Store::Initialized ==> new.is_initialized() == old.is_initialized())
    &&& (s != Store::Policies ==> new.policy_records() == old.policy_records())
    &&& (s != Store::AssetWhitelists ==> new.asset_whitelists() == old.asset_whitelists())
    &&& (s != Store::AssetBlacklists ==> new.asset_blacklists() == old.asset_blacklists())
    &&& (s != Store::AssetModes ==> new.asset_modes() == old.asset_modes())
    &&& (s != Store::RecipientWhitelists ==> new.recipient_whitelists()
        == old.recipient_whitelists())
    &&& (s != Store::RecipientModes ==> new.recipient_modes() == old.recipient_modes())
    &&& (s != Store::Allowances ==> new.allowance_records() == old.allowance_records())
    &&& (s != Store::CompositeRules ==> new.composite_rules() == old.composite_rules())
    &&& (s != Store::RuleStacks ==> new.rule_stacks() == old.rule_stacks())
    &&& (s != Store::Blacklist ==> new.blacklisted() == old.blacklisted())
    &&& (s != Store::MerchantBlacklist ==> new.merchants() == old.merchants())
    &&& (s != Store::CategoryBlacklist ==> new.categories() == old.categories())
}

/// The owner gate: the policy exists and `caller` owns it.
pub open spec fn owner_check(c: PolicyContract, id: String, caller: Address) -> Result<(), Error> {
    if !c.policy_records().contains_key(id@) {
        Err(Error::NotFound)
    } else if c.policy_records()[id@].owner@ != caller@ {
        Err(Error::Unauthorized)
    } else {
        Ok(())
    }
}

/// The allowance stored for `(id, asset)`, if any.
pub open spec fn allowance_of(c: PolicyContract, id: Seq<char>, asset: Seq<char>) -> Option<
    AssetAllowance,
> {
    if c.allowance_records().contains_key(id) && c.allowance_records()[id].contains_key(asset) {
        Some(c.allowance_records()[id][asset])
    } else {
        None
    }
}

/// The allowance store with `a` put under `(a.policy_id, a.asset)`.
pub open spec fn with_allowance(
    m: Map<Seq<char>, Map<Seq<char>, AssetAllowance>>,
    a: AssetAllowance,
) -> Map<Seq<char>, Map<Seq<char>, AssetAllowance>> {
    let inner = if m.contains_key(a.policy_id@) {
        m[a.policy_id@]
    } else {
        Map::empty()
    };
    m.insert(a.policy_id@, inner.insert(a.asset@, a))
}

impl PolicyContract {
    /// Whether `initialize` has run.
    pub closed spec fn is_initialized(self) -> bool {
        self.initialized
    }

    /// The policies by id.
    pub closed spec fn policy_records(self) -> Map<Seq<char>, Policy> {
        self.policies@
    }

    /// The asset whitelist of each policy.
    pub closed spec fn asset_whitelists(self) -> Map<Seq<char>, Seq<Address>> {
        self.asset_whitelists@.map_values(|v: Vec<Address>| v@)
    }

    /// The asset deny list of each policy.
    pub closed spec fn asset_blacklists(self) -> Map<Seq<char>, Seq<Address>> {
        self.asset_blacklists@.map_values(|v: Vec<Address>| v@)
    }

    /// Whether each policy enforces its asset whitelist.
    pub closed spec fn asset_modes(self) -> Map<Seq<char>, bool> {
        self.asset_modes@
    }

    /// The recipient whitelist of each policy, in insertion order.
    pub closed spec fn recipient_whitelists(self) -> Map<Seq<char>, Seq<Address>> {
        self.recipient_whitelists@.map_values(|v: Vec<Address>| v@)
    }

    /// Whether each policy enforces its recipient whitelist.
    pub closed spec fn recipient_modes(self) -> Map<Seq<char>, bool> {
        self.recipient_modes@
    }

    /// The allowances of each policy, by asset.
    pub closed spec fn allowance_records(self) -> Map<Seq<char>, Map<Seq<char>, AssetAllowance>> {
        self.allowances@.map_values(|t: Table<AssetAllowance>| t@)
    }

    /// The composite rule tree of each policy.
    pub closed spec fn composite_rules(self) -> Map<Seq<char>, Seq<RuleNode>> {
        self.composite_rules@.map_values(|v: Vec<RuleNode>| v@)
    }

    /// The rule stack of each policy.
    pub closed spec fn rule_stacks(self) -> Map<Seq<char>, Seq<Seq<RuleNode>>> {
        self.rule_stacks@.map_values(|v: Vec<Vec<RuleNode>>| v@.map_values(|t: Vec<RuleNode>| t@))
    }

    /// The recipient deny list (address to the policy that listed it).
    pub closed spec fn blacklisted(self) -> Map<Seq<char>, String> {
        self.blacklist@
    }

    /// The merchant deny list.
    pub closed spec fn merchants(self) -> Map<Seq<char>, String> {
        self.merchant_blacklist@
    }

    /// The category deny list.
    pub closed spec fn categories(self) -> Map<Seq<char>, String> {
        self.category_blacklist@
    }

    /// A fresh, uninitialized ledger with empty storage.
    pub fn new() -> (c: Self)
        ensures
            !c.is_initialized(),
            c.policy_records() == Map::<Seq<char>, Policy>::empty(),
            c.asset_whitelists() == Map::<Seq<char>, Seq<Address>>::empty(),
            c.asset_blacklists() == Map::<Seq<char>, Seq<Address>>::empty(),
            c.asset_modes() == Map::<Seq<char>, bool>::empty(),
            c.recipient_whitelists() == Map::<Seq<char>, Seq<Address>>::empty(),
            c.recipient_modes() == Map::<Seq<char>, bool>::empty(),
            c.allowance_records() == Map::<Seq<char>, Map<Seq<char>, AssetAllowance>>::empty(),
            c.composite_rules() == Map::<Seq<char>, Seq<RuleNode>>::empty(),
            c.rule_stacks() == Map::<Seq<char>, Seq<Seq<RuleNode>>>::empty(),
            c.blacklisted() == Map::<Seq<char>, String>::empty(),
            c.merchants() == Map::<Seq<char>, String>::empty(),
            c.categories() == Map::<Seq<char>, String>::empty(),
    {
        let c = PolicyContract {
            initialized: false,
            policies: Table::new(),
            asset_whitelists: Table::new(),
            asset_blacklists: Table::new(),
            asset_modes: Table::new(),
            recipient_whitelists: Table::new(),
            recipient_modes: Table::new(),
            allowances: Table::new(),
            composite_rules: Table::new(),
            rule_stacks: Table::new(),
            blacklist: Table::new(),
            merchant_blacklist: Table::new(),
            category_blacklist: Table::new(),
        };
        assert(c.asset_whitelists() =~= Map::<Seq<char>, Seq<Address>>::empty());
        assert(c.asset_blacklists() =~= Map::<Seq<char>, Seq<Address>>::empty());
        assert(c.recipient_whitelists() =~= Map::<Seq<char>, Seq<Address>>::empty());
        assert(c.allowance_records() =~= Map::<Seq<char>, Map<Seq<char>, AssetAllowance>>::empty());
        assert(c.composite_rules() =~= Map::<Seq<char>, Seq<RuleNode>>::empty());
        assert(c.rule_stacks() =~= Map::<Seq<char>, Seq<Seq<RuleNode>>>::empty());
        c
    }

    /// Initialize once.
    pub fn initialize(&mut self) -> (r: Result<(), Error>)
        ensures
            old(self).is_initialized() ==> r == Err::<(), Error>(Error::AlreadyInitialized)
                && *final(self) == *old(self),
            !old(self).is_initialized() ==> r is Ok && final(self).is_initialized() && keeps(
                *old(self),
                *final(self),
                Store::Initialized,
            ),
    {
        if self.initialized {
            return Err(Error::AlreadyInitialized);
        }
        self.initialized = true;
        Ok(())
    }

    /// The owner gate (see [`owner_check`]).
    fn require_policy_owner(&self, caller: &Address, policy_id: &String) -> (r: Result<(), Error>)
        ensures
            r == owner_check(*self, *policy_id, *caller),
    {
        match self.policies.get(policy_id) {
            None => Err(Error::NotFound),
            Some(p) => if p.owner == *caller {
                Ok(())
            } else {
                Err(Error::Unauthorized)
            },
        }
    }
}

/// Whether `x` is in the list stored under `id`.
fn list_has(t: &Table<Vec<Address>>, id: &String, x: &Address) -> (r: bool)
    ensures
        r == lists(list_of(t@.map_values(|v: Vec<Address>| v@), id@), *x),
{
    match t.get(id) {
        None => false,
        Some(v) => lists_key(v, x),
    }
}

/// Append `x` to the list stored under `id` (creating it).
fn list_push(t: &mut Table<Vec<Address>>, id: &String, x: Address)
    ensures
        final(t)@.map_values(|v: Vec<Address>| v@) == old(t)@.map_values(|v: Vec<Address>| v@).insert(
            id@,
            list_of(old(t)@.map_values(|v: Vec<Address>| v@), id@).push(x),
        ),
{
    let ghost before = t@;
    let mut v = match t.remove(id) {
        Some(v) => v,
        None => Vec::new(),
    };
    v.push(x);
    t.insert(id.clone(), v);
    proof {
        assert(t@.map_values(|v: Vec<Address>| v@) =~= before.map_values(|v: Vec<Address>| v@).insert(
            id@,
            list_of(before.map_values(|v: Vec<Address>| v@), id@).push(x),
        ));
    }
}

/// `v` without any entry equal to `x`, order kept.
fn copy_without(v: &Vec<Address>, x: &Address) -> (r: Vec<Address>)
    ensures
        r@ == without(v@, *x),
{
    let mut r: Vec<Address> = Vec::new();
    let mut i: usize = 0;
    while i < v.len()
        invariant
            i <= v@.len(),
            r@ == without(v@.subrange(0, i as int), *x),
        decreases v@.len() - i,
    {
        let ghost next = v@.subrange(0, i + 1);
        assert(next.drop_last() =~= v@.subrange(0, i as int));
        if !(v[i] == *x) {
            r.push(v[i].clone());
        }
        i = i + 1;
    }
    assert(v@.subrange(0, v@.len() as int) =~= v@);
    r
}

/// Drop `x` from the list stored under `id`.
fn list_drop(t: &mut Table<Vec<Address>>, id: &String, x: &Address)
    ensures
        final(t)@.map_values(|v: Vec<Address>| v@) == old(t)@.map_values(|v: Vec<Address>| v@).insert(
            id@,
            without(list_of(old(t)@.map_values(|v: Vec<Address>| v@), id@), *x),
        ),
{
    let ghost before = t@;
    let v = match t.remove(id) {
        Some(v) => v,
        None => Vec::new(),
    };
    let w = copy_without(&v, x);
    t.insert(id.clone(), w);
    proof {
        assert(without(Seq::<Address>::empty(), *x) =~= Seq::<Address>::empty());
        assert(t@.map_values(|v: Vec<Address>| v@) =~= before.map_values(|v: Vec<Address>| v@).insert(
            id@,
            without(list_of(before.map_values(|v: Vec<Address>| v@), id@), *x),
        ));
    }
}


impl PolicyContract {
    /// Register a policy under a fresh, non-empty id; `owner` gates every
    /// later change to it. The policy starts enabled.
    pub fn register_policy(
        &mut self,
        owner: Address,
        policy_id: String,
        config_hash: [u8; 32],
        max_amount: i128,
        allowed_recipient: Option<Address>,
        allowed_asset: Option<Address>,
        expires_at: u64,
    ) -> (r: Result<(), Error>)
        ensures
            policy_id@.len() == 0 ==> r == Err::<(), Error>(Error::InvalidInput) && *final(self)
                == *old(self),
            policy_id@.len() != 0 && old(self).policy_records().contains_key(policy_id@) ==> r
                == Err::<(), Error>(Error::AlreadyExists) && *final(self) == *old(self),
            policy_id@.len() != 0 && !old(self).policy_records().contains_key(policy_id@) ==> r is Ok
                && final(self).policy_records() == old(self).policy_records().insert(
                policy_id@,
                Policy {
                    owner,
                    config_hash,
                    max_amount,
                    allowed_recipient,
                    allowed_asset,
                    expires_at,
                    enabled: true,
                },
            ) && keeps(*old(self), *final(self), Store::Policies),
    {
        require_non_empty(&policy_id)?;
        if self.policies.contains(&policy_id) {
            return Err(Error::AlreadyExists);
        }
        let policy = Policy {
            owner,
            config_hash,
            max_amount,
            allowed_recipient,
            allowed_asset,
            expires_at,
            enabled: true,
        };
        self.policies.insert(policy_id, policy);
        Ok(())
    }

    /// Replace a policy's configuration hash and amount cap (owner only).
    pub fn rotate_policy(&mut self, caller: &Address, policy_id: &String, new_hash: [u8; 32], new_max: i128) -> (r: Result<(), Error>)
        ensures
            match owner_check(*old(self), *policy_id, *caller) {
                Err(e) => r == Err::<(), Error>(e) && *final(self) == *old(self),
                Ok(()) => r is Ok && final(self).policy_records() == old(self).policy_records().insert(
                    policy_id@,
                    Policy {
                        config_hash: new_hash,
                        max_amount: new_max,
                        ..old(self).policy_records()[policy_id@]
                    },
                ) && keeps(*old(self), *final(self), Store::Policies),
            },
    {
        self.require_policy_owner(caller, policy_id)?;
        let mut p = match self.policies.remove(policy_id) {
            Some(p) => p,
            None => return Err(Error::NotFound),
        };
        p.config_hash = new_hash;
        p.max_amount = new_max;
        self.policies.insert(policy_id.clone(), p);
        Ok(())
    }

    /// Enable or disable a policy (owner only); a disabled policy denies
    /// every transfer.
    pub fn set_enabled(&mut self, caller: &Address, policy_id: &String, enabled: bool) -> (r: Result<(), Error>)
        ensures
            match owner_check(*old(self), *policy_id, *caller) {
                Err(e) => r == Err::<(), Error>(e) && *final(self) == *old(self),
                Ok(()) => r is Ok && final(self).policy_records() == old(self).policy_records().insert(
                    policy_id@,
                    Policy { enabled, ..old(self).policy_records()[policy_id@] },
                ) && keeps(*old(self), *final(self), Store::Policies),
            },
    {
        self.require_policy_owner(caller, policy_id)?;
        let mut p = match self.policies.remove(policy_id) {
            Some(p) => p,
            None => return Err(Error::NotFound),
        };
        p.enabled = enabled;
        self.policies.insert(policy_id.clone(), p);
        Ok(())
    }

    /// Add an asset to the policy's whitelist (owner only; not twice).
    pub fn add_asset_to_whitelist(&mut self, caller: &Address, policy_id: &String, asset: Address) -> (r: Result<(), Error>)
        ensures
            match owner_check(*old(self), *policy_id, *caller) {
                Err(e) => r == Err::<(), Error>(e) && *final(self) == *old(self),
                Ok(()) => if lists(list_of(old(self).asset_whitelists(), policy_id@), asset) {
                    r == Err::<(), Error>(Error::AlreadyExists) && *final(self) == *old(self)
                } else {
                    r is Ok && final(self).asset_whitelists() == old(self).asset_whitelists().insert(
                        policy_id@,
                        list_of(old(self).asset_whitelists(), policy_id@).push(asset),
                    ) && keeps(*old(self), *final(self), Store::AssetWhitelists)
                },
            },
    {
        self.require_policy_owner(caller, policy_id)?;
        if list_has(&self.asset_whitelists, policy_id, &asset) {
            return Err(Error::AlreadyExists);
        }
        list_push(&mut self.asset_whitelists, policy_id, asset);
        Ok(())
    }

    /// Remove an asset from the policy's whitelist (owner only; it must be
    /// listed).
    pub fn remove_asset_from_whitelist(&mut self, caller: &Address, policy_id: &String, asset: &Address) -> (r: Result<(), Error>)
        ensures
            match owner_check(*old(self), *policy_id, *caller) {
                Err(e) => r == Err::<(), Error>(e) && *final(self) == *old(self),
                Ok(()) => if !lists(list_of(old(self).asset_whitelists(), policy_id@), *asset) {
                    r == Err::<(), Error>(Error::NotFound) && *final(self) == *old(self)
                } else {
                    r is Ok && final(self).asset_whitelists() == old(self).asset_whitelists().insert(
                        policy_id@,
                        without(list_of(old(self).asset_whitelists(), policy_id@), *asset),
                    ) && keeps(*old(self), *final(self), Store::AssetWhitelists)
                },
            },
    {
        self.require_policy_owner(caller, policy_id)?;
        if !list_has(&self.asset_whitelists, policy_id, asset) {
            return Err(Error::NotFound);
        }
        list_drop(&mut self.asset_whitelists, policy_id, asset);
        Ok(())
    }

    /// Deny an asset under this policy (owner only; not twice). The deny
    /// list wins over every allow gate.
    pub fn add_asset_blacklist(&mut self, caller: &Address, policy_id: &String, asset: Address) -> (r: Result<(), Error>)
        ensures
            match owner_check(*old(self), *policy_id, *caller) {
                Err(e) => r == Err::<(), Error>(e) && *final(self) == *old(self),
                Ok(()) => if lists(list_of(old(self).asset_blacklists(), policy_id@), asset) {
                    r == Err::<(), Error>(Error::AlreadyExists) && *final(self) == *old(self)
                } else {
                    r is Ok && final(self).asset_blacklists() == old(self).asset_blacklists().insert(
                        policy_id@,
                        list_of(old(self).asset_blacklists(), policy_id@).push(asset),
                    ) && keeps(*old(self), *final(self), Store::AssetBlacklists)
                },
            },
    {
        self.require_policy_owner(caller, policy_id)?;
        if list_has(&self.asset_blacklists, policy_id, &asset) {
            return Err(Error::AlreadyExists);
        }
        list_push(&mut self.asset_blacklists, policy_id, asset);
        Ok(())
    }

    /// Lift the denial of an asset under this policy (owner only; it must
    /// be listed).
    pub fn remove_asset_blacklist(&mut self, caller: &Address, policy_id: &String, asset: &Address) -> (r: Result<(), Error>)
        ensures
            match owner_check(*old(self), *policy_id, *caller) {
                Err(e) => r == Err::<(), Error>(e) && *final(self) == *old(self),
                Ok(()) => if !lists(list_of(old(self).asset_blacklists(), policy_id@), *asset) {
                    r == Err::<(), Error>(Error::NotFound) && *final(self) == *old(self)
                } else {
                    r is Ok && final(self).asset_blacklists() == old(self).asset_blacklists().insert(
                        policy_id@,
                        without(list_of(old(self).asset_blacklists(), policy_id@), *asset),
                    ) && keeps(*old(self), *final(self), Store::AssetBlacklists)
                },
            },
    {
        self.require_policy_owner(caller, policy_id)?;
        if !list_has(&self.asset_blacklists, policy_id, asset) {
            return Err(Error::NotFound);
        }
        list_drop(&mut self.asset_blacklists, policy_id, asset);
        Ok(())
    }

    /// Whether `asset` is denied under `policy_id`.
    pub fn is_asset_blacklisted(&self, policy_id: &String, asset: &Address) -> (r: bool)
        ensures
            r == lists(list_of(self.asset_blacklists(), policy_id@), *asset),
    {
        list_has(&self.asset_blacklists, policy_id, asset)
    }

    /// Turn the policy's asset whitelist on or off (owner only).
    pub fn set_asset_whitelist_enabled(&mut self, caller: &Address, policy_id: &String, enabled: bool) -> (r: Result<(), Error>)
        ensures
            match owner_check(*old(self), *policy_id, *caller) {
                Err(e) => r == Err::<(), Error>(e) && *final(self) == *old(self),
                Ok(()) => r is Ok && final(self).asset_modes() == old(self).asset_modes().insert(
                    policy_id@,
                    enabled,
                ) && keeps(*old(self), *final(self), Store::AssetModes),
            },
    {
        self.require_policy_owner(caller, policy_id)?;
        self.asset_modes.insert(policy_id.clone(), enabled);
        Ok(())
    }

    /// The asset whitelist gate: with the whitelist on, only listed assets
    /// pass (`AssetNotAuthorized` otherwise).
    pub fn validate_asset(&self, policy_id: &String, asset: &Address) -> (r: Result<(), Error>)
        ensures
            r == (if flag_of(self.asset_modes(), policy_id@) && !lists(
                list_of(self.asset_whitelists(), policy_id@),
                *asset,
            ) {
                Err::<(), Error>(Error::AssetNotAuthorized)
            } else {
                Ok(())
            }),
    {
        let enabled = match self.asset_modes.get(policy_id) {
            Some(b) => *b,
            None => false,
        };
        if !enabled {
            return Ok(());
        }
        if !list_has(&self.asset_whitelists, policy_id, asset) {
            return Err(Error::AssetNotAuthorized);
        }
        Ok(())
    }

    /// Put an address on the recipient deny list (owner of any policy; not
    /// twice). A listed recipient is refused before any other gate.
    pub fn add_blacklist(&mut self, caller: &Address, policy_id: &String, address: Address) -> (r: Result<(), Error>)
        ensures
            match owner_check(*old(self), *policy_id, *caller) {
                Err(e) => r == Err::<(), Error>(e) && *final(self) == *old(self),
                Ok(()) => if old(self).blacklisted().contains_key(address@) {
                    r == Err::<(), Error>(Error::AlreadyExists) && *final(self) == *old(self)
                } else {
                    r is Ok && final(self).blacklisted() == old(self).blacklisted().insert(address@, *policy_id)
                        && keeps(*old(self), *final(self), Store::Blacklist)
                },
            },
    {
        self.require_policy_owner(caller, policy_id)?;
        if self.blacklist.contains(&address) {
            return Err(Error::AlreadyExists);
        }
        self.blacklist.insert(address, policy_id.clone());
        Ok(())
    }

    /// Take an address off the recipient deny list (owner of any policy).
    pub fn remove_blacklist(&mut self, caller: &Address, policy_id: &String, address: &Address) -> (r: Result<(), Error>)
        ensures
            match owner_check(*old(self), *policy_id, *caller) {
                Err(e) => r == Err::<(), Error>(e) && *final(self) == *old(self),
                Ok(()) => if !old(self).blacklisted().contains_key(address@) {
                    r == Err::<(), Error>(Error::NotFound) && *final(self) == *old(self)
                } else {
                    r is Ok && final(self).blacklisted() == old(self).blacklisted().remove(address@)
                        && keeps(*old(self), *final(self), Store::Blacklist)
                },
            },
    {
        self.require_policy_owner(caller, policy_id)?;
        if !self.blacklist.contains(address) {
            return Err(Error::NotFound);
        }
        self.blacklist.remove(address);
        Ok(())
    }

    /// Put a merchant on the merchant deny list (policy owner; not twice).
    pub fn add_merchant_blacklist(&mut self, caller: &Address, policy_id: &String, merchant_address: Address) -> (r: Result<(), Error>)
        ensures
            match owner_check(*old(self), *policy_id, *caller) {
                Err(e) => r == Err::<(), Error>(e) && *final(self) == *old(self),
                Ok(()) => if old(self).merchants().contains_key(merchant_address@) {
                    r == Err::<(), Error>(Error::AlreadyExists) && *final(self) == *old(self)
                } else {
                    r is Ok && final(self).merchants() == old(self).merchants().insert(merchant_address@, *policy_id)
                        && keeps(*old(self), *final(self), Store::MerchantBlacklist)
                },
            },
    {
        self.require_policy_owner(caller, policy_id)?;
        if self.merchant_blacklist.contains(&merchant_address) {
            return Err(Error::AlreadyExists);
        }
        self.merchant_blacklist.insert(merchant_address, policy_id.clone());
        Ok(())
    }

    /// Take a merchant off the merchant deny list (policy owner).
    pub fn remove_merchant_blacklist(&mut self, caller: &Address, policy_id: &String, merchant_address: &Address) -> (r: Result<(), Error>)
        ensures
            match owner_check(*old(self), *policy_id, *caller) {
                Err(e) => r == Err::<(), Error>(e) && *final(self) == *old(self),
                Ok(()) => if !old(self).merchants().contains_key(merchant_address@) {
                    r == Err::<(), Error>(Error::NotFound) && *final(self) == *old(self)
                } else {
                    r is Ok && final(self).merchants() == old(self).merchants().remove(merchant_address@)
                        && keeps(*old(self), *final(self), Store::MerchantBlacklist)
                },
            },
    {
        self.require_policy_owner(caller, policy_id)?;
        if !self.merchant_blacklist.contains(merchant_address) {
            return Err(Error::NotFound);
        }
        self.merchant_blacklist.remove(merchant_address);
        Ok(())
    }

    /// Restrict a spending category (policy owner; non-empty; not twice).
    pub fn add_category_blacklist(&mut self, caller: &Address, policy_id: &String, category: String) -> (r: Result<(), Error>)
        ensures
            match owner_check(*old(self), *policy_id, *caller) {
                Err(e) => r == Err::<(), Error>(e) && *final(self) == *old(self),
                Ok(()) => if category@.len() == 0 {
                    r == Err::<(), Error>(Error::InvalidInput) && *final(self) == *old(self)
                } else if old(self).categories().contains_key(category@) {
                    r == Err::<(), Error>(Error::AlreadyExists) && *final(self) == *old(self)
                } else {
                    r is Ok && final(self).categories() == old(self).categories().insert(
                        category@,
                        *policy_id,
                    ) && keeps(*old(self), *final(self), Store::CategoryBlacklist)
                },
            },
    {
        self.require_policy_owner(caller, policy_id)?;
        require_non_empty(&category)?;
        if self.category_blacklist.contains(&category) {
            return Err(Error::AlreadyExists);
        }
        self.category_blacklist.insert(category, policy_id.clone());
        Ok(())
    }

    /// Lift a category restriction (policy owner; it must be listed).
    pub fn remove_category_blacklist(&mut self, caller: &Address, policy_id: &String, category: &String) -> (r: Result<(), Error>)
        ensures
            match owner_check(*old(self), *policy_id, *caller) {
                Err(e) => r == Err::<(), Error>(e) && *final(self) == *old(self),
                Ok(()) => if !old(self).categories().contains_key(category@) {
                    r == Err::<(), Error>(Error::NotFound) && *final(self) == *old(self)
                } else {
                    r is Ok && final(self).categories() == old(self).categories().remove(category@)
                        && keeps(*old(self), *final(self), Store::CategoryBlacklist)
                },
            },
    {
        self.require_policy_owner(caller, policy_id)?;
        if !self.category_blacklist.contains(category) {
            return Err(Error::NotFound);
        }
        self.category_blacklist.remove(category);
        Ok(())
    }

    /// Put a recipient on the blocklist: the recipient deny list, refused
    /// before any other gate (owner; not twice).
    pub fn add_to_blocklist(&mut self, caller: &Address, policy_id: &String, address: Address) -> (r: Result<(), Error>)
        ensures
            match owner_check(*old(self), *policy_id, *caller) {
                Err(e) => r == Err::<(), Error>(e) && *final(self) == *old(self),
                Ok(()) => if old(self).blacklisted().contains_key(address@) {
                    r == Err::<(), Error>(Error::AlreadyExists) && *final(self) == *old(self)
                } else {
                    r is Ok && final(self).blacklisted() == old(self).blacklisted().insert(
                        address@,
                        *policy_id,
                    ) && keeps(*old(self), *final(self), Store::Blacklist)
                },
            },
    {
        self.add_blacklist(caller, policy_id, address)
    }

    /// Take a recipient off the blocklist (owner; it must be listed).
    pub fn remove_from_blocklist(&mut self, caller: &Address, policy_id: &String, address: &Address) -> (r: Result<(), Error>)
        ensures
            match owner_check(*old(self), *policy_id, *caller) {
                Err(e) => r == Err::<(), Error>(e) && *final(self) == *old(self),
                Ok(()) => if !old(self).blacklisted().contains_key(address@) {
                    r == Err::<(), Error>(Error::NotFound) && *final(self) == *old(self)
                } else {
                    r is Ok && final(self).blacklisted() == old(self).blacklisted().remove(address@)
                        && keeps(*old(self), *final(self), Store::Blacklist)
                },
            },
    {
        self.remove_blacklist(caller, policy_id, address)
    }

    /// Turn recipient whitelist mode on or off (owner only). While on, only
    /// listed recipients pass; an empty whitelist denies every recipient.
    pub fn set_recipient_whitelist_enabled(&mut self, caller: &Address, policy_id: &String, enabled: bool) -> (r: Result<(), Error>)
        ensures
            match owner_check(*old(self), *policy_id, *caller) {
                Err(e) => r == Err::<(), Error>(e) && *final(self) == *old(self),
                Ok(()) => r is Ok && final(self).recipient_modes() == old(self).recipient_modes().insert(
                    policy_id@,
                    enabled,
                ) && keeps(*old(self), *final(self), Store::RecipientModes),
            },
    {
        self.require_policy_owner(caller, policy_id)?;
        self.recipient_modes.insert(policy_id.clone(), enabled);
        Ok(())
    }

    /// Add a recipient to the policy's whitelist (owner only; not twice).
    pub fn add_recipient_to_whitelist(&mut self, caller: &Address, policy_id: &String, recipient: Address) -> (r: Result<(), Error>)
        ensures
            match owner_check(*old(self), *policy_id, *caller) {
                Err(e) => r == Err::<(), Error>(e) && *final(self) == *old(self),
                Ok(()) => if lists(list_of(old(self).recipient_whitelists(), policy_id@), recipient) {
                    r == Err::<(), Error>(Error::AlreadyExists) && *final(self) == *old(self)
                } else {
                    r is Ok && final(self).recipient_whitelists()
                        == old(self).recipient_whitelists().insert(
                        policy_id@,
                        list_of(old(self).recipient_whitelists(), policy_id@).push(recipient),
                    ) && keeps(*old(self), *final(self), Store::RecipientWhitelists)
                },
            },
    {
        self.require_policy_owner(caller, policy_id)?;
        if list_has(&self.recipient_whitelists, policy_id, &recipient) {
            return Err(Error::AlreadyExists);
        }
        list_push(&mut self.recipient_whitelists, policy_id, recipient);
        Ok(())
    }

    /// Remove a recipient from the policy's whitelist (owner only; it must
    /// be listed). The others keep their order.
    pub fn remove_recipient_from_whitelist(&mut self, caller: &Address, policy_id: &String, recipient: &Address) -> (r: Result<(), Error>)
        ensures
            match owner_check(*old(self), *policy_id, *caller) {
                Err(e) => r == Err::<(), Error>(e) && *final(self) == *old(self),
                Ok(()) => if !lists(list_of(old(self).recipient_whitelists(), policy_id@), *recipient) {
                    r == Err::<(), Error>(Error::NotFound) && *final(self) == *old(self)
                } else {
                    r is Ok && final(self).recipient_whitelists()
                        == old(self).recipient_whitelists().insert(
                        policy_id@,
                        without(list_of(old(self).recipient_whitelists(), policy_id@), *recipient),
                    ) && keeps(*old(self), *final(self), Store::RecipientWhitelists)
                },
            },
    {
        self.require_policy_owner(caller, policy_id)?;
        if !list_has(&self.recipient_whitelists, policy_id, recipient) {
            return Err(Error::NotFound);
        }
        list_drop(&mut self.recipient_whitelists, policy_id, recipient);
        Ok(())
    }

    /// Whether `recipient` is on the policy's whitelist (whether or not the
    /// mode is on).
    pub fn is_recipient_whitelisted(&self, policy_id: &String, recipient: &Address) -> (r: bool)
        ensures
            r == lists(list_of(self.recipient_whitelists(), policy_id@), *recipient),
    {
        list_has(&self.recipient_whitelists, policy_id, recipient)
    }

    /// Every whitelisted recipient of the policy, in insertion order.
    pub fn get_recipient_whitelist(&self, policy_id: &String) -> (r: Vec<Address>)
        ensures
            r@ == list_of(self.recipient_whitelists(), policy_id@),
    {
        match self.recipient_whitelists.get(policy_id) {
            None => Vec::new(),
            Some(v) => copy_strings(v),
        }
    }

    /// Short form of [`Self::set_recipient_whitelist_enabled`].
    pub fn set_whitelist_enabled(&mut self, caller: &Address, policy_id: &String, enabled: bool) -> (r: Result<(), Error>)
        ensures
            match owner_check(*old(self), *policy_id, *caller) {
                Err(e) => r == Err::<(), Error>(e) && *final(self) == *old(self),
                Ok(()) => r is Ok && final(self).recipient_modes() == old(self).recipient_modes().insert(
                    policy_id@,
                    enabled,
                ) && keeps(*old(self), *final(self), Store::RecipientModes),
            },
    {
        self.set_recipient_whitelist_enabled(caller, policy_id, enabled)
    }

    /// Short form of [`Self::add_recipient_to_whitelist`].
    pub fn add_whitelist(&mut self, caller: &Address, policy_id: &String, recipient: Address) -> (r: Result<(), Error>)
        ensures
            match owner_check(*old(self), *policy_id, *caller) {
                Err(e) => r == Err::<(), Error>(e) && *final(self) == *old(self),
                Ok(()) => if lists(list_of(old(self).recipient_whitelists(), policy_id@), recipient) {
                    r == Err::<(), Error>(Error::AlreadyExists) && *final(self) == *old(self)
                } else {
                    r is Ok && final(self).recipient_whitelists()
                        == old(self).recipient_whitelists().insert(
                        policy_id@,
                        list_of(old(self).recipient_whitelists(), policy_id@).push(recipient),
                    ) && keeps(*old(self), *final(self), Store::RecipientWhitelists)
                },
            },
    {
        self.add_recipient_to_whitelist(caller, policy_id, recipient)
    }

    /// Short form of [`Self::remove_recipient_from_whitelist`].
    pub fn remove_whitelist(&mut self, caller: &Address, policy_id: &String, recipient: &Address) -> (r: Result<(), Error>)
        ensures
            match owner_check(*old(self), *policy_id, *caller) {
                Err(e) => r == Err::<(), Error>(e) && *final(self) == *old(self),
                Ok(()) => if !lists(list_of(old(self).recipient_whitelists(), policy_id@), *recipient) {
                    r == Err::<(), Error>(Error::NotFound) && *final(self) == *old(self)
                } else {
                    r is Ok && final(self).recipient_whitelists()
                        == old(self).recipient_whitelists().insert(
                        policy_id@,
                        without(list_of(old(self).recipient_whitelists(), policy_id@), *recipient),
                    ) && keeps(*old(self), *final(self), Store::RecipientWhitelists)
                },
            },
    {
        self.remove_recipient_from_whitelist(caller, policy_id, recipient)
    }

    /// The recipient whitelist gate for `payload`'s recipient: with the mode
    /// on, an unlisted recipient is `PolicyDenied`.
    pub fn evaluate_recipient_whitelist(&self, policy_id: &String, payload: &TransactionPayload) -> (r: Result<(), Error>)
        ensures
            r == recipient_gate(*self, *policy_id, payload.recipient),
    {
        self.check_recipient_whitelist(policy_id, &payload.recipient)
    }

    fn check_recipient_whitelist(&self, policy_id: &String, recipient: &Address) -> (r: Result<(), Error>)
        ensures
            r == recipient_gate(*self, *policy_id, *recipient),
    {
        let enabled = match self.recipient_modes.get(policy_id) {
            Some(b) => *b,
            None => false,
        };
        if !enabled {
            return Ok(());
        }
        if !list_has(&self.recipient_whitelists, policy_id, recipient) {
            return Err(Error::PolicyDenied);
        }
        Ok(())
    }

    /// The category gate: an empty category always passes; a restricted
    /// one is `PolicyCategoryRestricted`.
    pub fn check_category(&self, policy_id: &String, category: &String) -> (r: Result<(), Error>)
        ensures
            r == (if category@.len() != 0 && self.categories().contains_key(category@) {
                Err::<(), Error>(Error::PolicyCategoryRestricted)
            } else {
                Ok(())
            }),
    {
        if category.as_str().is_empty() {
            return Ok(());
        }
        if self.category_blacklist.contains(category) {
            return Err(Error::PolicyCategoryRestricted);
        }
        Ok(())
    }

    /// The policy record.
    pub fn get(&self, policy_id: &String) -> (r: Result<Policy, Error>)
        ensures
            match self.policy_records().get(policy_id@) {
                Some(p) => r == Ok::<Policy, Error>(p),
                None => r == Err::<Policy, Error>(Error::NotFound),
            },
    {
        match self.policies.get(policy_id) {
            Some(p) => Ok(p.copied()),
            None => Err(Error::NotFound),
        }
    }
}

/// The recipient whitelist gate (see `evaluate_recipient_whitelist`).
pub open spec fn recipient_gate(c: PolicyContract, id: String, recipient: Address) -> Result<(), Error> {
    if flag_of(c.recipient_modes(), id@) && !lists(list_of(c.recipient_whitelists(), id@), recipient) {
        Err(Error::PolicyDenied)
    } else {
        Ok(())
    }
}

/// The allowance as reported at `now`: the stored record (or a zeroed one
/// for `(id, asset)` when none is stored) with its window settled.
pub open spec fn reported_allowance(c: PolicyContract, id: String, asset: Address, now: u64) -> AssetAllowance {
    match allowance_of(c, id@, asset@) {
        Some(a) => settle(a, now),
        None => AssetAllowance {
            policy_id: id,
            asset,
            limit: 0,
            spent: 0,
            expires_at: 0,
            window_seconds: 0,
            window_start: 0,
        },
    }
}

/// The record `set_allowance` / `set_recurring_allowance` store: the
/// reported allowance (spend kept), anchored at `now` when new; a changed
/// window length re-anchors at `now`; then the new limit and expiry.
pub open spec fn configured_allowance(
    c: PolicyContract,
    id: String,
    asset: Address,
    limit: i128,
    window: Option<u64>,
    expires_at: u64,
    now: u64,
) -> AssetAllowance {
    let base = reported_allowance(c, id, asset, now);
    let anchored = if allowance_of(c, id@, asset@) is None {
        AssetAllowance { window_start: now, ..base }
    } else {
        base
    };
    let windowed = match window {
        Some(w) => if w != anchored.window_seconds {
            AssetAllowance { window_seconds: w, window_start: now, ..anchored }
        } else {
            anchored
        },
        None => anchored,
    };
    AssetAllowance { limit, expires_at, policy_id: id, asset, ..windowed }
}

impl PolicyContract {
    fn stored_allowance(&self, policy_id: &String, asset: &Address) -> (r: Option<&AssetAllowance>)
        ensures
            match r {
                Some(a) => allowance_of(*self, policy_id@, asset@) == Some(*a),
                None => allowance_of(*self, policy_id@, asset@) is None,
            },
    {
        match self.allowances.get(policy_id) {
            None => None,
            Some(inner) => inner.get(asset),
        }
    }

    /// Store `a` under `(a.policy_id, a.asset)`.
    fn persist(&mut self, a: AssetAllowance)
        ensures
            final(self).allowance_records() == with_allowance(old(self).allowance_records(), a),
            keeps(*old(self), *final(self), Store::Allowances),
    {
        let ghost before = self.allowances@;
        let pid = a.policy_id.clone();
        let mut inner = match self.allowances.remove(&pid) {
            Some(t) => t,
            None => Table::new(),
        };
        inner.insert(a.asset.clone(), a);
        self.allowances.insert(pid, inner);
        proof {
            assert(self.allowance_records() =~= with_allowance(
                before.map_values(|t: Table<AssetAllowance>| t@),
                a,
            ));
        }
    }

    /// The allowance for `(policy_id, asset)` as of `now`: the stored record
    /// with any passed window boundary settled, or a zeroed record
    /// (unrestricted) when none is configured.
    pub fn get_allowance(&self, policy_id: &String, asset: &Address, now: u64) -> (r: AssetAllowance)
        ensures
            r == reported_allowance(*self, *policy_id, *asset, now),
    {
        match self.stored_allowance(policy_id, asset) {
            Some(a) => {
                let mut s = a.copied();
                settle_window(&mut s, now);
                s
            },
            None => AssetAllowance {
                policy_id: policy_id.clone(),
                asset: asset.clone(),
                limit: 0,
                spent: 0,
                expires_at: 0,
                window_seconds: 0,
                window_start: 0,
            },
        }
    }

    fn store_allowance(
        &mut self,
        caller: &Address,
        policy_id: &String,
        asset: &Address,
        limit: i128,
        window: Option<u64>,
        expires_at: u64,
        now: u64,
    ) -> (r: Result<(), Error>)
        ensures
            match owner_check(*old(self), *policy_id, *caller) {
                Err(e) => r == Err::<(), Error>(e) && *final(self) == *old(self),
                Ok(()) => if limit < 0 {
                    r == Err::<(), Error>(Error::InvalidAmount) && *final(self) == *old(self)
                } else {
                    r is Ok && final(self).allowance_records() == with_allowance(
                        old(self).allowance_records(),
                        configured_allowance(
                            *old(self),
                            *policy_id,
                            *asset,
                            limit,
                            window,
                            expires_at,
                            now,
                        ),
                    ) && keeps(*old(self), *final(self), Store::Allowances)
                },
            },
    {
        self.require_policy_owner(caller, policy_id)?;
        if limit < 0 {
            return Err(Error::InvalidAmount);
        }
        let mut a = self.get_allowance(policy_id, asset, now);
        if self.stored_allowance(policy_id, asset).is_none() {
            a.window_start = now;
        }
        match window {
            Some(w) => {
                if w != a.window_seconds {
                    a.window_seconds = w;
                    a.window_start = now;
                }
            },
            None => {},
        }
        a.limit = limit;
        a.expires_at = expires_at;
        a.policy_id = policy_id.clone();
        a.asset = asset.clone();
        self.persist(a);
        Ok(())
    }

    /// Create or update the cumulative allowance for `(policy_id, asset)`
    /// (owner only; non-negative limit; `expires_at == 0` = never). Spend
    /// already recorded is kept, and an existing window is kept.
    pub fn set_allowance(
        &mut self,
        caller: &Address,
        policy_id: &String,
        asset: &Address,
        limit: i128,
        expires_at: u64,
        now: u64,
    ) -> (r: Result<(), Error>)
        ensures
            match owner_check(*old(self), *policy_id, *caller) {
                Err(e) => r == Err::<(), Error>(e) && *final(self) == *old(self),
                Ok(()) => if limit < 0 {
                    r == Err::<(), Error>(Error::InvalidAmount) && *final(self) == *old(self)
                } else {
                    r is Ok && final(self).allowance_records() == with_allowance(
                        old(self).allowance_records(),
                        configured_allowance(
                            *old(self),
                            *policy_id,
                            *asset,
                            limit,
                            None,
                            expires_at,
                            now,
                        ),
                    ) && keeps(*old(self), *final(self), Store::Allowances)
                },
            },
    {
        self.store_allowance(caller, policy_id, asset, limit, None, expires_at, now)
    }

    /// Create or update a recurring allowance: at most `limit` per window of
    /// `window_seconds` (`0` = cumulative). A changed window length
    /// re-anchors the window at `now`; recorded spend is kept.
    pub fn set_recurring_allowance(
        &mut self,
        caller: &Address,
        policy_id: &String,
        asset: &Address,
        limit: i128,
        window_seconds: u64,
        expires_at: u64,
        now: u64,
    ) -> (r: Result<(), Error>)
        ensures
            match owner_check(*old(self), *policy_id, *caller) {
                Err(e) => r == Err::<(), Error>(e) && *final(self) == *old(self),
                Ok(()) => if limit < 0 {
                    r == Err::<(), Error>(Error::InvalidAmount) && *final(self) == *old(self)
                } else {
                    r is Ok && final(self).allowance_records() == with_allowance(
                        old(self).allowance_records(),
                        configured_allowance(
                            *old(self),
                            *policy_id,
                            *asset,
                            limit,
                            Some(window_seconds),
                            expires_at,
                            now,
                        ),
                    ) && keeps(*old(self), *final(self), Store::Allowances)
                },
            },
    {
        self.store_allowance(caller, policy_id, asset, limit, Some(window_seconds), expires_at, now)
    }

    /// Remove the allowance for `(policy_id, asset)` (owner only; it must
    /// exist). The asset is then unrestricted again.
    pub fn remove_allowance(&mut self, caller: &Address, policy_id: &String, asset: &Address) -> (r: Result<(), Error>)
        ensures
            match owner_check(*old(self), *policy_id, *caller) {
                Err(e) => r == Err::<(), Error>(e) && *final(self) == *old(self),
                Ok(()) => if allowance_of(*old(self), policy_id@, asset@) is None {
                    r == Err::<(), Error>(Error::NotFound) && *final(self) == *old(self)
                } else {
                    r is Ok && final(self).allowance_records() == old(self).allowance_records().insert(
                        policy_id@,
                        old(self).allowance_records()[policy_id@].remove(asset@),
                    ) && keeps(*old(self), *final(self), Store::Allowances)
                },
            },
    {
        self.require_policy_owner(caller, policy_id)?;
        if self.stored_allowance(policy_id, asset).is_none() {
            return Err(Error::NotFound);
        }
        let ghost before = self.allowances@;
        let mut inner = match self.allowances.remove(policy_id) {
            Some(t) => t,
            None => Table::new(),
        };
        inner.remove(asset);
        self.allowances.insert(policy_id.clone(), inner);
        proof {
            assert(self.allowance_records() =~= before.map_values(|t: Table<AssetAllowance>| t@).insert(
                policy_id@,
                before.map_values(|t: Table<AssetAllowance>| t@)[policy_id@].remove(asset@),
            ));
        }
        Ok(())
    }

    /// Whether spending `amount` (non-negative) of `asset` fits the
    /// allowance at `now`: the headroom left after such a spend, or
    /// `i128::MAX` when no allowance is enforced.
    pub fn check_allowance(&self, policy_id: &String, asset: &Address, amount: i128, now: u64) -> (r: Result<i128, Error>)
        ensures
            r == (if amount < 0 {
                Err::<i128, Error>(Error::InvalidAmount)
            } else {
                match consume(allowance_of(*self, policy_id@, asset@), amount, now) {
                    Err(e) => Err(e),
                    Ok(None) => Ok(i128::MAX),
                    Ok(Some(a)) => spec_checked_sub(a.limit, a.spent),
                }
            }),
    {
        if amount < 0 {
            return Err(Error::InvalidAmount);
        }
        match consume_allowance(self.stored_allowance(policy_id, asset), amount, now)? {
            None => Ok(i128::MAX),
            Some(a) => checked_sub(a.limit, a.spent),
        }
    }

    /// Record a spend of `amount` (positive) against the allowance (owner
    /// only); refused when it does not fit. Nothing is recorded when no
    /// allowance is enforced.
    pub fn update_allowance(&mut self, caller: &Address, policy_id: &String, asset: &Address, amount: i128, now: u64) -> (r: Result<(), Error>)
        ensures
            match owner_check(*old(self), *policy_id, *caller) {
                Err(e) => r == Err::<(), Error>(e) && *final(self) == *old(self),
                Ok(()) => if amount <= 0 {
                    r == Err::<(), Error>(Error::InvalidAmount) && *final(self) == *old(self)
                } else {
                    match consume(allowance_of(*old(self), policy_id@, asset@), amount, now) {
                        Err(e) => r == Err::<(), Error>(e) && *final(self) == *old(self),
                        Ok(None) => r is Ok && *final(self) == *old(self),
                        Ok(Some(a)) => r is Ok && final(self).allowance_records() == with_allowance(
                            old(self).allowance_records(),
                            a,
                        ) && keeps(*old(self), *final(self), Store::Allowances),
                    }
                },
            },
    {
        self.require_policy_owner(caller, policy_id)?;
        if amount <= 0 {
            return Err(Error::InvalidAmount);
        }
        match consume_allowance(self.stored_allowance(policy_id, asset), amount, now)? {
            None => {},
            Some(a) => {
                self.persist(a);
            },
        }
        Ok(())
    }
}

/// A node-for-node copy of a rule tree.
pub fn copy_nodes(v: &Vec<RuleNode>) -> (r: Vec<RuleNode>)
    ensures
        r@ == v@,
{
    let mut r: Vec<RuleNode> = Vec::new();
    let mut i: usize = 0;
    while i < v.len()
        invariant
            i <= v@.len(),
            r@ == v@.subrange(0, i as int),
        decreases v@.len() - i,
    {
        r.push(v[i].copied());
        i = i + 1;
        assert(r@ =~= v@.subrange(0, i as int));
    }
    assert(v@.subrange(0, v@.len() as int) =~= v@);
    r
}

/// A tree-for-tree copy of a rule stack.
fn copy_stack(v: &Vec<Vec<RuleNode>>) -> (r: Vec<Vec<RuleNode>>)
    ensures
        r@.map_values(|t: Vec<RuleNode>| t@) == v@.map_values(|t: Vec<RuleNode>| t@),
{
    let mut r: Vec<Vec<RuleNode>> = Vec::new();
    let mut i: usize = 0;
    while i < v.len()
        invariant
            i <= v@.len(),
            r@.len() == i,
            forall|j: int| 0 <= j < i ==> #[trigger] r@[j]@ == v@[j]@,
        decreases v@.len() - i,
    {
        r.push(copy_nodes(&v[i]));
        i = i + 1;
    }
    assert(r@.map_values(|t: Vec<RuleNode>| t@) =~= v@.map_values(|t: Vec<RuleNode>| t@));
    r
}

/// The rule stack of policy `id` (empty when none is stored).
pub open spec fn stack_of(c: PolicyContract, id: Seq<char>) -> Seq<Seq<RuleNode>> {
    if c.rule_stacks().contains_key(id) {
        c.rule_stacks()[id]
    } else {
        Seq::empty()
    }
}

/// The composite rule's verdict on `payload`: permissive when none (or an
/// empty tree) is stored, otherwise the root's value.
pub open spec fn composite_outcome(c: PolicyContract, id: Seq<char>, payload: TransactionPayload) -> Result<
    bool,
    Error,
> {
    if !c.composite_rules().contains_key(id) || c.composite_rules()[id].len() == 0 {
        Ok(true)
    } else {
        eval_node(
            c.composite_rules()[id],
            0,
            payload,
            MAX_RULE_DEPTH as nat,
            c.blacklisted().contains_key(payload.recipient@),
            c.merchants().contains_key(payload.recipient@),
        )
    }
}

/// The rule stack's verdict from position `i` on: every non-empty tree
/// must hold; the first error or `false` decides.
pub open spec fn stack_outcome(
    stack: Seq<Seq<RuleNode>>,
    i: int,
    payload: TransactionPayload,
    rb: bool,
    mb: bool,
) -> Result<bool, Error>
    decreases stack.len() - i,
{
    if i < 0 || i >= stack.len() {
        Ok(true)
    } else if stack[i].len() == 0 {
        stack_outcome(stack, i + 1, payload, rb, mb)
    } else {
        match eval_node(stack[i], 0, payload, MAX_RULE_DEPTH as nat, rb, mb) {
            Err(e) => Err(e),
            Ok(false) => Ok(false),
            Ok(true) => stack_outcome(stack, i + 1, payload, rb, mb),
        }
    }
}

/// The verdict of policy `id`'s rule stack on `payload`.
pub open spec fn rules_outcome(c: PolicyContract, id: Seq<char>, payload: TransactionPayload) -> Result<
    bool,
    Error,
> {
    stack_outcome(
        stack_of(c, id),
        0,
        payload,
        c.blacklisted().contains_key(payload.recipient@),
        c.merchants().contains_key(payload.recipient@),
    )
}

impl PolicyContract {
    /// Set or replace the policy's composite rule tree (owner only;
    /// non-empty). It is evaluated by `check_transfer` after the scalar
    /// gates.
    pub fn set_composite_rule(&mut self, caller: &Address, policy_id: &String, rule_tree: Vec<RuleNode>) -> (r: Result<(), Error>)
        ensures
            match owner_check(*old(self), *policy_id, *caller) {
                Err(e) => r == Err::<(), Error>(e) && *final(self) == *old(self),
                Ok(()) => if rule_tree@.len() == 0 {
                    r == Err::<(), Error>(Error::InvalidInput) && *final(self) == *old(self)
                } else {
                    r is Ok && final(self).composite_rules() == old(self).composite_rules().insert(
                        policy_id@,
                        rule_tree@,
                    ) && keeps(*old(self), *final(self), Store::CompositeRules)
                },
            },
    {
        self.require_policy_owner(caller, policy_id)?;
        if rule_tree.len() == 0 {
            return Err(Error::InvalidInput);
        }
        let ghost before = self.composite_rules@;
        let ghost tree = rule_tree@;
        self.composite_rules.insert(policy_id.clone(), rule_tree);
        proof {
            assert(self.composite_rules() =~= before.map_values(|v: Vec<RuleNode>| v@).insert(
                policy_id@,
                tree,
            ));
        }
        Ok(())
    }

    /// Remove the policy's composite rule (owner only; it must exist).
    pub fn clear_composite_rule(&mut self, caller: &Address, policy_id: &String) -> (r: Result<(), Error>)
        ensures
            match owner_check(*old(self), *policy_id, *caller) {
                Err(e) => r == Err::<(), Error>(e) && *final(self) == *old(self),
                Ok(()) => if !old(self).composite_rules().contains_key(policy_id@) {
                    r == Err::<(), Error>(Error::NotFound) && *final(self) == *old(self)
                } else {
                    r is Ok && final(self).composite_rules() == old(self).composite_rules().remove(
                        policy_id@,
                    ) && keeps(*old(self), *final(self), Store::CompositeRules)
                },
            },
    {
        self.require_policy_owner(caller, policy_id)?;
        if !self.composite_rules.contains(policy_id) {
            return Err(Error::NotFound);
        }
        let ghost before = self.composite_rules@;
        self.composite_rules.remove(policy_id);
        proof {
            assert(self.composite_rules() =~= before.map_values(|v: Vec<RuleNode>| v@).remove(
                policy_id@,
            ));
        }
        Ok(())
    }

    /// The policy's composite rule tree.
    pub fn get_composite_rule(&self, policy_id: &String) -> (r: Result<Vec<RuleNode>, Error>)
        ensures
            match r {
                Ok(t) => self.composite_rules().contains_key(policy_id@) && t@
                    == self.composite_rules()[policy_id@],
                Err(e) => !self.composite_rules().contains_key(policy_id@) && e == Error::NotFound,
            },
    {
        match self.composite_rules.get(policy_id) {
            Some(t) => Ok(copy_nodes(t)),
            None => Err(Error::NotFound),
        }
    }

    /// The composite rule's verdict on `payload` (permissive without one).
    pub fn evaluate_composite_rule(&self, policy_id: &String, payload: &TransactionPayload) -> (r: Result<bool, Error>)
        ensures
            r == composite_outcome(*self, policy_id@, *payload),
    {
        let rb = self.blacklist.contains(&payload.recipient);
        let mb = self.merchant_blacklist.contains(&payload.recipient);
        match self.composite_rules.get(policy_id) {
            None => Ok(true),
            Some(t) => {
                if t.len() == 0 {
                    Ok(true)
                } else {
                    evaluate_node(t, 0, payload, MAX_RULE_DEPTH, rb, mb)
                }
            },
        }
    }

    /// Stack one more rule tree on the policy (owner only). The tree must be
    /// well formed, and at most `MAX_POLICY_RULES` may be stacked. Returns
    /// the new number of stacked rules.
    pub fn add_policy_rule(&mut self, caller: &Address, policy_id: &String, rule_tree: Vec<RuleNode>) -> (r: Result<u32, Error>)
        ensures
            match owner_check(*old(self), *policy_id, *caller) {
                Err(e) => r == Err::<u32, Error>(e) && *final(self) == *old(self),
                Ok(()) => match tree_check(rule_tree@) {
                    Err(e) => r == Err::<u32, Error>(e) && *final(self) == *old(self),
                    Ok(()) => if stack_of(*old(self), policy_id@).len() >= MAX_POLICY_RULES {
                        r == Err::<u32, Error>(Error::InvalidInput) && *final(self) == *old(self)
                    } else {
                        r == Ok::<u32, Error>((stack_of(*old(self), policy_id@).len() + 1) as u32)
                            && final(self).rule_stacks() == old(self).rule_stacks().insert(
                            policy_id@,
                            stack_of(*old(self), policy_id@).push(rule_tree@),
                        ) && keeps(*old(self), *final(self), Store::RuleStacks)
                    },
                },
            },
    {
        self.require_policy_owner(caller, policy_id)?;
        validate_rule_tree(&rule_tree)?;
        let n = match self.rule_stacks.get(policy_id) {
            Some(v) => v.len(),
            None => 0,
        };
        if n >= MAX_POLICY_RULES {
            return Err(Error::InvalidInput);
        }
        let ghost before = self.rule_stacks@;
        let ghost tree = rule_tree@;
        let mut stack = match self.rule_stacks.remove(policy_id) {
            Some(v) => v,
            None => Vec::new(),
        };
        stack.push(rule_tree);
        let count = stack.len() as u32;
        self.rule_stacks.insert(policy_id.clone(), stack);
        proof {
            let mv = |v: Vec<Vec<RuleNode>>| v@.map_values(|t: Vec<RuleNode>| t@);
            let old_stack = if before.contains_key(policy_id@) {
                mv(before[policy_id@])
            } else {
                Seq::empty()
            };
            assert(self.rule_stacks@[policy_id@]@.map_values(|t: Vec<RuleNode>| t@) =~= old_stack.push(tree));
            assert(self.rule_stacks() =~= before.map_values(mv).insert(policy_id@, old_stack.push(tree)));
        }
        Ok(count)
    }

    /// Remove the stacked rule at `index` (owner only); the stack must exist
    /// and the index be in range. Removing the last rule drops the stack.
    pub fn remove_policy_rule(&mut self, caller: &Address, policy_id: &String, index: u32) -> (r: Result<(), Error>)
        ensures
            match owner_check(*old(self), *policy_id, *caller) {
                Err(e) => r == Err::<(), Error>(e) && *final(self) == *old(self),
                Ok(()) => if !old(self).rule_stacks().contains_key(policy_id@) {
                    r == Err::<(), Error>(Error::NotFound) && *final(self) == *old(self)
                } else if index >= old(self).rule_stacks()[policy_id@].len() {
                    r == Err::<(), Error>(Error::InvalidInput) && *final(self) == *old(self)
                } else {
                    r is Ok && final(self).rule_stacks() == (if old(self).rule_stacks()[policy_id@].len()
                        == 1 {
                        old(self).rule_stacks().remove(policy_id@)
                    } else {
                        old(self).rule_stacks().insert(
                            policy_id@,
                            old(self).rule_stacks()[policy_id@].remove(index as int),
                        )
                    }) && keeps(*old(self), *final(self), Store::RuleStacks)
                },
            },
    {
        self.require_policy_owner(caller, policy_id)?;
        let n = match self.rule_stacks.get(policy_id) {
            Some(v) => v.len(),
            None => return Err(Error::NotFound),
        };
        if index as usize >= n {
            return Err(Error::InvalidInput);
        }
        let ghost before = self.rule_stacks@;
        let mut stack = match self.rule_stacks.remove(policy_id) {
            Some(v) => v,
            None => return Err(Error::NotFound),
        };
        let ghost old_stack = stack@;
        stack.remove(index as usize);
        if stack.len() > 0 {
            self.rule_stacks.insert(policy_id.clone(), stack);
        }
        proof {
            let mv = |v: Vec<Vec<RuleNode>>| v@.map_values(|t: Vec<RuleNode>| t@);
            if n == 1 {
                assert(self.rule_stacks() =~= before.map_values(mv).remove(policy_id@));
            } else {
                assert(self.rule_stacks@[policy_id@]@.map_values(|t: Vec<RuleNode>| t@) =~= mv(
                    before[policy_id@],
                ).remove(index as int));
                assert(self.rule_stacks() =~= before.map_values(mv).insert(
                    policy_id@,
                    mv(before[policy_id@]).remove(index as int),
                ));
            }
        }
        Ok(())
    }

    /// Drop every stacked rule of the policy (owner only; a stack must
    /// exist).
    pub fn clear_policy_rules(&mut self, caller: &Address, policy_id: &String) -> (r: Result<(), Error>)
        ensures
            match owner_check(*old(self), *policy_id, *caller) {
                Err(e) => r == Err::<(), Error>(e) && *final(self) == *old(self),
                Ok(()) => if !old(self).rule_stacks().contains_key(policy_id@) {
                    r == Err::<(), Error>(Error::NotFound) && *final(self) == *old(self)
                } else {
                    r is Ok && final(self).rule_stacks() == old(self).rule_stacks().remove(policy_id@)
                        && keeps(*old(self), *final(self), Store::RuleStacks)
                },
            },
    {
        self.require_policy_owner(caller, policy_id)?;
        if !self.rule_stacks.contains(policy_id) {
            return Err(Error::NotFound);
        }
        let ghost before = self.rule_stacks@;
        self.rule_stacks.remove(policy_id);
        proof {
            let mv = |v: Vec<Vec<RuleNode>>| v@.map_values(|t: Vec<RuleNode>| t@);
            assert(self.rule_stacks() =~= before.map_values(mv).remove(policy_id@));
        }
        Ok(())
    }

    /// The policy's stacked rules (empty when none).
    pub fn get_policy_rules(&self, policy_id: &String) -> (r: Vec<Vec<RuleNode>>)
        ensures
            r@.map_values(|t: Vec<RuleNode>| t@) == stack_of(*self, policy_id@),
    {
        match self.rule_stacks.get(policy_id) {
            Some(v) => copy_stack(v),
            None => {
                let r: Vec<Vec<RuleNode>> = Vec::new();
                assert(r@.map_values(|t: Vec<RuleNode>| t@) =~= Seq::<Seq<RuleNode>>::empty());
                r
            },
        }
    }

    fn stack_eval(stack: &Vec<Vec<RuleNode>>, payload: &TransactionPayload, rb: bool, mb: bool) -> (r: Result<bool, Error>)
        ensures
            r == stack_outcome(stack@.map_values(|t: Vec<RuleNode>| t@), 0, *payload, rb, mb),
    {
        let ghost st = stack@.map_values(|t: Vec<RuleNode>| t@);
        let mut i: usize = 0;
        while i < stack.len()
            invariant
                i <= stack@.len(),
                st == stack@.map_values(|t: Vec<RuleNode>| t@),
                stack_outcome(st, 0, *payload, rb, mb) == stack_outcome(st, i as int, *payload, rb, mb),
            decreases stack@.len() - i,
        {
            assert(st[i as int] == stack@[i as int]@);
            if stack[i].len() != 0 {
                match evaluate_node(&stack[i], 0, payload, MAX_RULE_DEPTH, rb, mb) {
                    Err(e) => {
                        return Err(e);
                    },
                    Ok(false) => {
                        return Ok(false);
                    },
                    Ok(true) => {},
                }
            }
            i = i + 1;
        }
        Ok(true)
    }

    /// The rule stack's verdict on `payload`: every stacked rule must hold;
    /// the walk stops at the first that does not.
    pub fn evaluate_policy_rules(&self, policy_id: &String, payload: &TransactionPayload) -> (r: Result<bool, Error>)
        ensures
            r == rules_outcome(*self, policy_id@, *payload),
    {
        let rb = self.blacklist.contains(&payload.recipient);
        let mb = self.merchant_blacklist.contains(&payload.recipient);
        match self.rule_stacks.get(policy_id) {
            None => Ok(true),
            Some(v) => Self::stack_eval(v, payload, rb, mb),
        }
    }
}

// ---------------------------------------------------------------------------
// Transfer evaluation.
// ---------------------------------------------------------------------------

/// The asset-independent gates, in order: the policy exists and is
/// enabled; the recipient is not on the recipient deny list nor the merchant
/// deny list; the recipient whitelist (when on) lists it; the policy has not
/// expired.
pub open spec fn policy_gates(c: PolicyContract, id: String, recipient: Address, now: u64) -> Result<
    Policy,
    Error,
> {
    if !c.policy_records().contains_key(id@) {
        Err(Error::NotFound)
    } else {
        let p = c.policy_records()[id@];
        if !p.enabled {
            Err(Error::PolicyDenied)
        } else if c.blacklisted().contains_key(recipient@) {
            Err(Error::PolicyRecipientRestricted)
        } else if c.merchants().contains_key(recipient@) {
            Err(Error::PolicyMerchantBlocked)
        } else if recipient_gate(c, id, recipient) is Err {
            Err(Error::PolicyDenied)
        } else if p.expires_at != 0 && now >= p.expires_at {
            Err(Error::PolicyDenied)
        } else {
            Ok(p)
        }
    }
}

/// The per-asset gates for `amount` of `asset`, in order: the amount cap;
/// the allowed recipient and allowed asset; the asset deny list (which wins
/// over every allow gate); the asset whitelist; the allowance; the composite
/// rule; the rule stack. The result is the allowance as it would be after
/// the spend.
pub open spec fn asset_gates(
    c: PolicyContract,
    id: String,
    p: Policy,
    asset: Address,
    recipient: Address,
    amount: i128,
    now: u64,
) -> Result<Option<AssetAllowance>, Error> {
    let payload = TransactionPayload { asset, recipient, amount };
    if p.max_amount != 0 && amount > p.max_amount {
        Err(Error::PolicyDenied)
    } else if p.allowed_recipient matches Some(r) && r@ != recipient@ {
        Err(Error::PolicyDenied)
    } else if p.allowed_asset matches Some(a) && a@ != asset@ {
        Err(Error::PolicyDenied)
    } else if lists(list_of(c.asset_blacklists(), id@), asset) {
        Err(Error::PolicyDenied)
    } else if flag_of(c.asset_modes(), id@) && !lists(list_of(c.asset_whitelists(), id@), asset) {
        Err(Error::AssetNotAuthorized)
    } else {
        match consume(allowance_of(c, id@, asset@), amount, now) {
            Err(e) => Err(e),
            Ok(al) => match composite_outcome(c, id@, payload) {
                Err(e) => Err(e),
                Ok(false) => Err(Error::PolicyDenied),
                Ok(true) => match rules_outcome(c, id@, payload) {
                    Err(e) => Err(e),
                    Ok(false) => Err(Error::PolicyDenied),
                    Ok(true) => Ok(al),
                },
            },
        }
    }
}

/// The verdict of `check_transfer`: a positive amount, then every policy
/// gate, then every asset gate.
pub open spec fn transfer_check(
    c: PolicyContract,
    id: String,
    asset: Address,
    recipient: Address,
    amount: i128,
    now: u64,
) -> Result<(), Error> {
    if amount <= 0 {
        Err(Error::InvalidAmount)
    } else {
        match policy_gates(c, id, recipient, now) {
            Err(e) => Err(e),
            Ok(p) => match asset_gates(c, id, p, asset, recipient, amount, now) {
                Err(e) => Err(e),
                Ok(_) => Ok(()),
            },
        }
    }
}

/// The last position of `asset` in `totals`, if any.
pub open spec fn find_asset(totals: Seq<AssetAmount>, asset: Address) -> Option<int>
    decreases totals.len(),
{
    if totals.len() == 0 {
        None
    } else if totals.last().asset@ == asset@ {
        Some(totals.len() - 1)
    } else {
        find_asset(totals.drop_last(), asset)
    }
}

/// Per-asset totals of a request, assets in order of first appearance,
/// checked entry by entry: a non-positive entry is `InvalidAmount`, a total
/// that does not fit is `Overflow`.
pub open spec fn aggregate(entries: Seq<AssetAmount>) -> Result<Seq<AssetAmount>, Error>
    decreases entries.len(),
{
    if entries.len() == 0 {
        Ok(Seq::empty())
    } else {
        match aggregate(entries.drop_last()) {
            Err(e) => Err(e),
            Ok(t) => {
                let x = entries.last();
                if x.amount <= 0 {
                    Err(Error::InvalidAmount)
                } else {
                    match find_asset(t, x.asset) {
                        Some(k) => match spec_checked_add(t[k].amount, x.amount) {
                            Err(e) => Err(e),
                            Ok(v) => Ok(t.update(k, AssetAmount { asset: t[k].asset, amount: v })),
                        },
                        None => Ok(t.push(AssetAmount { asset: x.asset, amount: x.amount })),
                    }
                }
            },
        }
    }
}

/// A multi-asset request's totals: between 1 and `MAX_SPEND_ENTRIES`
/// entries, aggregated per asset.
pub open spec fn request_totals(entries: Seq<AssetAmount>) -> Result<Seq<AssetAmount>, Error> {
    if entries.len() == 0 || entries.len() > MAX_SPEND_ENTRIES {
        Err(Error::InvalidInput)
    } else {
        aggregate(entries)
    }
}

/// The asset gates of every total, in order: the first refusal decides;
/// otherwise the allowances as they would be after the spend.
pub open spec fn gates_all(
    c: PolicyContract,
    id: String,
    p: Policy,
    totals: Seq<AssetAmount>,
    recipient: Address,
    now: u64,
) -> Result<Seq<AssetAllowance>, Error>
    decreases totals.len(),
{
    if totals.len() == 0 {
        Ok(Seq::empty())
    } else {
        match gates_all(c, id, p, totals.drop_last(), recipient, now) {
            Err(e) => Err(e),
            Ok(ups) => match asset_gates(
                c,
                id,
                p,
                totals.last().asset,
                recipient,
                totals.last().amount,
                now,
            ) {
                Err(e) => Err(e),
                Ok(None) => Ok(ups),
                Ok(Some(a)) => Ok(ups.push(a)),
            },
        }
    }
}

/// The evaluation of a multi-asset request: its totals, then the policy
/// gates, then every asset's gates; nothing is recorded.
pub open spec fn spend_outcome(
    c: PolicyContract,
    id: String,
    recipient: Address,
    entries: Seq<AssetAmount>,
    now: u64,
) -> Result<Seq<AssetAllowance>, Error> {
    match request_totals(entries) {
        Err(e) => Err(e),
        Ok(totals) => match policy_gates(c, id, recipient, now) {
            Err(e) => Err(e),
            Ok(p) => gates_all(c, id, p, totals, recipient, now),
        },
    }
}

/// The allowance store after recording each of `ups`, in order.
pub open spec fn apply_all(
    m: Map<Seq<char>, Map<Seq<char>, AssetAllowance>>,
    ups: Seq<AssetAllowance>,
) -> Map<Seq<char>, Map<Seq<char>, AssetAllowance>>
    decreases ups.len(),
{
    if ups.len() == 0 {
        m
    } else {
        with_allowance(apply_all(m, ups.drop_last()), ups.last())
    }
}

fn find_total(totals: &Vec<AssetAmount>, asset: &Address) -> (r: Option<usize>)
    ensures
        match r {
            Some(k) => k < totals@.len() && find_asset(totals@, *asset) == Some(k as int),
            None => find_asset(totals@, *asset) is None,
        },
{
    let mut found: Option<usize> = None;
    let mut j: usize = 0;
    while j < totals.len()
        invariant
            j <= totals@.len(),
            match found {
                Some(k) => k < j && find_asset(totals@.subrange(0, j as int), *asset) == Some(k as int),
                None => find_asset(totals@.subrange(0, j as int), *asset) is None,
            },
        decreases totals@.len() - j,
    {
        let ghost next = totals@.subrange(0, j + 1);
        assert(next.drop_last() =~= totals@.subrange(0, j as int));
        if totals[j].asset == *asset {
            found = Some(j);
        }
        j = j + 1;
    }
    assert(totals@.subrange(0, totals@.len() as int) =~= totals@);
    found
}

/// Per-asset totals of a multi-asset request (see [`request_totals`]).
pub fn aggregate_amounts(amounts: &Vec<AssetAmount>) -> (r: Result<Vec<AssetAmount>, Error>)
    ensures
        match request_totals(amounts@) {
            Err(e) => r == Err::<Vec<AssetAmount>, Error>(e),
            Ok(t) => r matches Ok(v) && v@ == t,
        },
{
    if amounts.len() == 0 || amounts.len() > MAX_SPEND_ENTRIES {
        return Err(Error::InvalidInput);
    }
    let mut totals: Vec<AssetAmount> = Vec::new();
    let mut i: usize = 0;
    while i < amounts.len()
        invariant
            i <= amounts@.len(),
            aggregate(amounts@.subrange(0, i as int)) == Ok::<Seq<AssetAmount>, Error>(totals@),
            0 < amounts@.len() <= MAX_SPEND_ENTRIES,
        decreases amounts@.len() - i,
    {
        let ghost next = amounts@.subrange(0, i + 1);
        assert(next.drop_last() =~= amounts@.subrange(0, i as int));
        assert(next.last() == amounts@[i as int]);
        let ghost t = totals@;
        let amount = amounts[i].amount;
        if amount <= 0 {
            proof {
                lemma_aggregate_prefix_error(amounts@, i as int + 1);
            }
            return Err(Error::InvalidAmount);
        }
        match find_total(&totals, &amounts[i].asset) {
            Some(k) => {
                match checked_add(totals[k].amount, amount) {
                    Ok(v) => {
                        let a = totals[k].asset.clone();
                        totals.set(k, AssetAmount { asset: a, amount: v });
                        assert(totals@ =~= t.update(
                            k as int,
                            AssetAmount { asset: t[k as int].asset, amount: v },
                        ));
                        assert(find_asset(t, amounts@[i as int].asset) == Some(k as int));
                    },
                    Err(e) => {
                        proof {
                            assert(find_asset(t, amounts@[i as int].asset) == Some(k as int));
                            assert(spec_checked_add(t[k as int].amount, amounts@[i as int].amount) is Err);
                            assert(aggregate(next) is Err);
                            lemma_aggregate_prefix_error(amounts@, i as int + 1);
                        }
                        return Err(e);
                    },
                }
            },
            None => {
                totals.push(amounts[i].copied());
                assert(totals@ =~= t.push(
                    AssetAmount { asset: amounts@[i as int].asset, amount: amounts@[i as int].amount },
                ));
            },
        }
        i = i + 1;
    }
    assert(amounts@.subrange(0, amounts@.len() as int) =~= amounts@);
    Ok(totals)
}

/// Once a prefix of the request fails to aggregate, the whole request fails
/// with the same error.
proof fn lemma_aggregate_prefix_error(entries: Seq<AssetAmount>, n: int)
    requires
        0 <= n <= entries.len(),
        aggregate(entries.subrange(0, n)) is Err,
    ensures
        aggregate(entries) == aggregate(entries.subrange(0, n)),
    decreases entries.len() - n,
{
    if n == entries.len() {
        assert(entries.subrange(0, n) =~= entries);
    } else {
        let next = entries.subrange(0, n + 1);
        assert(next.drop_last() =~= entries.subrange(0, n));
        lemma_aggregate_prefix_error(entries, n + 1);
    }
}

impl PolicyContract {
    /// The asset-independent gates (see [`policy_gates`]).
    fn check_policy_gates(&self, policy_id: &String, recipient: &Address, now: u64) -> (r: Result<Policy, Error>)
        ensures
            r == policy_gates(*self, *policy_id, *recipient, now),
    {
        let p = match self.policies.get(policy_id) {
            None => return Err(Error::NotFound),
            Some(p) => p,
        };
        if !p.enabled {
            return Err(Error::PolicyDenied);
        }
        if self.blacklist.contains(recipient) {
            return Err(Error::PolicyRecipientRestricted);
        }
        if self.merchant_blacklist.contains(recipient) {
            return Err(Error::PolicyMerchantBlocked);
        }
        if self.check_recipient_whitelist(policy_id, recipient).is_err() {
            return Err(Error::PolicyDenied);
        }
        if p.expires_at != 0 && now >= p.expires_at {
            return Err(Error::PolicyDenied);
        }
        Ok(p.copied())
    }

    /// The per-asset gates (see [`asset_gates`]).
    fn check_asset_gates(
        &self,
        policy_id: &String,
        p: &Policy,
        asset: &Address,
        recipient: &Address,
        amount: i128,
        now: u64,
    ) -> (r: Result<Option<AssetAllowance>, Error>)
        ensures
            r == asset_gates(*self, *policy_id, *p, *asset, *recipient, amount, now),
    {
        if p.max_amount != 0 && amount > p.max_amount {
            return Err(Error::PolicyDenied);
        }
        match &p.allowed_recipient {
            Some(r) => {
                if !(*r == *recipient) {
                    return Err(Error::PolicyDenied);
                }
            },
            None => {},
        }
        match &p.allowed_asset {
            Some(a) => {
                if !(*a == *asset) {
                    return Err(Error::PolicyDenied);
                }
            },
            None => {},
        }
        if list_has(&self.asset_blacklists, policy_id, asset) {
            return Err(Error::PolicyDenied);
        }
        self.validate_asset(policy_id, asset)?;
        let allowance = consume_allowance(self.stored_allowance(policy_id, asset), amount, now)?;
        let payload = TransactionPayload { asset: asset.clone(), recipient: recipient.clone(), amount };
        if !self.evaluate_composite_rule(policy_id, &payload)? {
            return Err(Error::PolicyDenied);
        }
        if !self.evaluate_policy_rules(policy_id, &payload)? {
            return Err(Error::PolicyDenied);
        }
        Ok(allowance)
    }

    /// May `amount` of `asset` flow to `recipient` under `policy_id` at
    /// `now`? Every gate must pass; the deny lists run first, then the
    /// recipient whitelist and expiry, then the per-asset gates.
    pub fn check_transfer(&self, policy_id: &String, asset: &Address, recipient: &Address, amount: i128, now: u64) -> (r: Result<(), Error>)
        ensures
            r == transfer_check(*self, *policy_id, *asset, *recipient, amount, now),
    {
        if amount <= 0 {
            return Err(Error::InvalidAmount);
        }
        let p = self.check_policy_gates(policy_id, recipient, now)?;
        self.check_asset_gates(policy_id, &p, asset, recipient, amount, now)?;
        Ok(())
    }

    fn evaluate_spend(&self, policy_id: &String, recipient: &Address, amounts: &Vec<AssetAmount>, now: u64) -> (r: Result<Vec<AssetAllowance>, Error>)
        ensures
            match spend_outcome(*self, *policy_id, *recipient, amounts@, now) {
                Err(e) => r == Err::<Vec<AssetAllowance>, Error>(e),
                Ok(ups) => r matches Ok(v) && v@ == ups,
            },
    {
        let totals = aggregate_amounts(amounts)?;
        let p = self.check_policy_gates(policy_id, recipient, now)?;
        let mut updated: Vec<AssetAllowance> = Vec::new();
        let mut i: usize = 0;
        while i < totals.len()
            invariant
                i <= totals@.len(),
                gates_all(*self, *policy_id, p, totals@.subrange(0, i as int), *recipient, now)
                    == Ok::<Seq<AssetAllowance>, Error>(updated@),
                request_totals(amounts@) == Ok::<Seq<AssetAmount>, Error>(totals@),
                policy_gates(*self, *policy_id, *recipient, now) == Ok::<Policy, Error>(p),
            decreases totals@.len() - i,
        {
            let ghost next = totals@.subrange(0, i + 1);
            assert(next.drop_last() =~= totals@.subrange(0, i as int));
            match self.check_asset_gates(policy_id, &p, &totals[i].asset, recipient, totals[i].amount, now) {
                Err(e) => {
                    proof {
                        lemma_gates_prefix_error(*self, *policy_id, p, totals@, *recipient, now, i as int + 1);
                    }
                    return Err(e);
                },
                Ok(None) => {},
                Ok(Some(a)) => {
                    updated.push(a);
                },
            }
            i = i + 1;
        }
        assert(totals@.subrange(0, totals@.len() as int) =~= totals@);
        Ok(updated)
    }

    /// Evaluate a request moving several assets to `recipient` without
    /// recording it: entries of one asset are summed first, then every asset
    /// must pass the `check_transfer` gates against its own allowance.
    pub fn check_multi_asset_transfer(&self, policy_id: &String, recipient: &Address, amounts: &Vec<AssetAmount>, now: u64) -> (r: Result<(), Error>)
        ensures
            match spend_outcome(*self, *policy_id, *recipient, amounts@, now) {
                Err(e) => r == Err::<(), Error>(e),
                Ok(_) => r is Ok,
            },
    {
        self.evaluate_spend(policy_id, recipient, amounts, now)?;
        Ok(())
    }

    /// Evaluate a multi-asset request as `check_multi_asset_transfer` and,
    /// only when every asset passes, record the spend against each asset's
    /// allowance (owner only). A failing request records nothing.
    pub fn record_multi_asset_spend(
        &mut self,
        caller: &Address,
        policy_id: &String,
        recipient: &Address,
        amounts: &Vec<AssetAmount>,
        now: u64,
    ) -> (r: Result<(), Error>)
        ensures
            match owner_check(*old(self), *policy_id, *caller) {
                Err(e) => r == Err::<(), Error>(e) && *final(self) == *old(self),
                Ok(()) => match spend_outcome(*old(self), *policy_id, *recipient, amounts@, now) {
                    Err(e) => r == Err::<(), Error>(e) && *final(self) == *old(self),
                    Ok(ups) => r is Ok && final(self).allowance_records() == apply_all(
                        old(self).allowance_records(),
                        ups,
                    ) && keeps(*old(self), *final(self), Store::Allowances),
                },
            },
    {
        self.require_policy_owner(caller, policy_id)?;
        let updated = self.evaluate_spend(policy_id, recipient, amounts, now)?;
        let ghost start = *self;
        let mut i: usize = 0;
        while i < updated.len()
            invariant
                i <= updated@.len(),
                self.allowance_records() == apply_all(
                    start.allowance_records(),
                    updated@.subrange(0, i as int),
                ),
                keeps(start, *self, Store::Allowances),
            decreases updated@.len() - i,
        {
            let ghost next = updated@.subrange(0, i + 1);
            assert(next.drop_last() =~= updated@.subrange(0, i as int));
            self.persist(updated[i].copied());
            i = i + 1;
        }
        assert(updated@.subrange(0, updated@.len() as int) =~= updated@);
        Ok(())
    }
}

/// Once a prefix of the totals is refused, the whole request is refused the
/// same way.
proof fn lemma_gates_prefix_error(
    c: PolicyContract,
    id: String,
    p: Policy,
    totals: Seq<AssetAmount>,
    recipient: Address,
    now: u64,
    n: int,
)
    requires
        0 <= n <= totals.len(),
        gates_all(c, id, p, totals.subrange(0, n), recipient, now) is Err,
    ensures
        gates_all(c, id, p, totals, recipient, now) == gates_all(
            c,
            id,
            p,
            totals.subrange(0, n),
            recipient,
            now,
        ),
    decreases totals.len() - n,
{
    if n == totals.len() {
        assert(totals.subrange(0, n) =~= totals);
    } else {
        let next = totals.subrange(0, n + 1);
        assert(next.drop_last() =~= totals.subrange(0, n));
        lemma_gates_prefix_error(c, id, p, totals, recipient, now, n + 1);
    }
}

} // verus!
