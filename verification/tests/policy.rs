use astroid::policy::{
    aggregate_amounts, consume_allowance, evaluate_node, settle_window, validate_rule_tree, AssetAllowance, PolicyContract,
    RuleNode, RuleOp, TransactionPayload, MAX_POLICY_RULES,
};
use astroid::policy_rules::{add_rule, evaluate_rules, load_rules, remove_rule, PolicyRule, RuleBook, RuleMatch, RuleTarget};
use astroid::shared::{AssetAmount, Error};

/// A ledger with one policy registered, the clock and a source of fresh
/// addresses.
struct Harness {
    c: PolicyContract,
    now: u64,
    next: u32,
    owner: String,
}

impl Harness {
    fn addr(&mut self) -> String {
        self.next += 1;
        format!("GADDR{:04}", self.next)
    }

    fn register(&mut self, id: &str, hash: u8, max_amount: i128) {
        let owner = self.owner.clone();
        self.c.register_policy(owner, s(id), [hash; 32], max_amount, None, None, 0).unwrap();
    }

    fn check(&self, pid: &str, asset: &str, recipient: &str, amount: i128) -> Result<(), Error> {
        self.c.check_transfer(&s(pid), &s(asset), &s(recipient), amount, self.now)
    }
}

fn s(x: &str) -> String {
    x.to_string()
}

fn empty() -> Harness {
    let mut c = PolicyContract::new();
    c.initialize().unwrap();
    let mut h = Harness { c, now: 0, next: 0, owner: String::new() };
    h.owner = h.addr();
    h
}

fn setup() -> Harness {
    let mut h = empty();
    h.register("max_txn", 42, 1_000_000);
    h
}

fn allowance_setup() -> Harness {
    let mut h = empty();
    h.register("mt", 1, 0);
    h
}

fn composite_setup() -> Harness {
    let mut h = empty();
    h.register("cr", 99, 0);
    h
}

fn whitelist_setup(pid: &str) -> Harness {
    let mut h = empty();
    h.register(pid, 5, 0);
    h
}

fn node(op: RuleOp, value_i128: i128, value_address: String, children_start: u32, children_end: u32) -> RuleNode {
    RuleNode { op, value_i128, value_address, children_start, children_end }
}

fn branch(h: &mut Harness, op: RuleOp, children_start: u32, children_end: u32) -> RuleNode {
    node(op, 0, h.addr(), children_start, children_end)
}

fn leaf(h: &mut Harness, op: RuleOp) -> RuleNode {
    node(op, 0, h.addr(), 0, 0)
}

fn leaf_amount(h: &mut Harness, op: RuleOp, amount: i128) -> RuleNode {
    node(op, amount, h.addr(), 0, 0)
}

fn leaf_addr(op: RuleOp, addr: &str) -> RuleNode {
    node(op, 0, s(addr), 0, 0)
}

fn single_amount_tree(h: &mut Harness, op: RuleOp, amount: i128) -> Vec<RuleNode> {
    vec![leaf_amount(h, op, amount)]
}

fn single_addr_tree(op: RuleOp, addr: &str) -> Vec<RuleNode> {
    vec![leaf_addr(op, addr)]
}

/// A chain of 15 nested `Not` nodes over a `MaxAmount` leaf: well formed but
/// deeper than evaluation follows.
fn deep_chain_tree(h: &mut Harness) -> Vec<RuleNode> {
    let mut tree = Vec::new();
    for i in 0..15u32 {
        tree.push(branch(h, RuleOp::Not, i + 1, i + 2));
    }
    tree.push(leaf_amount(h, RuleOp::MaxAmount, i128::MAX));
    tree
}

fn payload(asset: &str, recipient: &str, amount: i128) -> TransactionPayload {
    TransactionPayload { asset: s(asset), recipient: s(recipient), amount }
}

#[test]
fn allows_spend_below_max() {
    let mut h = setup();
    let asset = h.addr();
    let recip = h.addr();
    assert!(h.check("max_txn", &asset, &recip, 999_999).is_ok());
}

#[test]
fn denies_spend_above_max() {
    let mut h = setup();
    let asset = h.addr();
    let recip = h.addr();
    assert!(h.check("max_txn", &asset, &recip, 1_000_001).is_err());
}

#[test]
fn allowlist_recipient_enforced() {
    let mut h = empty();
    let allowed = h.addr();
    let blocked = h.addr();
    let asset = h.addr();
    let owner = h.owner.clone();
    h.c.register_policy(owner, s("vendor_list"), [7; 32], 0, Some(allowed.clone()), None, 0).unwrap();
    assert!(h.check("vendor_list", &asset, &allowed, 1).is_ok());
    assert!(h.check("vendor_list", &asset, &blocked, 1).is_err());
}

#[test]
fn disable_denies_everything() {
    let mut h = setup();
    let asset = h.addr();
    let owner = h.owner.clone();
    h.c.set_enabled(&owner, &s("max_txn"), false).unwrap();
    let recip = h.addr();
    assert!(h.check("max_txn", &asset, &recip, 1).is_err());
}

#[test]
fn standard_policy_violation_event_emitted() {
    let mut h = setup();
    let asset = h.addr();
    let recip = h.addr();
    // The denial that the violation reports.
    assert_eq!(h.check("max_txn", &asset, &recip, 1_000_001), Err(Error::PolicyDenied));
}

#[test]
fn merchant_blacklist_blocks_transfers() {
    let mut h = setup();
    let asset = h.addr();
    let blocked_merchant = h.addr();
    let owner = h.owner.clone();
    h.c.add_merchant_blacklist(&owner, &s("max_txn"), blocked_merchant.clone()).unwrap();
    assert!(h.check("max_txn", &asset, &blocked_merchant, 100).is_err());
    let safe_merchant = h.addr();
    assert!(h.check("max_txn", &asset, &safe_merchant, 100).is_ok());
}

#[test]
fn merchant_blacklist_removal_allows_transfers() {
    let mut h = setup();
    let asset = h.addr();
    let merchant = h.addr();
    let owner = h.owner.clone();
    h.c.add_merchant_blacklist(&owner, &s("max_txn"), merchant.clone()).unwrap();
    assert!(h.check("max_txn", &asset, &merchant, 100).is_err());
    h.c.remove_merchant_blacklist(&owner, &s("max_txn"), &merchant).unwrap();
    assert!(h.check("max_txn", &asset, &merchant, 100).is_ok());
}

#[test]
fn merchant_blacklist_unauthorized_add_fails() {
    let mut h = setup();
    let unauthorized = h.addr();
    let merchant = h.addr();
    assert!(h.c.add_merchant_blacklist(&unauthorized, &s("max_txn"), merchant).is_err());
}

#[test]
fn merchant_blacklist_duplicate_add_fails() {
    let mut h = setup();
    let merchant = h.addr();
    let owner = h.owner.clone();
    h.c.add_merchant_blacklist(&owner, &s("max_txn"), merchant.clone()).unwrap();
    assert!(h.c.add_merchant_blacklist(&owner, &s("max_txn"), merchant).is_err());
}

#[test]
fn merchant_blacklist_nonexistent_remove_fails() {
    let mut h = setup();
    let merchant = h.addr();
    let owner = h.owner.clone();
    assert!(h.c.remove_merchant_blacklist(&owner, &s("max_txn"), &merchant).is_err());
}

#[test]
fn merchant_blocked_event_emitted() {
    let mut h = setup();
    let asset = h.addr();
    let blocked_merchant = h.addr();
    let owner = h.owner.clone();
    h.c.add_merchant_blacklist(&owner, &s("max_txn"), blocked_merchant.clone()).unwrap();
    // The refusal that the violation reports.
    assert!(h.check("max_txn", &asset, &blocked_merchant, 100).is_err());
}

#[test]
fn category_blacklist_blocks_categories() {
    let mut h = setup();
    let owner = h.owner.clone();
    h.c.add_category_blacklist(&owner, &s("max_txn"), s("gambling")).unwrap();
    assert!(h.c.check_category(&s("max_txn"), &s("gambling")).is_err());
    assert!(h.c.check_category(&s("max_txn"), &s("groceries")).is_ok());
    assert!(h.c.check_category(&s("max_txn"), &s("")).is_ok());
}

#[test]
fn category_blacklist_removal_allows_categories() {
    let mut h = setup();
    let owner = h.owner.clone();
    h.c.add_category_blacklist(&owner, &s("max_txn"), s("gambling")).unwrap();
    assert!(h.c.check_category(&s("max_txn"), &s("gambling")).is_err());
    h.c.remove_category_blacklist(&owner, &s("max_txn"), &s("gambling")).unwrap();
    assert!(h.c.check_category(&s("max_txn"), &s("gambling")).is_ok());
}

#[test]
fn category_blacklist_unauthorized_add_fails() {
    let mut h = setup();
    let unauthorized = h.addr();
    assert!(h.c.add_category_blacklist(&unauthorized, &s("max_txn"), s("gambling")).is_err());
}

#[test]
fn category_blacklist_duplicate_add_fails() {
    let mut h = setup();
    let owner = h.owner.clone();
    h.c.add_category_blacklist(&owner, &s("max_txn"), s("gambling")).unwrap();
    assert!(h.c.add_category_blacklist(&owner, &s("max_txn"), s("gambling")).is_err());
}

#[test]
fn category_blacklist_nonexistent_remove_fails() {
    let mut h = setup();
    let owner = h.owner.clone();
    assert!(h.c.remove_category_blacklist(&owner, &s("max_txn"), &s("gambling")).is_err());
}

#[test]
fn category_blacklist_empty_category_fails() {
    let mut h = setup();
    let owner = h.owner.clone();
    assert!(h.c.add_category_blacklist(&owner, &s("max_txn"), s("")).is_err());
}

#[test]
fn category_restricted_event_emitted() {
    let mut h = setup();
    let owner = h.owner.clone();
    h.c.add_category_blacklist(&owner, &s("max_txn"), s("gambling")).unwrap();
    // The refusal that the violation reports.
    assert!(h.c.check_category(&s("max_txn"), &s("gambling")).is_err());
}

#[test]
fn asset_whitelist_allows_whitelisted_asset() {
    let mut h = setup();
    let asset = h.addr();
    let blocked = h.addr();
    let safe = h.addr();
    let owner = h.owner.clone();
    h.c.add_to_blocklist(&owner, &s("max_txn"), blocked.clone()).unwrap();
    assert!(h.check("max_txn", &asset, &blocked, 100).is_err());
    assert!(h.check("max_txn", &asset, &safe, 100).is_ok());
}

#[test]
fn blocklist_removal_allows_transfers() {
    let mut h = setup();
    let asset = h.addr();
    let recip = h.addr();
    assert!(h.check("max_txn", &asset, &recip, 100).is_ok());
}

#[test]
fn asset_whitelist_add_remove_roundtrip() {
    let mut h = setup();
    let asset = h.addr();
    let owner = h.owner.clone();
    h.c.set_asset_whitelist_enabled(&owner, &s("max_txn"), true).unwrap();
    h.c.add_asset_to_whitelist(&owner, &s("max_txn"), asset.clone()).unwrap();
    h.c.remove_asset_from_whitelist(&owner, &s("max_txn"), &asset).unwrap();
    assert!(h.c.validate_asset(&s("max_txn"), &asset).is_err());
}

#[test]
fn asset_whitelist_unauthorized_add_fails() {
    let mut h = setup();
    let unauthorized = h.addr();
    let addr = h.addr();
    assert!(h.c.add_to_blocklist(&unauthorized, &s("max_txn"), addr).is_err());
}

#[test]
fn asset_whitelist_duplicate_add_fails() {
    let mut h = setup();
    let asset = h.addr();
    let owner = h.owner.clone();
    h.c.add_asset_to_whitelist(&owner, &s("max_txn"), asset.clone()).unwrap();
    assert!(h.c.add_asset_to_whitelist(&owner, &s("max_txn"), asset).is_err());
}

#[test]
fn asset_whitelist_nonexistent_remove_fails() {
    let mut h = setup();
    let asset = h.addr();
    let owner = h.owner.clone();
    assert!(h.c.remove_asset_from_whitelist(&owner, &s("max_txn"), &asset).is_err());
}

#[test]
fn asset_whitelist_empty_default_passes_validate() {
    let mut h = setup();
    let asset = h.addr();
    assert!(h.c.validate_asset(&s("max_txn"), &asset).is_ok());
}

#[test]
fn asset_whitelist_violation_event_emitted() {
    let mut h = setup();
    let asset = h.addr();
    let recip = h.addr();
    let owner = h.owner.clone();
    h.c.set_asset_whitelist_enabled(&owner, &s("max_txn"), true).unwrap();
    // The refusal that the violation reports.
    assert!(h.check("max_txn", &asset, &recip, 100).is_err());
}

#[test]
fn allowance_allows_spend_below_limit() {
    let mut h = allowance_setup();
    let asset = h.addr();
    let recip = h.addr();
    let owner = h.owner.clone();
    h.c.set_allowance(&owner, &s("mt"), &asset, 1_000, 0, h.now).unwrap();
    let allowed = h.c.get_allowance(&s("mt"), &asset, h.now);
    assert_eq!(allowed.limit, 1_000);
    assert_eq!(h.c.check_allowance(&s("mt"), &asset, 400, h.now), Ok(600));
    assert!(h.check("mt", &asset, &recip, 400).is_ok());
}

#[test]
fn allowance_exact_boundary_passes() {
    let mut h = allowance_setup();
    let asset = h.addr();
    let recip = h.addr();
    let owner = h.owner.clone();
    h.c.set_allowance(&owner, &s("mt"), &asset, 1_000, 0, h.now).unwrap();
    assert!(h.check("mt", &asset, &recip, 1_000).is_ok());
    assert!(h.c.update_allowance(&owner, &s("mt"), &asset, 1_000, h.now).is_ok());
}

#[test]
fn allowance_over_limit_rejected_with_exceeded() {
    let mut h = allowance_setup();
    let asset = h.addr();
    let recip = h.addr();
    let owner = h.owner.clone();
    h.c.set_allowance(&owner, &s("mt"), &asset, 1_000, 0, h.now).unwrap();
    assert_eq!(h.c.check_allowance(&s("mt"), &asset, 1_001, h.now), Err(Error::AllowanceExceeded));
    assert_eq!(h.check("mt", &asset, &recip, 1_001), Err(Error::AllowanceExceeded));
}

#[test]
fn allowance_cumulative_consumption_blocks_after_limit() {
    let mut h = allowance_setup();
    let asset = h.addr();
    let recip = h.addr();
    let owner = h.owner.clone();
    h.c.set_allowance(&owner, &s("mt"), &asset, 1_000, 0, h.now).unwrap();
    assert!(h.c.update_allowance(&owner, &s("mt"), &asset, 600, h.now).is_ok());
    assert_eq!(h.c.check_allowance(&s("mt"), &asset, 400, h.now), Ok(0));
    assert_eq!(h.check("mt", &asset, &recip, 401), Err(Error::AllowanceExceeded));
    assert!(h.check("mt", &asset, &recip, 300).is_ok());
}

#[test]
fn multi_token_allowances_are_independent_per_asset() {
    let mut h = allowance_setup();
    let xlm = h.addr();
    let usdc = h.addr();
    let recip = h.addr();
    let owner = h.owner.clone();
    h.c.set_allowance(&owner, &s("mt"), &xlm, 100, 0, h.now).unwrap();
    h.c.set_allowance(&owner, &s("mt"), &usdc, 10_000, 0, h.now).unwrap();
    assert!(h.check("mt", &usdc, &recip, 5_000).is_ok());
    assert_eq!(h.check("mt", &xlm, &recip, 101), Err(Error::AllowanceExceeded));
    let eth = h.addr();
    assert!(h.check("mt", &eth, &recip, 1_000_000).is_ok());
}

#[test]
fn allowance_expires_at_past_blocks_spend() {
    let mut h = allowance_setup();
    h.now = 1_000;
    let asset = h.addr();
    let recip = h.addr();
    let owner = h.owner.clone();
    h.c.set_allowance(&owner, &s("mt"), &asset, 1_000, 500, h.now).unwrap();
    assert_eq!(h.check("mt", &asset, &recip, 1), Err(Error::PolicyDenied));
}

#[test]
fn allowance_unauthorized_set_rejected() {
    let mut h = allowance_setup();
    let stranger = h.addr();
    let asset = h.addr();
    assert!(h.c.set_allowance(&stranger, &s("mt"), &asset, 100, 0, h.now).is_err());
}

#[test]
fn allowance_negative_limit_rejected() {
    let mut h = allowance_setup();
    let asset = h.addr();
    let owner = h.owner.clone();
    assert!(h.c.set_allowance(&owner, &s("mt"), &asset, -1, 0, h.now).is_err());
    assert!(h.c.check_allowance(&s("mt"), &asset, -5, h.now).is_err());
}

#[test]
fn allowance_remove_restores_unlimited() {
    let mut h = allowance_setup();
    let asset = h.addr();
    let recip = h.addr();
    let owner = h.owner.clone();
    h.c.set_allowance(&owner, &s("mt"), &asset, 100, 0, h.now).unwrap();
    assert_eq!(h.check("mt", &asset, &recip, 200), Err(Error::AllowanceExceeded));
    h.c.remove_allowance(&owner, &s("mt"), &asset).unwrap();
    assert!(h.check("mt", &asset, &recip, 200).is_ok());
}

fn set_rule(h: &mut Harness, tree: Vec<RuleNode>) {
    let owner = h.owner.clone();
    h.c.set_composite_rule(&owner, &s("cr"), tree).unwrap();
}

#[test]
fn composite_max_amount_passes() {
    let mut h = composite_setup();
    let asset = h.addr();
    let recip = h.addr();
    let tree = single_amount_tree(&mut h, RuleOp::MaxAmount, 500);
    set_rule(&mut h, tree);
    assert!(h.check("cr", &asset, &recip, 500).is_ok());
}

#[test]
fn composite_max_amount_denies() {
    let mut h = composite_setup();
    let asset = h.addr();
    let recip = h.addr();
    let tree = single_amount_tree(&mut h, RuleOp::MaxAmount, 500);
    set_rule(&mut h, tree);
    assert_eq!(h.check("cr", &asset, &recip, 501), Err(Error::PolicyDenied));
}

#[test]
fn composite_allowed_recipient_passes() {
    let mut h = composite_setup();
    let allowed = h.addr();
    let asset = h.addr();
    set_rule(&mut h, single_addr_tree(RuleOp::AllowedRecipient, &allowed));
    assert!(h.check("cr", &asset, &allowed, 100).is_ok());
}

#[test]
fn composite_allowed_recipient_denies() {
    let mut h = composite_setup();
    let allowed = h.addr();
    let blocked = h.addr();
    let asset = h.addr();
    set_rule(&mut h, single_addr_tree(RuleOp::AllowedRecipient, &allowed));
    assert_eq!(h.check("cr", &asset, &blocked, 100), Err(Error::PolicyDenied));
}

#[test]
fn composite_allowed_asset_passes() {
    let mut h = composite_setup();
    let asset = h.addr();
    let recip = h.addr();
    set_rule(&mut h, single_addr_tree(RuleOp::AllowedAsset, &asset));
    assert!(h.check("cr", &asset, &recip, 100).is_ok());
}

#[test]
fn composite_allowed_asset_denies() {
    let mut h = composite_setup();
    let allowed_asset = h.addr();
    let other_asset = h.addr();
    let recip = h.addr();
    set_rule(&mut h, single_addr_tree(RuleOp::AllowedAsset, &allowed_asset));
    assert_eq!(h.check("cr", &other_asset, &recip, 100), Err(Error::PolicyDenied));
}

#[test]
fn composite_and_all_pass() {
    let mut h = composite_setup();
    let asset = h.addr();
    let recip = h.addr();
    let tree = vec![
        branch(&mut h, RuleOp::And, 1, 3),
        leaf_amount(&mut h, RuleOp::MaxAmount, 1000),
        leaf_addr(RuleOp::AllowedRecipient, &recip),
    ];
    set_rule(&mut h, tree);
    assert!(h.check("cr", &asset, &recip, 500).is_ok());
}

#[test]
fn composite_and_one_fails() {
    let mut h = composite_setup();
    let asset = h.addr();
    let allowed = h.addr();
    let blocked = h.addr();
    let tree = vec![
        branch(&mut h, RuleOp::And, 1, 3),
        leaf_amount(&mut h, RuleOp::MaxAmount, 1000),
        leaf_addr(RuleOp::AllowedRecipient, &allowed),
    ];
    set_rule(&mut h, tree);
    assert_eq!(h.check("cr", &asset, &blocked, 500), Err(Error::PolicyDenied));
}

#[test]
fn composite_and_empty_children_fails() {
    let mut h = composite_setup();
    let asset = h.addr();
    let recip = h.addr();
    let tree = vec![branch(&mut h, RuleOp::And, 1, 1)];
    set_rule(&mut h, tree);
    assert_eq!(h.check("cr", &asset, &recip, 100), Err(Error::InvalidInput));
}

#[test]
fn composite_or_first_passes() {
    let mut h = composite_setup();
    let asset = h.addr();
    let recip = h.addr();
    let other = h.addr();
    let tree = vec![
        branch(&mut h, RuleOp::Or, 1, 3),
        leaf_amount(&mut h, RuleOp::MaxAmount, 100),
        leaf_addr(RuleOp::AllowedRecipient, &other),
    ];
    set_rule(&mut h, tree);
    assert!(h.check("cr", &asset, &recip, 50).is_ok());
}

#[test]
fn composite_or_second_passes() {
    let mut h = composite_setup();
    let allowed = h.addr();
    let asset = h.addr();
    let tree = vec![
        branch(&mut h, RuleOp::Or, 1, 3),
        leaf_amount(&mut h, RuleOp::MaxAmount, 100),
        leaf_addr(RuleOp::AllowedRecipient, &allowed),
    ];
    set_rule(&mut h, tree);
    assert!(h.check("cr", &asset, &allowed, 500).is_ok());
}

#[test]
fn composite_or_all_fail() {
    let mut h = composite_setup();
    let asset = h.addr();
    let blocked = h.addr();
    let other = h.addr();
    let tree = vec![
        branch(&mut h, RuleOp::Or, 1, 3),
        leaf_amount(&mut h, RuleOp::MaxAmount, 100),
        leaf_addr(RuleOp::AllowedRecipient, &other),
    ];
    set_rule(&mut h, tree);
    assert_eq!(h.check("cr", &asset, &blocked, 500), Err(Error::PolicyDenied));
}

#[test]
fn composite_or_empty_children_fails() {
    let mut h = composite_setup();
    let asset = h.addr();
    let recip = h.addr();
    let tree = vec![branch(&mut h, RuleOp::Or, 1, 1)];
    set_rule(&mut h, tree);
    assert_eq!(h.check("cr", &asset, &recip, 100), Err(Error::InvalidInput));
}

#[test]
fn composite_not_inverts_pass_to_deny() {
    let mut h = composite_setup();
    let asset = h.addr();
    let recip = h.addr();
    let tree = vec![branch(&mut h, RuleOp::Not, 1, 2), leaf_amount(&mut h, RuleOp::MaxAmount, 100)];
    set_rule(&mut h, tree);
    assert_eq!(h.check("cr", &asset, &recip, 50), Err(Error::PolicyDenied));
}

#[test]
fn composite_not_inverts_deny_to_pass() {
    let mut h = composite_setup();
    let asset = h.addr();
    let recip = h.addr();
    let tree = vec![branch(&mut h, RuleOp::Not, 1, 2), leaf_amount(&mut h, RuleOp::MaxAmount, 100)];
    set_rule(&mut h, tree);
    assert!(h.check("cr", &asset, &recip, 150).is_ok());
}

#[test]
fn composite_nested_and_or() {
    let mut h = composite_setup();
    let asset = h.addr();
    let allowed = h.addr();
    let tree = vec![
        branch(&mut h, RuleOp::Or, 1, 3),
        branch(&mut h, RuleOp::And, 3, 5),
        leaf_addr(RuleOp::AllowedAsset, &asset),
        leaf_amount(&mut h, RuleOp::MaxAmount, 500),
        leaf_addr(RuleOp::AllowedRecipient, &allowed),
    ];
    set_rule(&mut h, tree);
    let wrong_recip = h.addr();
    assert!(h.check("cr", &asset, &wrong_recip, 1_000).is_ok());
    let other_asset = h.addr();
    assert!(h.check("cr", &other_asset, &allowed, 300).is_ok());
    assert_eq!(h.check("cr", &other_asset, &wrong_recip, 1_000), Err(Error::PolicyDenied));
}

#[test]
fn composite_deeply_nested_not_of_and() {
    let mut h = composite_setup();
    let asset = h.addr();
    let recip = h.addr();
    let tree = vec![
        branch(&mut h, RuleOp::Not, 1, 2),
        branch(&mut h, RuleOp::And, 2, 4),
        leaf_amount(&mut h, RuleOp::MaxAmount, 200),
        leaf_addr(RuleOp::AllowedRecipient, &recip),
    ];
    set_rule(&mut h, tree);
    assert_eq!(h.check("cr", &asset, &recip, 100), Err(Error::PolicyDenied));
    assert!(h.check("cr", &asset, &recip, 300).is_ok());
}

#[test]
fn composite_depth_exceeded() {
    let mut h = composite_setup();
    let asset = h.addr();
    let recip = h.addr();
    let tree = deep_chain_tree(&mut h);
    set_rule(&mut h, tree);
    assert_eq!(h.check("cr", &asset, &recip, 100), Err(Error::InvalidInput));
}

#[test]
fn composite_clear_rule_restores_permissive() {
    let mut h = composite_setup();
    let asset = h.addr();
    let recip = h.addr();
    let tree = single_amount_tree(&mut h, RuleOp::MaxAmount, 10);
    set_rule(&mut h, tree);
    assert_eq!(h.check("cr", &asset, &recip, 100), Err(Error::PolicyDenied));
    let owner = h.owner.clone();
    h.c.clear_composite_rule(&owner, &s("cr")).unwrap();
    assert!(h.check("cr", &asset, &recip, 100).is_ok());
}

#[test]
fn composite_get_rule_roundtrip() {
    let mut h = composite_setup();
    let other = h.addr();
    let tree = vec![
        branch(&mut h, RuleOp::Or, 1, 3),
        leaf_amount(&mut h, RuleOp::MaxAmount, 500),
        leaf_addr(RuleOp::AllowedRecipient, &other),
    ];
    let len = tree.len();
    set_rule(&mut h, tree);
    let retrieved = h.c.get_composite_rule(&s("cr")).unwrap();
    assert_eq!(retrieved.len(), len);
    assert_eq!(retrieved[0].op, RuleOp::Or);
    assert_eq!(retrieved[1].value_i128, 500);
    assert_eq!(retrieved[2].value_address, other);
}

#[test]
fn composite_get_nonexistent_rule_fails() {
    let h = composite_setup();
    assert_eq!(h.c.get_composite_rule(&s("cr")).err(), Some(Error::NotFound));
}

#[test]
fn composite_clear_nonexistent_rule_fails() {
    let mut h = composite_setup();
    let owner = h.owner.clone();
    assert!(h.c.clear_composite_rule(&owner, &s("cr")).is_err());
}

#[test]
fn composite_set_rule_unauthorized_fails() {
    let mut h = composite_setup();
    let unauthorized = h.addr();
    let tree = single_amount_tree(&mut h, RuleOp::MaxAmount, 100);
    assert!(h.c.set_composite_rule(&unauthorized, &s("cr"), tree).is_err());
}

#[test]
fn composite_set_empty_tree_fails() {
    let mut h = composite_setup();
    let owner = h.owner.clone();
    assert!(h.c.set_composite_rule(&owner, &s("cr"), Vec::new()).is_err());
}

#[test]
fn composite_rule_denied_event_emitted() {
    let mut h = composite_setup();
    let asset = h.addr();
    let recip = h.addr();
    let tree = single_amount_tree(&mut h, RuleOp::MaxAmount, 10);
    set_rule(&mut h, tree);
    // The denial that the violation reports.
    assert_eq!(h.check("cr", &asset, &recip, 100), Err(Error::PolicyDenied));
}

#[test]
fn composite_evaluate_view_passes() {
    let mut h = composite_setup();
    let asset = h.addr();
    let recip = h.addr();
    let tree = single_amount_tree(&mut h, RuleOp::MaxAmount, 500);
    set_rule(&mut h, tree);
    assert_eq!(h.c.evaluate_composite_rule(&s("cr"), &payload(&asset, &recip, 200)), Ok(true));
}

#[test]
fn composite_evaluate_view_denies() {
    let mut h = composite_setup();
    let asset = h.addr();
    let recip = h.addr();
    let tree = single_amount_tree(&mut h, RuleOp::MaxAmount, 100);
    set_rule(&mut h, tree);
    assert_eq!(h.c.evaluate_composite_rule(&s("cr"), &payload(&asset, &recip, 200)), Ok(false));
}

#[test]
fn composite_evaluate_no_rule_permissive() {
    let mut h = composite_setup();
    let asset = h.addr();
    let recip = h.addr();
    assert_eq!(h.c.evaluate_composite_rule(&s("cr"), &payload(&asset, &recip, 999_999)), Ok(true));
}

#[test]
fn composite_realistic_max_amount_or_vendor_whitelist() {
    let mut h = composite_setup();
    let asset = h.addr();
    let vendor_a = h.addr();
    let vendor_b = h.addr();
    let random = h.addr();
    let tree = vec![
        branch(&mut h, RuleOp::Or, 1, 3),
        leaf_amount(&mut h, RuleOp::MaxAmount, 100),
        leaf_addr(RuleOp::AllowedRecipient, &vendor_a),
    ];
    set_rule(&mut h, tree);
    assert!(h.check("cr", &asset, &random, 50).is_ok());
    assert!(h.check("cr", &asset, &vendor_a, 500).is_ok());
    assert_eq!(h.check("cr", &asset, &vendor_b, 500), Err(Error::PolicyDenied));
    assert_eq!(h.check("cr", &asset, &random, 500), Err(Error::PolicyDenied));
}

#[test]
fn composite_realistic_not_blacklisted_and_max_amount() {
    let mut h = composite_setup();
    let asset = h.addr();
    let safe = h.addr();
    let bad = h.addr();
    let tree = vec![
        branch(&mut h, RuleOp::And, 1, 3),
        branch(&mut h, RuleOp::Not, 3, 4),
        leaf_amount(&mut h, RuleOp::MaxAmount, 1000),
        leaf(&mut h, RuleOp::RecipientBlacklisted),
    ];
    set_rule(&mut h, tree);
    assert!(h.check("cr", &asset, &safe, 500).is_ok());
    let owner = h.owner.clone();
    h.c.add_to_blocklist(&owner, &s("cr"), bad.clone()).unwrap();
    assert_eq!(h.check("cr", &asset, &bad, 500), Err(Error::PolicyRecipientRestricted));
}

#[test]
fn blacklisted_asset_is_denied() {
    let mut h = setup();
    let asset = h.addr();
    let recip = h.addr();
    let owner = h.owner.clone();
    assert!(h.check("max_txn", &asset, &recip, 1).is_ok());
    h.c.add_asset_blacklist(&owner, &s("max_txn"), asset.clone()).unwrap();
    assert!(h.c.is_asset_blacklisted(&s("max_txn"), &asset));
    assert_eq!(h.check("max_txn", &asset, &recip, 1), Err(Error::PolicyDenied));
}

#[test]
fn blacklist_removal_restores_the_asset() {
    let mut h = setup();
    let asset = h.addr();
    let recip = h.addr();
    let owner = h.owner.clone();
    h.c.add_asset_blacklist(&owner, &s("max_txn"), asset.clone()).unwrap();
    h.c.remove_asset_blacklist(&owner, &s("max_txn"), &asset).unwrap();
    assert!(!h.c.is_asset_blacklisted(&s("max_txn"), &asset));
    assert!(h.check("max_txn", &asset, &recip, 1).is_ok());
}

#[test]
fn blacklist_beats_the_asset_whitelist() {
    let mut h = setup();
    let asset = h.addr();
    let recip = h.addr();
    let owner = h.owner.clone();
    h.c.set_asset_whitelist_enabled(&owner, &s("max_txn"), true).unwrap();
    h.c.add_asset_to_whitelist(&owner, &s("max_txn"), asset.clone()).unwrap();
    assert!(h.check("max_txn", &asset, &recip, 1).is_ok());
    h.c.add_asset_blacklist(&owner, &s("max_txn"), asset.clone()).unwrap();
    assert_eq!(h.check("max_txn", &asset, &recip, 1), Err(Error::PolicyDenied));
}

#[test]
fn blacklist_is_scoped_to_its_policy() {
    let mut h = setup();
    h.register("other", 7, 1_000_000);
    let asset = h.addr();
    let recip = h.addr();
    let owner = h.owner.clone();
    h.c.add_asset_blacklist(&owner, &s("max_txn"), asset.clone()).unwrap();
    assert!(!h.c.is_asset_blacklisted(&s("other"), &asset));
    assert!(h.check("other", &asset, &recip, 1).is_ok());
}

#[test]
fn blacklist_management_rejects_bad_input() {
    let mut h = setup();
    let asset = h.addr();
    let owner = h.owner.clone();
    assert_eq!(h.c.remove_asset_blacklist(&owner, &s("max_txn"), &asset), Err(Error::NotFound));
    h.c.add_asset_blacklist(&owner, &s("max_txn"), asset.clone()).unwrap();
    assert_eq!(h.c.add_asset_blacklist(&owner, &s("max_txn"), asset.clone()), Err(Error::AlreadyExists));
    assert_eq!(h.c.add_asset_blacklist(&owner, &s("nope"), asset), Err(Error::NotFound));
}

#[test]
fn only_the_owner_can_manage_the_blacklist() {
    let mut h = setup();
    let stranger = h.addr();
    let asset = h.addr();
    let owner = h.owner.clone();
    assert_eq!(h.c.add_asset_blacklist(&stranger, &s("max_txn"), asset.clone()), Err(Error::Unauthorized));
    h.c.add_asset_blacklist(&owner, &s("max_txn"), asset.clone()).unwrap();
    assert_eq!(h.c.remove_asset_blacklist(&stranger, &s("max_txn"), &asset), Err(Error::Unauthorized));
}

fn stack_rule(h: &mut Harness, pid: &str, tree: Vec<RuleNode>) -> Result<u32, Error> {
    let owner = h.owner.clone();
    h.c.add_policy_rule(&owner, &s(pid), tree)
}

#[test]
fn multi_rule_recipient_and_amount_both_must_pass() {
    let mut h = composite_setup();
    let vendor = h.addr();
    let asset = h.addr();
    assert_eq!(stack_rule(&mut h, "cr", single_addr_tree(RuleOp::AllowedRecipient, &vendor)), Ok(1));
    let tree = single_amount_tree(&mut h, RuleOp::MaxAmount, 500);
    assert_eq!(stack_rule(&mut h, "cr", tree), Ok(2));
    assert_eq!(h.c.get_policy_rules(&s("cr")).len(), 2);
    assert!(h.check("cr", &asset, &vendor, 500).is_ok());
    assert!(h.check("cr", &asset, &vendor, 1).is_ok());
}

#[test]
fn multi_rule_whitelisted_recipient_failure_denies() {
    let mut h = composite_setup();
    let vendor = h.addr();
    let stranger = h.addr();
    let asset = h.addr();
    stack_rule(&mut h, "cr", single_addr_tree(RuleOp::AllowedRecipient, &vendor)).unwrap();
    let tree = single_amount_tree(&mut h, RuleOp::MaxAmount, 500);
    stack_rule(&mut h, "cr", tree).unwrap();
    assert_eq!(h.check("cr", &asset, &stranger, 100), Err(Error::PolicyDenied));
}

#[test]
fn multi_rule_amount_limit_failure_denies() {
    let mut h = composite_setup();
    let vendor = h.addr();
    let asset = h.addr();
    stack_rule(&mut h, "cr", single_addr_tree(RuleOp::AllowedRecipient, &vendor)).unwrap();
    let tree = single_amount_tree(&mut h, RuleOp::MaxAmount, 500);
    stack_rule(&mut h, "cr", tree).unwrap();
    assert_eq!(h.check("cr", &asset, &vendor, 501), Err(Error::PolicyDenied));
}

#[test]
fn multi_rule_is_conjunctive_across_three_rules() {
    let mut h = composite_setup();
    let vendor = h.addr();
    let asset = h.addr();
    stack_rule(&mut h, "cr", single_addr_tree(RuleOp::AllowedRecipient, &vendor)).unwrap();
    let tree = single_amount_tree(&mut h, RuleOp::MaxAmount, 500);
    stack_rule(&mut h, "cr", tree).unwrap();
    stack_rule(&mut h, "cr", single_addr_tree(RuleOp::AllowedAsset, &asset)).unwrap();
    assert_eq!(h.c.get_policy_rules(&s("cr")).len(), 3);
    assert!(h.check("cr", &asset, &vendor, 500).is_ok());
    let other_asset = h.addr();
    assert_eq!(h.check("cr", &other_asset, &vendor, 500), Err(Error::PolicyDenied));
}

#[test]
fn multi_rule_empty_stack_is_permissive() {
    let mut h = composite_setup();
    let asset = h.addr();
    let recip = h.addr();
    assert_eq!(h.c.get_policy_rules(&s("cr")).len(), 0);
    assert!(h.check("cr", &asset, &recip, 1_000_000).is_ok());
    assert_eq!(h.c.evaluate_policy_rules(&s("cr"), &payload(&asset, &recip, 1)), Ok(true));
}

#[test]
fn multi_rule_remove_retires_a_single_rule() {
    let mut h = composite_setup();
    let vendor = h.addr();
    let stranger = h.addr();
    let asset = h.addr();
    stack_rule(&mut h, "cr", single_addr_tree(RuleOp::AllowedRecipient, &vendor)).unwrap();
    let tree = single_amount_tree(&mut h, RuleOp::MaxAmount, 500);
    stack_rule(&mut h, "cr", tree).unwrap();
    assert_eq!(h.check("cr", &asset, &vendor, 600), Err(Error::PolicyDenied));
    let owner = h.owner.clone();
    h.c.remove_policy_rule(&owner, &s("cr"), 1).unwrap();
    assert_eq!(h.c.get_policy_rules(&s("cr")).len(), 1);
    assert!(h.check("cr", &asset, &vendor, 600).is_ok());
    assert_eq!(h.check("cr", &asset, &stranger, 600), Err(Error::PolicyDenied));
}

#[test]
fn multi_rule_remove_bounds_and_missing_stack_fail() {
    let mut h = composite_setup();
    let owner = h.owner.clone();
    assert_eq!(h.c.remove_policy_rule(&owner, &s("cr"), 0), Err(Error::NotFound));
    let tree = single_amount_tree(&mut h, RuleOp::MaxAmount, 1);
    stack_rule(&mut h, "cr", tree).unwrap();
    assert_eq!(h.c.remove_policy_rule(&owner, &s("cr"), 5), Err(Error::InvalidInput));
    assert_eq!(h.c.remove_policy_rule(&owner, &s("cr"), u32::MAX), Err(Error::InvalidInput));
    h.c.remove_policy_rule(&owner, &s("cr"), 0).unwrap();
    assert_eq!(h.c.get_policy_rules(&s("cr")).len(), 0);
    assert_eq!(h.c.remove_policy_rule(&owner, &s("cr"), 0), Err(Error::NotFound));
    assert_eq!(h.c.clear_policy_rules(&owner, &s("cr")), Err(Error::NotFound));
}

#[test]
fn multi_rule_only_the_owner_can_manage_the_stack() {
    let mut h = composite_setup();
    let stranger = h.addr();
    let tree = single_amount_tree(&mut h, RuleOp::MaxAmount, 10);
    let copy = single_amount_tree(&mut h, RuleOp::MaxAmount, 10);
    assert_eq!(h.c.add_policy_rule(&stranger, &s("cr"), tree), Err(Error::Unauthorized));
    assert_eq!(h.c.remove_policy_rule(&stranger, &s("cr"), 0), Err(Error::Unauthorized));
    assert_eq!(h.c.clear_policy_rules(&stranger, &s("cr")), Err(Error::Unauthorized));
    stack_rule(&mut h, "cr", copy).unwrap();
    assert_eq!(h.c.get_policy_rules(&s("cr")).len(), 1);
}

#[test]
fn multi_rule_rejects_empty_and_malformed_trees() {
    let mut h = composite_setup();
    assert_eq!(stack_rule(&mut h, "cr", Vec::new()), Err(Error::InvalidInput));
    let no_children = vec![branch(&mut h, RuleOp::And, 1, 1)];
    assert_eq!(stack_rule(&mut h, "cr", no_children), Err(Error::InvalidInput));
    let out_of_bounds = vec![branch(&mut h, RuleOp::Or, 1, 9), leaf_amount(&mut h, RuleOp::MaxAmount, 1)];
    assert_eq!(stack_rule(&mut h, "cr", out_of_bounds), Err(Error::InvalidInput));
    let two_children = vec![
        branch(&mut h, RuleOp::Not, 1, 3),
        leaf_amount(&mut h, RuleOp::MaxAmount, 1),
        leaf_amount(&mut h, RuleOp::MaxAmount, 2),
    ];
    assert_eq!(stack_rule(&mut h, "cr", two_children), Err(Error::InvalidInput));
    assert_eq!(h.c.get_policy_rules(&s("cr")).len(), 0);
}

#[test]
fn multi_rule_stack_is_bounded() {
    let mut h = composite_setup();
    for i in 0..MAX_POLICY_RULES {
        let tree = single_amount_tree(&mut h, RuleOp::MaxAmount, i as i128);
        assert_eq!(stack_rule(&mut h, "cr", tree), Ok((i + 1) as u32));
    }
    assert_eq!(h.c.get_policy_rules(&s("cr")).len(), MAX_POLICY_RULES);
    let overflow = single_amount_tree(&mut h, RuleOp::MaxAmount, i128::MAX);
    assert_eq!(stack_rule(&mut h, "cr", overflow), Err(Error::InvalidInput));
}

#[test]
fn multi_rule_clear_restores_permissive() {
    let mut h = composite_setup();
    let asset = h.addr();
    let recip = h.addr();
    let tree = single_amount_tree(&mut h, RuleOp::MaxAmount, 10);
    stack_rule(&mut h, "cr", tree).unwrap();
    assert_eq!(h.check("cr", &asset, &recip, 100), Err(Error::PolicyDenied));
    let owner = h.owner.clone();
    h.c.clear_policy_rules(&owner, &s("cr")).unwrap();
    assert_eq!(h.c.get_policy_rules(&s("cr")).len(), 0);
    assert!(h.check("cr", &asset, &recip, 100).is_ok());
}

#[test]
fn multi_rule_denial_emits_policy_violation() {
    let mut h = composite_setup();
    let asset = h.addr();
    let recip = h.addr();
    let tree = single_amount_tree(&mut h, RuleOp::MaxAmount, 10);
    stack_rule(&mut h, "cr", tree).unwrap();
    // The denial that the violation reports.
    assert_eq!(h.check("cr", &asset, &recip, 100), Err(Error::PolicyDenied));
}

#[test]
fn multi_rule_stacks_with_the_single_composite_rule() {
    let mut h = composite_setup();
    let vendor = h.addr();
    let stranger = h.addr();
    let asset = h.addr();
    let tree = single_amount_tree(&mut h, RuleOp::MaxAmount, 100);
    set_rule(&mut h, tree);
    stack_rule(&mut h, "cr", single_addr_tree(RuleOp::AllowedRecipient, &vendor)).unwrap();
    assert_eq!(h.check("cr", &asset, &vendor, 200), Err(Error::PolicyDenied));
    assert_eq!(h.check("cr", &asset, &stranger, 50), Err(Error::PolicyDenied));
    assert!(h.check("cr", &asset, &vendor, 50).is_ok());
}

#[test]
fn multi_rule_short_circuits_on_first_failure() {
    let mut h = composite_setup();
    let asset = h.addr();
    let recip = h.addr();
    let p = payload(&asset, &recip, 100);
    let deep = deep_chain_tree(&mut h);
    let deep_again = deep_chain_tree(&mut h);
    let deny = single_amount_tree(&mut h, RuleOp::MaxAmount, 10);
    let deny_again = single_amount_tree(&mut h, RuleOp::MaxAmount, 10);
    stack_rule(&mut h, "cr", deny).unwrap();
    stack_rule(&mut h, "cr", deep).unwrap();
    assert_eq!(h.c.evaluate_policy_rules(&s("cr"), &p), Ok(false));
    assert_eq!(h.check("cr", &asset, &recip, 100), Err(Error::PolicyDenied));
    let owner = h.owner.clone();
    h.c.clear_policy_rules(&owner, &s("cr")).unwrap();
    stack_rule(&mut h, "cr", deep_again).unwrap();
    stack_rule(&mut h, "cr", deny_again).unwrap();
    assert_eq!(h.c.evaluate_policy_rules(&s("cr"), &p), Err(Error::InvalidInput));
    assert_eq!(h.check("cr", &asset, &recip, 100), Err(Error::InvalidInput));
}

#[test]
fn multi_rule_stack_is_scoped_to_its_policy() {
    let mut h = composite_setup();
    h.register("other", 7, 0);
    let asset = h.addr();
    let recip = h.addr();
    let tree = single_amount_tree(&mut h, RuleOp::MaxAmount, 10);
    stack_rule(&mut h, "cr", tree).unwrap();
    assert_eq!(h.check("cr", &asset, &recip, 100), Err(Error::PolicyDenied));
    assert_eq!(h.c.get_policy_rules(&s("other")).len(), 0);
    assert!(h.check("other", &asset, &recip, 100).is_ok());
}

#[test]
fn whitelist_allows_listed_and_blocks_unlisted() {
    let mut h = whitelist_setup("wl");
    let asset = h.addr();
    let a = h.addr();
    let b = h.addr();
    let stranger = h.addr();
    let owner = h.owner.clone();
    h.c.set_recipient_whitelist_enabled(&owner, &s("wl"), true).unwrap();
    h.c.add_recipient_to_whitelist(&owner, &s("wl"), a.clone()).unwrap();
    h.c.add_recipient_to_whitelist(&owner, &s("wl"), b.clone()).unwrap();
    assert!(h.check("wl", &asset, &a, 1).is_ok());
    assert!(h.check("wl", &asset, &b, 1).is_ok());
    assert_eq!(h.check("wl", &asset, &stranger, 1), Err(Error::PolicyDenied));
}

#[test]
fn empty_whitelist_denies_all_recipients() {
    let mut h = whitelist_setup("wl_empty");
    let asset = h.addr();
    let anyone = h.addr();
    let owner = h.owner.clone();
    h.c.set_recipient_whitelist_enabled(&owner, &s("wl_empty"), true).unwrap();
    assert_eq!(h.check("wl_empty", &asset, &anyone, 1), Err(Error::PolicyDenied));
}

#[test]
fn whitelist_removal_blocks_previously_allowed() {
    let mut h = whitelist_setup("wl_rem");
    let asset = h.addr();
    let a = h.addr();
    let owner = h.owner.clone();
    h.c.set_recipient_whitelist_enabled(&owner, &s("wl_rem"), true).unwrap();
    h.c.add_recipient_to_whitelist(&owner, &s("wl_rem"), a.clone()).unwrap();
    assert!(h.check("wl_rem", &asset, &a, 1).is_ok());
    h.c.remove_recipient_from_whitelist(&owner, &s("wl_rem"), &a).unwrap();
    assert_eq!(h.check("wl_rem", &asset, &a, 1), Err(Error::PolicyDenied));
}

#[test]
fn whitelist_disabled_allows_any_recipient() {
    let mut h = whitelist_setup("wl_off");
    let asset = h.addr();
    let anyone = h.addr();
    let owner = h.owner.clone();
    assert!(h.check("wl_off", &asset, &anyone, 1).is_ok());
    h.c.set_recipient_whitelist_enabled(&owner, &s("wl_off"), true).unwrap();
    h.c.set_recipient_whitelist_enabled(&owner, &s("wl_off"), false).unwrap();
    assert!(h.check("wl_off", &asset, &anyone, 1).is_ok());
    assert!(!h.c.is_recipient_whitelisted(&s("wl_off"), &anyone));
}

#[test]
fn non_owner_cannot_manage_whitelist() {
    let mut h = whitelist_setup("wl_auth");
    let intruder = h.addr();
    let target = h.addr();
    let pid = s("wl_auth");
    assert_eq!(h.c.set_recipient_whitelist_enabled(&intruder, &pid, true), Err(Error::Unauthorized));
    assert_eq!(h.c.add_recipient_to_whitelist(&intruder, &pid, target.clone()), Err(Error::Unauthorized));
    assert_eq!(h.c.remove_recipient_from_whitelist(&intruder, &pid, &target), Err(Error::Unauthorized));
    assert!(h.c.get_recipient_whitelist(&pid).is_empty());
}

#[test]
fn duplicate_and_missing_recipient_whitelist_ops_rejected() {
    let mut h = whitelist_setup("wl_dup");
    let target = h.addr();
    let owner = h.owner.clone();
    let pid = s("wl_dup");
    h.c.add_recipient_to_whitelist(&owner, &pid, target.clone()).unwrap();
    assert_eq!(h.c.add_recipient_to_whitelist(&owner, &pid, target.clone()), Err(Error::AlreadyExists));
    let other = h.addr();
    assert_eq!(h.c.remove_recipient_from_whitelist(&owner, &pid, &other), Err(Error::NotFound));
    h.c.remove_recipient_from_whitelist(&owner, &pid, &target).unwrap();
    assert_eq!(h.c.remove_recipient_from_whitelist(&owner, &pid, &target), Err(Error::NotFound));
    assert!(h.c.get_recipient_whitelist(&pid).is_empty());
}

#[test]
fn whitelist_denial_emits_policy_violation() {
    let mut h = whitelist_setup("wl_evt");
    let asset = h.addr();
    let stranger = h.addr();
    let owner = h.owner.clone();
    h.c.set_recipient_whitelist_enabled(&owner, &s("wl_evt"), true).unwrap();
    // The denial that the violation reports.
    assert_eq!(h.check("wl_evt", &asset, &stranger, 1), Err(Error::PolicyDenied));
}

#[test]
fn whitelist_ok_path_records_no_violation_event() {
    let mut h = whitelist_setup("wl_ok");
    let asset = h.addr();
    let listed = h.addr();
    let owner = h.owner.clone();
    h.c.set_recipient_whitelist_enabled(&owner, &s("wl_ok"), true).unwrap();
    h.c.add_recipient_to_whitelist(&owner, &s("wl_ok"), listed.clone()).unwrap();
    assert!(h.check("wl_ok", &asset, &listed, 1).is_ok());
}

#[test]
fn recipient_whitelist_is_scoped_per_policy() {
    let mut h = whitelist_setup("wl_a");
    h.register("wl_b", 6, 0);
    let asset = h.addr();
    let vendor = h.addr();
    let owner = h.owner.clone();
    h.c.set_recipient_whitelist_enabled(&owner, &s("wl_a"), true).unwrap();
    h.c.add_recipient_to_whitelist(&owner, &s("wl_a"), vendor.clone()).unwrap();
    assert!(h.c.is_recipient_whitelisted(&s("wl_a"), &vendor));
    assert!(!h.c.is_recipient_whitelisted(&s("wl_b"), &vendor));
    assert_eq!(h.c.get_recipient_whitelist(&s("wl_b")).len(), 0);
    h.c.set_recipient_whitelist_enabled(&owner, &s("wl_b"), true).unwrap();
    assert!(h.check("wl_a", &asset, &vendor, 1).is_ok());
    assert_eq!(h.check("wl_b", &asset, &vendor, 1), Err(Error::PolicyDenied));
}

#[test]
fn recipient_whitelist_queries_reflect_edits() {
    let mut h = whitelist_setup("wl_q");
    let a = h.addr();
    let b = h.addr();
    let owner = h.owner.clone();
    let pid = s("wl_q");
    assert!(!h.c.is_recipient_whitelisted(&pid, &a));
    assert!(h.c.get_recipient_whitelist(&pid).is_empty());
    h.c.add_recipient_to_whitelist(&owner, &pid, a.clone()).unwrap();
    h.c.add_recipient_to_whitelist(&owner, &pid, b.clone()).unwrap();
    assert!(h.c.is_recipient_whitelisted(&pid, &a));
    assert!(h.c.is_recipient_whitelisted(&pid, &b));
    let listed = h.c.get_recipient_whitelist(&pid);
    assert_eq!(listed.len(), 2);
    assert_eq!(listed.get(0), Some(&a));
    assert_eq!(listed.get(1), Some(&b));
    h.c.remove_recipient_from_whitelist(&owner, &pid, &a).unwrap();
    assert!(!h.c.is_recipient_whitelisted(&pid, &a));
    let listed = h.c.get_recipient_whitelist(&pid);
    assert_eq!(listed.len(), 1);
    assert_eq!(listed.get(0), Some(&b));
}

#[test]
fn evaluate_recipient_whitelist_entry_point() {
    let mut h = whitelist_setup("wl_eval");
    let asset = h.addr();
    let recipient = h.addr();
    let owner = h.owner.clone();
    let pid = s("wl_eval");
    let p = payload(&asset, &recipient, 1);
    assert_eq!(h.c.evaluate_recipient_whitelist(&pid, &p), Ok(()));
    h.c.set_recipient_whitelist_enabled(&owner, &pid, true).unwrap();
    assert_eq!(h.c.evaluate_recipient_whitelist(&pid, &p), Err(Error::PolicyDenied));
    h.c.add_recipient_to_whitelist(&owner, &pid, recipient.clone()).unwrap();
    assert_eq!(h.c.evaluate_recipient_whitelist(&pid, &p), Ok(()));
}

#[test]
fn blocklisted_recipient_stays_denied_while_whitelisted() {
    let mut h = whitelist_setup("wl_blk");
    let asset = h.addr();
    let bad = h.addr();
    let owner = h.owner.clone();
    h.c.set_recipient_whitelist_enabled(&owner, &s("wl_blk"), true).unwrap();
    h.c.add_recipient_to_whitelist(&owner, &s("wl_blk"), bad.clone()).unwrap();
    assert!(h.check("wl_blk", &asset, &bad, 1).is_ok());
    h.c.add_to_blocklist(&owner, &s("wl_blk"), bad.clone()).unwrap();
    assert_eq!(h.check("wl_blk", &asset, &bad, 1), Err(Error::PolicyRecipientRestricted));
}

#[test]
fn whitelist_and_scalar_gates_are_conjunctive() {
    let mut h = whitelist_setup("wl_mix");
    let asset = h.addr();
    let vendor = h.addr();
    let stranger = h.addr();
    let owner = h.owner.clone();
    let pid = s("wl_mix");
    h.c.rotate_policy(&owner, &pid, [5; 32], 100).unwrap();
    h.c.set_recipient_whitelist_enabled(&owner, &pid, true).unwrap();
    h.c.add_recipient_to_whitelist(&owner, &pid, vendor.clone()).unwrap();
    assert!(h.check("wl_mix", &asset, &vendor, 100).is_ok());
    assert_eq!(h.check("wl_mix", &asset, &vendor, 101), Err(Error::PolicyDenied));
    assert_eq!(h.check("wl_mix", &asset, &stranger, 1), Err(Error::PolicyDenied));
}

#[test]
fn short_form_whitelist_api_manages_entries() {
    let mut h = whitelist_setup("wl_short");
    let asset = h.addr();
    let a = h.addr();
    let owner = h.owner.clone();
    let pid = s("wl_short");
    h.c.set_whitelist_enabled(&owner, &pid, true).unwrap();
    h.c.add_whitelist(&owner, &pid, a.clone()).unwrap();
    assert!(h.c.is_recipient_whitelisted(&pid, &a));
    assert!(h.check("wl_short", &asset, &a, 1).is_ok());
    h.c.remove_whitelist(&owner, &pid, &a).unwrap();
    assert!(!h.c.is_recipient_whitelisted(&pid, &a));
    assert_eq!(h.check("wl_short", &asset, &a, 1), Err(Error::PolicyDenied));
}

// ---- further cases ----

fn entry(asset: &str, amount: i128) -> AssetAmount {
    AssetAmount { asset: s(asset), amount }
}

#[test]
fn aggregate_sums_entries_of_one_asset_in_first_seen_order() {
    let totals = aggregate_amounts(&vec![entry("A", 100), entry("B", 50), entry("A", 25)]).unwrap();
    assert_eq!(totals.len(), 2);
    assert_eq!((totals[0].asset.as_str(), totals[0].amount), ("A", 125));
    assert_eq!((totals[1].asset.as_str(), totals[1].amount), ("B", 50));
    assert_eq!(aggregate_amounts(&Vec::new()).err(), Some(Error::InvalidInput));
    let eleven: Vec<AssetAmount> = (0..11).map(|_| entry("A", 1)).collect();
    assert_eq!(aggregate_amounts(&eleven).err(), Some(Error::InvalidInput));
    assert_eq!(aggregate_amounts(&vec![entry("A", 5), entry("B", 0)]).err(), Some(Error::InvalidAmount));
    assert_eq!(aggregate_amounts(&vec![entry("A", i128::MAX), entry("A", 1)]).err(), Some(Error::Overflow));
}

#[test]
fn multi_asset_requests_are_checked_per_asset_and_recorded_atomically() {
    let mut h = allowance_setup();
    let recip = h.addr();
    let owner = h.owner.clone();
    h.c.set_allowance(&owner, &s("mt"), &s("A"), 100, 0, h.now).unwrap();
    // Two entries of one asset are summed before the allowance is consulted.
    assert_eq!(
        h.c.check_multi_asset_transfer(&s("mt"), &recip, &vec![entry("A", 60), entry("A", 50)], h.now),
        Err(Error::AllowanceExceeded)
    );
    assert_eq!(h.c.check_multi_asset_transfer(&s("mt"), &recip, &vec![entry("A", 60), entry("B", 500)], h.now), Ok(()));
    // A failing request records nothing.
    assert_eq!(
        h.c.record_multi_asset_spend(&owner, &s("mt"), &recip, &vec![entry("A", 60), entry("A", 50)], h.now),
        Err(Error::AllowanceExceeded)
    );
    assert_eq!(h.c.get_allowance(&s("mt"), &s("A"), h.now).spent, 0);
    h.c.record_multi_asset_spend(&owner, &s("mt"), &recip, &vec![entry("A", 60), entry("B", 500)], h.now).unwrap();
    assert_eq!(h.c.get_allowance(&s("mt"), &s("A"), h.now).spent, 60);
    assert_eq!(h.c.check_allowance(&s("mt"), &s("A"), 40, h.now), Ok(0));
    let stranger = h.addr();
    assert_eq!(
        h.c.record_multi_asset_spend(&stranger, &s("mt"), &recip, &vec![entry("A", 1)], h.now),
        Err(Error::Unauthorized)
    );
}

#[test]
fn recurring_allowance_resets_on_each_window() {
    let mut h = allowance_setup();
    let recip = h.addr();
    let owner = h.owner.clone();
    h.now = 100;
    h.c.set_recurring_allowance(&owner, &s("mt"), &s("A"), 100, 30, 0, h.now).unwrap();
    h.c.update_allowance(&owner, &s("mt"), &s("A"), 100, h.now).unwrap();
    h.now = 129;
    assert_eq!(h.check("mt", "A", &recip, 1), Err(Error::AllowanceExceeded));
    h.now = 130;
    assert!(h.check("mt", "A", &recip, 100).is_ok());
    let a = h.c.get_allowance(&s("mt"), &s("A"), 195);
    assert_eq!((a.window_start, a.spent, a.limit), (190, 0, 100));
}

#[test]
fn settle_window_advances_by_whole_windows() {
    let mut a = AssetAllowance {
        policy_id: s("mt"),
        asset: s("A"),
        limit: 100,
        spent: 50,
        expires_at: 0,
        window_seconds: 30,
        window_start: 100,
    };
    settle_window(&mut a, 120);
    assert_eq!((a.window_start, a.spent), (100, 50));
    settle_window(&mut a, 165);
    assert_eq!((a.window_start, a.spent), (160, 0));
    let consumed = consume_allowance(Some(&a), 70, 170).unwrap().unwrap();
    assert_eq!(consumed.spent, 70);
    assert_eq!(consume_allowance(Some(&consumed), 31, 170).err(), Some(Error::AllowanceExceeded));
    assert!(consume_allowance(None, 1_000, 0).unwrap().is_none());
    let expiring = AssetAllowance { expires_at: 150, ..a.copied() };
    assert_eq!(consume_allowance(Some(&expiring), 1, 150).err(), Some(Error::PolicyDenied));
    let unlimited = AssetAllowance { limit: 0, ..a.copied() };
    assert!(consume_allowance(Some(&unlimited), i128::MAX, 0).unwrap().is_none());
}

#[test]
fn recipient_and_merchant_deny_lists_report_their_own_codes() {
    let mut h = setup();
    let asset = h.addr();
    let bad = h.addr();
    let shop = h.addr();
    let owner = h.owner.clone();
    h.c.add_blacklist(&owner, &s("max_txn"), bad.clone()).unwrap();
    assert_eq!(h.c.add_blacklist(&owner, &s("max_txn"), bad.clone()), Err(Error::AlreadyExists));
    assert_eq!(h.check("max_txn", &asset, &bad, 1), Err(Error::PolicyRecipientRestricted));
    h.c.remove_blacklist(&owner, &s("max_txn"), &bad).unwrap();
    assert!(h.check("max_txn", &asset, &bad, 1).is_ok());
    assert!(h.c.remove_blacklist(&owner, &s("max_txn"), &bad).is_err());
    h.c.add_to_blocklist(&owner, &s("max_txn"), bad.clone()).unwrap();
    h.c.remove_from_blocklist(&owner, &s("max_txn"), &bad).unwrap();
    assert!(h.check("max_txn", &asset, &bad, 1).is_ok());
    h.c.add_merchant_blacklist(&owner, &s("max_txn"), shop.clone()).unwrap();
    assert_eq!(h.check("max_txn", &asset, &shop, 1), Err(Error::PolicyMerchantBlocked));
    assert_eq!(h.check("max_txn", &asset, &shop, 0), Err(Error::InvalidAmount));
}

#[test]
fn expired_or_unknown_policy_denies() {
    let mut h = empty();
    let owner = h.owner.clone();
    h.c.register_policy(owner.clone(), s("short"), [3; 32], 0, None, None, 500).unwrap();
    assert_eq!(h.c.register_policy(owner.clone(), s("short"), [3; 32], 0, None, None, 0), Err(Error::AlreadyExists));
    assert_eq!(h.c.register_policy(owner, s(""), [3; 32], 0, None, None, 0), Err(Error::InvalidInput));
    h.now = 499;
    assert!(h.check("short", "A", "GR", 1).is_ok());
    h.now = 500;
    assert_eq!(h.check("short", "A", "GR", 1), Err(Error::PolicyDenied));
    assert_eq!(h.check("nope", "A", "GR", 1), Err(Error::NotFound));
    assert_eq!(h.c.get(&s("nope")).err(), Some(Error::NotFound));
    assert_eq!(h.c.get(&s("short")).unwrap().expires_at, 500);
}

#[test]
fn rule_trees_validate_and_evaluate_directly() {
    let mut h = composite_setup();
    let r = h.addr();
    let tree = vec![
        branch(&mut h, RuleOp::And, 1, 3),
        leaf_amount(&mut h, RuleOp::MaxAmount, 10),
        leaf(&mut h, RuleOp::RecipientBlacklisted),
    ];
    assert_eq!(validate_rule_tree(&tree), Ok(()));
    let p = payload("A", &r, 5);
    assert_eq!(evaluate_node(&tree, 0, &p, 10, true, false), Ok(true));
    assert_eq!(evaluate_node(&tree, 0, &p, 10, false, false), Ok(false));
    assert_eq!(evaluate_node(&tree, 0, &p, 1, true, false), Err(Error::InvalidInput));
    assert_eq!(evaluate_node(&tree, 7, &p, 10, true, false), Err(Error::InvalidInput));
    let bad_not = vec![branch(&mut h, RuleOp::Not, 2, 1)];
    assert_eq!(validate_rule_tree(&bad_not), Err(Error::InvalidInput));
    assert_eq!(validate_rule_tree(&Vec::new()), Err(Error::InvalidInput));
}

fn rule(id: &str, rule_match: RuleMatch, target: RuleTarget, value: &str) -> PolicyRule {
    PolicyRule { id: s(id), rule_match, target, value: s(value) }
}

#[test]
fn conditional_rules_first_match_wins() {
    let mut book = RuleBook::new();
    let pid = s("p");
    add_rule(&mut book, &pid, rule("deny-bad", RuleMatch::Deny, RuleTarget::Destination, "GBAD*")).unwrap();
    add_rule(&mut book, &pid, rule("allow-all-g", RuleMatch::Allow, RuleTarget::Destination, "G*")).unwrap();
    add_rule(&mut book, &pid, rule("deny-usdc", RuleMatch::Deny, RuleTarget::Asset, "CUSDC")).unwrap();
    assert_eq!(
        add_rule(&mut book, &pid, rule("deny-bad", RuleMatch::Allow, RuleTarget::Asset, "X")),
        Err(Error::AlreadyExists)
    );
    assert_eq!(load_rules(&book, &pid).len(), 3);
    // The first matching rule decides.
    assert_eq!(evaluate_rules(&book, &pid, &s("GBADACTOR"), &s("CUSDC")), Err(Error::RuleDenied));
    assert_eq!(evaluate_rules(&book, &pid, &s("GGOOD"), &s("CUSDC")), Ok(()));
    assert_eq!(evaluate_rules(&book, &pid, &s("CCONTRACT"), &s("CUSDC")), Err(Error::RuleDenied));
    // Nothing matches: allowed.
    assert_eq!(evaluate_rules(&book, &pid, &s("CCONTRACT"), &s("CXLM")), Ok(()));
    assert_eq!(evaluate_rules(&book, &s("other"), &s("GBADACTOR"), &s("CUSDC")), Ok(()));
    remove_rule(&mut book, &pid, &s("deny-bad")).unwrap();
    assert_eq!(evaluate_rules(&book, &pid, &s("GBADACTOR"), &s("CUSDC")), Ok(()));
    assert_eq!(remove_rule(&mut book, &pid, &s("deny-bad")), Err(Error::NotFound));
}

#[test]
fn rule_matching_edge_cases() {
    let star = rule("r", RuleMatch::Deny, RuleTarget::Destination, "*");
    assert!(!star.matches(&s("GANY"), &s("CANY")));
    let empty = rule("r", RuleMatch::Deny, RuleTarget::Destination, "");
    assert!(!empty.matches(&s(""), &s("")));
    let exact = rule("r", RuleMatch::Deny, RuleTarget::Asset, "CUSDC");
    assert!(exact.matches(&s("G"), &s("CUSDC")));
    assert!(!exact.matches(&s("G"), &s("CUSDCX")));
    let prefix = rule("r", RuleMatch::Allow, RuleTarget::Destination, "GAB*");
    assert!(prefix.matches(&s("GAB"), &s("C")));
    assert!(!prefix.matches(&s("GA"), &s("C")));
}

#[test]
fn rule_book_holds_at_most_sixteen_rules_per_policy() {
    let mut book = RuleBook::new();
    let pid = s("p");
    for i in 0..16 {
        add_rule(&mut book, &pid, rule(&format!("r{}", i), RuleMatch::Allow, RuleTarget::Asset, "C")).unwrap();
    }
    assert_eq!(add_rule(&mut book, &pid, rule("r16", RuleMatch::Allow, RuleTarget::Asset, "C")), Err(Error::InvalidInput));
}
