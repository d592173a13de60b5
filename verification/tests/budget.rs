use astroid::budget::{Budget, BudgetContract, Period};
use astroid::shared::{Error, ResourceState};

const DAY: u64 = 86_400;
const WEEK: u64 = 604_800;

struct Harness {
    c: BudgetContract,
    now: u64,
    owner: String,
}

fn setup() -> Harness {
    let mut c = BudgetContract::new();
    c.initialize(&"GADMIN".to_string()).unwrap();
    Harness { c, now: 1_000, owner: "GOWNER".to_string() }
}

fn id(s: &str) -> String {
    s.to_string()
}

impl Harness {
    fn try_allocate_as(&mut self, owner: &str, b: &str, limit: i128, period: Period, rollover: bool, expires_at: u64) -> Result<(), Error> {
        self.c.allocate(self.now, &owner.to_string(), &id(b), limit, period, rollover, expires_at)
    }

    fn try_allocate(&mut self, b: &str, limit: i128, period: Period, rollover: bool, expires_at: u64) -> Result<(), Error> {
        let o = self.owner.clone();
        self.try_allocate_as(&o, b, limit, period, rollover, expires_at)
    }

    fn allocate(&mut self, b: &str, limit: i128, period: Period, rollover: bool) {
        self.try_allocate(b, limit, period, rollover, 0).unwrap()
    }

    fn try_allocate_with_deficit(&mut self, b: &str, limit: i128, period: Period, rollover: bool, deficit: bool) -> Result<(), Error> {
        let o = self.owner.clone();
        self.c.allocate_with_deficit(self.now, &o, &id(b), limit, period, rollover, deficit, 0)
    }

    fn try_consume_as(&mut self, who: &str, b: &str, amount: i128) -> Result<i128, Error> {
        self.c.consume(self.now, &who.to_string(), &id(b), amount)
    }

    fn try_consume(&mut self, b: &str, amount: i128) -> Result<i128, Error> {
        let o = self.owner.clone();
        self.try_consume_as(&o, b, amount)
    }

    fn consume(&mut self, b: &str, amount: i128) -> i128 {
        self.try_consume(b, amount).unwrap()
    }

    fn try_release(&mut self, b: &str, amount: i128) -> Result<i128, Error> {
        let o = self.owner.clone();
        self.c.release(self.now, &o, &id(b), amount)
    }

    fn try_remaining(&mut self, b: &str) -> Result<i128, Error> {
        self.c.remaining(self.now, &id(b))
    }

    fn remaining(&mut self, b: &str) -> i128 {
        self.try_remaining(b).unwrap()
    }

    fn get(&self, b: &str) -> Budget {
        self.c.get(&id(b)).unwrap()
    }

    fn try_reset(&mut self, b: &str) -> Result<(), Error> {
        let o = self.owner.clone();
        self.c.reset(self.now, &o, &id(b))
    }

    fn try_rollover_as(&mut self, who: &str, b: &str) -> Result<(), Error> {
        self.c.rollover(self.now, &who.to_string(), &id(b))
    }

    fn try_rollover(&mut self, b: &str) -> Result<(), Error> {
        let o = self.owner.clone();
        self.try_rollover_as(&o, b)
    }

    fn try_set_limit(&mut self, b: &str, limit: i128) -> Result<(), Error> {
        let o = self.owner.clone();
        self.c.set_limit(self.now, &o, &id(b), limit)
    }

    fn try_freeze(&mut self, b: &str) -> Result<(), Error> {
        let o = self.owner.clone();
        self.c.freeze(&o, &id(b))
    }

    fn try_unfreeze(&mut self, b: &str) -> Result<(), Error> {
        let o = self.owner.clone();
        self.c.unfreeze(&o, &id(b))
    }

    fn try_archive(&mut self, b: &str) -> Result<(), Error> {
        let o = self.owner.clone();
        self.c.archive(&o, &id(b))
    }

    fn try_set_recurrence_as(&mut self, who: &str, b: &str, period: Period, secs: u64, rollover: bool, cap: i128) -> Result<(), Error> {
        self.c.set_recurrence(self.now, &who.to_string(), &id(b), period, secs, rollover, cap, 0)
    }

    fn try_set_recurrence(&mut self, b: &str, period: Period, secs: u64, rollover: bool, cap: i128) -> Result<(), Error> {
        let o = self.owner.clone();
        self.try_set_recurrence_as(&o, b, period, secs, rollover, cap)
    }

    fn try_transfer_as(&mut self, who: &str, from: &str, to: &str, amount: i128) -> Result<(), Error> {
        self.c.transfer_allocation(self.now, &who.to_string(), &id(from), &id(to), amount)
    }

    fn try_transfer(&mut self, from: &str, to: &str, amount: i128) -> Result<(), Error> {
        let o = self.owner.clone();
        self.try_transfer_as(&o, from, to, amount)
    }

    fn try_set_budget_limit_as(&mut self, who: &str, b: &str, token: &str, limit: i128, window: u64) -> Result<(), Error> {
        self.c.set_budget_limit(self.now, &who.to_string(), &id(b), &token.to_string(), limit, window)
    }

    fn try_set_budget_limit(&mut self, b: &str, token: &str, limit: i128, window: u64) -> Result<(), Error> {
        let o = self.owner.clone();
        self.try_set_budget_limit_as(&o, b, token, limit, window)
    }

    fn try_spend_as(&mut self, who: &str, b: &str, token: &str, amount: i128) -> Result<(), Error> {
        self.c.check_and_record_spend(self.now, &who.to_string(), &id(b), &token.to_string(), amount)
    }

    fn try_spend(&mut self, b: &str, token: &str, amount: i128) -> Result<(), Error> {
        let o = self.owner.clone();
        self.try_spend_as(&o, b, token, amount)
    }

    fn try_asset_remaining(&mut self, b: &str, token: &str) -> Result<i128, Error> {
        self.c.asset_remaining(self.now, &id(b), &token.to_string())
    }

    fn asset_remaining(&mut self, b: &str, token: &str) -> i128 {
        self.try_asset_remaining(b, token).unwrap()
    }

    fn budget(&mut self, name: &str, limit: i128) -> String {
        self.allocate(name, limit, Period::OneShot, false);
        id(name)
    }
}

#[test]
fn allocate_creates_active_budget() {
    let mut h = setup();
    h.try_allocate("eng", 1_000, Period::OneShot, false, 0).unwrap();
    let b = h.get("eng");
    assert_eq!(b.limit, 1_000);
    assert_eq!(b.spent, 0);
    assert_eq!(b.state, ResourceState::Active);
    assert!(!b.rollover_enabled);
    assert_eq!(b.rollover_credit, 0);
    assert_eq!(h.remaining("eng"), 1_000);
}

#[test]
fn duplicate_allocation_fails() {
    let mut h = setup();
    h.allocate("eng", 1_000, Period::OneShot, false);
    assert_eq!(h.try_allocate("eng", 2_000, Period::OneShot, false, 0), Err(Error::AlreadyExists));
}

#[test]
fn consume_reduces_remaining() {
    let mut h = setup();
    h.allocate("eng", 1_000, Period::OneShot, false);
    assert_eq!(h.consume("eng", 400), 600);
    assert_eq!(h.remaining("eng"), 600);
    assert_eq!(h.get("eng").spent, 400);
}

#[test]
fn over_budget_consume_fails_budget_exceeded() {
    let mut h = setup();
    h.allocate("eng", 1_000, Period::OneShot, false);
    h.consume("eng", 800);
    assert_eq!(h.try_consume("eng", 300), Err(Error::BudgetExceeded));
    assert_eq!(h.consume("eng", 200), 0);
}

#[test]
fn consume_zero_or_negative_rejected() {
    let mut h = setup();
    h.allocate("eng", 1_000, Period::OneShot, false);
    assert_eq!(h.try_consume("eng", 0), Err(Error::InvalidAmount));
    assert_eq!(h.try_consume("eng", -5), Err(Error::InvalidAmount));
}

#[test]
fn non_owner_cannot_consume() {
    let mut h = setup();
    h.allocate("eng", 1_000, Period::OneShot, false);
    assert_eq!(h.try_consume_as("GSTRANGER", "eng", 100), Err(Error::Unauthorized));
}

#[test]
fn reset_clears_spent() {
    let mut h = setup();
    h.allocate("eng", 1_000, Period::OneShot, false);
    h.consume("eng", 900);
    h.try_reset("eng").unwrap();
    assert_eq!(h.remaining("eng"), 1_000);
}

#[test]
fn frozen_budget_rejects_consume() {
    let mut h = setup();
    h.allocate("eng", 1_000, Period::OneShot, false);
    h.try_freeze("eng").unwrap();
    assert_eq!(h.try_consume("eng", 100), Err(Error::BudgetFrozen));
    h.try_unfreeze("eng").unwrap();
    assert_eq!(h.consume("eng", 100), 900);
}

#[test]
fn archived_budget_rejects_consume() {
    let mut h = setup();
    h.allocate("eng", 1_000, Period::OneShot, false);
    h.try_archive("eng").unwrap();
    assert_eq!(h.try_consume("eng", 100), Err(Error::BudgetArchived));
}

#[test]
fn daily_budget_auto_resets_after_window() {
    let mut h = setup();
    h.allocate("eng", 1_000, Period::Daily, false);
    h.consume("eng", 1_000);
    assert_eq!(h.try_consume("eng", 1), Err(Error::BudgetExceeded));
    h.now = 1_000 + 86_400;
    assert_eq!(h.remaining("eng"), 1_000);
    assert_eq!(h.consume("eng", 250), 750);
}

#[test]
fn rollover_carries_unspent_into_next_period() {
    let mut h = setup();
    h.allocate("eng", 1_000, Period::Weekly, true);
    h.consume("eng", 600);
    assert_eq!(h.remaining("eng"), 400);
    h.now = 1_000 + 604_800;
    assert_eq!(h.remaining("eng"), 1_400);
    let b = h.get("eng");
    assert_eq!(b.rollover_credit, 400);
    assert_eq!(b.spent, 0);
    assert_eq!(h.consume("eng", 1_400), 0);
}

#[test]
fn rollover_disabled_clears_unspent() {
    let mut h = setup();
    h.allocate("eng", 1_000, Period::Weekly, false);
    h.consume("eng", 600);
    h.now = 1_000 + 604_800;
    assert_eq!(h.remaining("eng"), 1_000);
    assert_eq!(h.get("eng").rollover_credit, 0);
}

#[test]
fn explicit_rollover_requires_owner() {
    let mut h = setup();
    h.allocate("eng", 1_000, Period::Weekly, true);
    h.consume("eng", 600);
    assert_eq!(h.try_rollover_as("GSTRANGER", "eng"), Err(Error::Unauthorized));
    h.now = 1_000 + 604_800;
    h.try_rollover("eng").unwrap();
    assert_eq!(h.remaining("eng"), 1_400);
}

#[test]
fn expired_budget_rejects_consume() {
    let mut h = setup();
    h.try_allocate("eng", 1_000, Period::OneShot, false, 10_000).unwrap();
    assert_eq!(h.consume("eng", 100), 900);
    h.now = 20_000;
    assert_eq!(h.try_consume("eng", 100), Err(Error::BudgetExpired));
    assert_eq!(h.remaining("eng"), 0);
}

#[test]
fn expired_budget_rejects_reset_and_set_limit() {
    let mut h = setup();
    h.try_allocate("eng", 1_000, Period::OneShot, false, 10_000).unwrap();
    h.now = 20_000;
    assert_eq!(h.try_reset("eng"), Err(Error::BudgetExpired));
    assert_eq!(h.try_set_limit("eng", 2_000), Err(Error::BudgetExpired));
}

#[test]
fn set_limit_below_spent_rejected() {
    let mut h = setup();
    h.allocate("eng", 1_000, Period::OneShot, false);
    h.consume("eng", 600);
    assert_eq!(h.try_set_limit("eng", 500), Err(Error::InvalidInput));
    h.try_set_limit("eng", 2_000).unwrap();
    assert_eq!(h.remaining("eng"), 1_400);
}

#[test]
fn transfer_allocation_moves_unspent_limit() {
    let mut h = setup();
    h.allocate("eng", 1_000, Period::OneShot, false);
    h.allocate("ops", 500, Period::OneShot, false);
    h.try_transfer("eng", "ops", 300).unwrap();
    assert_eq!(h.remaining("eng"), 700);
    assert_eq!(h.remaining("ops"), 800);
}

#[test]
fn transfer_allocation_over_available_fails() {
    let mut h = setup();
    h.allocate("eng", 1_000, Period::OneShot, false);
    h.allocate("ops", 500, Period::OneShot, false);
    h.consume("eng", 900);
    assert_eq!(h.try_transfer("eng", "ops", 200), Err(Error::BudgetExceeded));
}

#[test]
fn get_missing_budget_fails_not_found() {
    let h = setup();
    assert_eq!(h.c.get(&id("nope")).err(), Some(Error::NotFound));
}

#[test]
fn several_elapsed_periods_are_all_settled_at_once() {
    let mut h = setup();
    h.allocate("eng", 1_000, Period::Weekly, true);
    h.consume("eng", 600);
    h.now = 1_000 + 3 * WEEK;
    assert_eq!(h.remaining("eng"), 1_000 + 2_400);
    let b = h.get("eng");
    assert_eq!(b.rollover_credit, 2_400);
    assert_eq!(b.spent, 0);
    assert_eq!(b.window_start, 1_000 + 3 * WEEK);
}

#[test]
fn several_elapsed_periods_without_rollover_reset_once() {
    let mut h = setup();
    h.allocate("eng", 1_000, Period::Weekly, false);
    h.consume("eng", 600);
    h.now = 1_000 + 5 * WEEK;
    assert_eq!(h.remaining("eng"), 1_000);
    let b = h.get("eng");
    assert_eq!(b.rollover_credit, 0);
    assert_eq!(b.window_start, 1_000 + 5 * WEEK);
}

#[test]
fn windows_do_not_drift_when_transitions_land_mid_period() {
    let mut h = setup();
    h.allocate("eng", 1_000, Period::Daily, false);
    h.now = 1_000 + DAY + 100;
    assert_eq!(h.remaining("eng"), 1_000);
    assert_eq!(h.get("eng").window_start, 1_000 + DAY);
    h.now = 1_000 + 2 * DAY;
    h.consume("eng", 10);
    assert_eq!(h.get("eng").window_start, 1_000 + 2 * DAY);
}

#[test]
fn rollover_credit_is_clamped_to_its_cap() {
    let mut h = setup();
    h.allocate("eng", 1_000, Period::Weekly, true);
    h.try_set_recurrence("eng", Period::Weekly, 0, true, 1_500).unwrap();
    h.now = 1_000 + 10 * WEEK;
    assert_eq!(h.remaining("eng"), 1_000 + 1_500);
    assert_eq!(h.get("eng").rollover_credit, 1_500);
}

#[test]
fn custom_period_recurs_on_its_configured_interval() {
    let mut h = setup();
    h.allocate("agent", 1_000, Period::OneShot, false);
    h.try_set_recurrence("agent", Period::Custom, 3_600, false, 0).unwrap();
    let b = h.get("agent");
    assert_eq!(b.period, Period::Custom);
    assert_eq!(b.period_seconds, 3_600);
    h.consume("agent", 1_000);
    assert_eq!(h.remaining("agent"), 0);
    h.now = 1_000 + 3_599;
    assert_eq!(h.remaining("agent"), 0);
    h.now = 1_000 + 3_600;
    assert_eq!(h.remaining("agent"), 1_000);
}

#[test]
fn custom_period_requires_an_interval() {
    let mut h = setup();
    h.allocate("agent", 1_000, Period::OneShot, false);
    assert_eq!(h.try_set_recurrence("agent", Period::Custom, 0, false, 0), Err(Error::InvalidInput));
    assert_eq!(h.try_set_recurrence("agent", Period::Daily, 0, true, -1), Err(Error::InvalidAmount));
}

#[test]
fn set_recurrence_settles_the_old_policy_before_switching() {
    let mut h = setup();
    h.allocate("eng", 1_000, Period::Daily, true);
    h.consume("eng", 400);
    h.now = 1_000 + DAY;
    h.try_set_recurrence("eng", Period::Weekly, 0, true, 0).unwrap();
    let b = h.get("eng");
    assert_eq!(b.period, Period::Weekly);
    assert_eq!(b.spent, 0);
    assert_eq!(b.rollover_credit, 600);
    assert_eq!(b.window_start, 1_000 + DAY);
}

#[test]
fn set_recurrence_requires_the_owner() {
    let mut h = setup();
    h.allocate("eng", 1_000, Period::Daily, false);
    assert_eq!(h.try_set_recurrence_as("GSTRANGER", "eng", Period::Weekly, 0, false, 0), Err(Error::Unauthorized));
}

#[test]
fn disabling_rollover_drops_accrued_credit() {
    let mut h = setup();
    h.allocate("eng", 1_000, Period::Weekly, true);
    h.consume("eng", 200);
    h.now = 1_000 + WEEK;
    assert_eq!(h.remaining("eng"), 1_800);
    h.try_set_recurrence("eng", Period::Weekly, 0, false, 0).unwrap();
    assert_eq!(h.get("eng").rollover_credit, 0);
    assert_eq!(h.remaining("eng"), 1_000);
}

#[test]
fn consume_across_a_boundary_spends_the_replenished_allowance() {
    let mut h = setup();
    h.allocate("eng", 1_000, Period::Daily, false);
    h.consume("eng", 900);
    assert_eq!(h.try_consume("eng", 200), Err(Error::BudgetExceeded));
    h.now = 1_000 + DAY;
    assert_eq!(h.consume("eng", 200), 800);
}

#[test]
fn rollover_and_reset_events_are_emitted() {
    let mut h = setup();
    h.allocate("eng", 1_000, Period::Weekly, true);
    h.consume("eng", 600);
    h.now = 1_000 + WEEK;
    let t = h.c.pending_transition(h.now, &id("eng")).unwrap();
    assert!(t.is_some());
    h.consume("eng", 1);
    assert_eq!(h.get("eng").rollover_credit, 400);
}

#[test]
fn per_asset_limit_replenishes_on_its_own_window() {
    let mut h = setup();
    h.allocate("eng", 10_000, Period::OneShot, false);
    h.try_set_budget_limit("eng", "CTOKEN", 100, 3_600).unwrap();
    h.try_spend("eng", "CTOKEN", 80).unwrap();
    assert_eq!(h.asset_remaining("eng", "CTOKEN"), 20);
    assert_eq!(h.try_spend("eng", "CTOKEN", 30), Err(Error::BudgetExceeded));
    h.now = 1_000 + 3_600;
    assert_eq!(h.asset_remaining("eng", "CTOKEN"), 100);
    h.try_spend("eng", "CTOKEN", 100).unwrap();
    assert_eq!(h.asset_remaining("eng", "CTOKEN"), 0);
    let b = h.c.get_asset_budget(h.now, &id("eng"), &id("CTOKEN")).unwrap();
    assert_eq!(b.window_start, 1_000 + 3_600);
    assert_eq!(b.window_seconds, 3_600);
}

#[test]
fn per_asset_limit_without_a_window_never_resets() {
    let mut h = setup();
    h.allocate("eng", 10_000, Period::OneShot, false);
    h.try_set_budget_limit("eng", "CTOKEN", 100, 0).unwrap();
    h.try_spend("eng", "CTOKEN", 100).unwrap();
    h.now = 1_000 + 10 * DAY;
    assert_eq!(h.asset_remaining("eng", "CTOKEN"), 0);
    assert_eq!(h.try_spend("eng", "CTOKEN", 1), Err(Error::BudgetExceeded));
}

#[test]
fn per_asset_window_catches_up_across_many_periods() {
    let mut h = setup();
    h.allocate("eng", 10_000, Period::OneShot, false);
    h.try_set_budget_limit("eng", "CTOKEN", 100, 3_600).unwrap();
    h.try_spend("eng", "CTOKEN", 100).unwrap();
    h.now = 1_000 + 5 * 3_600;
    assert_eq!(h.asset_remaining("eng", "CTOKEN"), 100);
    let b = h.c.get_asset_budget(h.now, &id("eng"), &id("CTOKEN")).unwrap();
    assert_eq!(b.window_start, 1_000 + 5 * 3_600);
}

#[test]
fn unknown_asset_budget_is_rejected() {
    let mut h = setup();
    h.allocate("eng", 10_000, Period::OneShot, false);
    assert_eq!(h.try_asset_remaining("eng", "CTOKEN"), Err(Error::AssetNotAuthorized));
}

#[test]
fn test_rollover_prevention() {
    let mut c = BudgetContract::new();
    let owner = "GOWNER".to_string();
    let token = "CTOKEN".to_string();
    let b_id = "b1".to_string();
    c.allocate(0, &owner, &b_id, 1000, Period::OneShot, false, 0).unwrap();
    c.set_budget_limit(0, &owner, &b_id, &token, 100, 3600).unwrap();
    c.check_and_record_spend(100, &owner, &b_id, &token, 60).unwrap();
    assert_eq!(c.check_and_record_spend(100, &owner, &b_id, &token, 50), Err(Error::BudgetExceeded));
    c.check_and_record_spend(100 + 3600 + 1, &owner, &b_id, &token, 50).unwrap();
}

#[test]
fn deficit_carryforward_allows_overspend() {
    let mut h = setup();
    h.try_allocate_with_deficit("eng", 1_000, Period::Weekly, true, true).unwrap();
    assert_eq!(h.consume("eng", 1_200), -200);
    let b = h.get("eng");
    assert!(b.allow_deficit);
    assert_eq!(b.spent, 1_200);
}

#[test]
fn deficit_carryforward_reduces_next_period() {
    let mut h = setup();
    h.try_allocate_with_deficit("eng", 1_000, Period::Weekly, true, true).unwrap();
    h.consume("eng", 1_200);
    h.now = 1_000 + 604_800;
    h.try_rollover("eng").unwrap();
    let b = h.get("eng");
    assert_eq!(b.window_start, 1_000 + 604_800);
    assert_eq!(b.deficit_amount, 200);
    assert_eq!(b.spent, 0);
    assert_eq!(h.remaining("eng"), 800);
    assert_eq!(h.consume("eng", 800), 0);
    assert_eq!(h.try_consume("eng", 1), Err(Error::BudgetExceeded));
}

#[test]
fn deficit_not_allowed_rejects_overspend() {
    let mut h = setup();
    h.allocate("eng", 1_000, Period::Weekly, true);
    assert_eq!(h.try_consume("eng", 1_200), Err(Error::BudgetExceeded));
}

#[test]
fn deficit_without_period_rejected() {
    let mut h = setup();
    assert_eq!(h.try_allocate_with_deficit("eng", 1_000, Period::OneShot, false, true), Err(Error::InvalidInput));
}

#[test]
fn deficit_surplus_rollover_combined() {
    let mut h = setup();
    h.try_allocate_with_deficit("eng", 1_000, Period::Weekly, true, true).unwrap();
    h.consume("eng", 600);
    h.now = 1_000 + 604_800;
    assert_eq!(h.remaining("eng"), 1_400);
    let b = h.get("eng");
    assert_eq!(b.deficit_amount, 0);
    assert_eq!(b.rollover_credit, 400);
    assert_eq!(b.spent, 0);
}

#[test]
fn allocate_accepts_maximum_limit() {
    let mut h = setup();
    h.allocate("eng", i128::MAX, Period::OneShot, false);
    assert_eq!(h.get("eng").limit, i128::MAX);
    assert_eq!(h.remaining("eng"), i128::MAX);
}

#[test]
fn consume_up_to_max_capacity_succeeds() {
    let mut h = setup();
    h.allocate("eng", i128::MAX, Period::OneShot, false);
    assert_eq!(h.consume("eng", i128::MAX), 0);
}

#[test]
fn consume_beyond_max_capacity_returns_overflow() {
    let mut h = setup();
    h.allocate("eng", i128::MAX, Period::OneShot, false);
    h.consume("eng", i128::MAX);
    assert_eq!(h.try_consume("eng", 1), Err(Error::Overflow));
}

#[test]
fn release_refunds_the_full_maximum_spend() {
    let mut h = setup();
    h.allocate("eng", i128::MAX, Period::OneShot, false);
    h.consume("eng", i128::MAX);
    assert_eq!(h.try_release("eng", i128::MAX), Ok(i128::MAX));
}

#[test]
fn uncapped_rollover_accrual_past_max_returns_overflow() {
    let mut h = setup();
    let limit = i128::MAX / 2;
    h.allocate("eng", limit, Period::Weekly, true);
    h.now = 1_000 + 3 * WEEK;
    assert_eq!(h.try_rollover("eng"), Err(Error::Overflow));
}

#[test]
fn capped_rollover_accrual_saturates_instead_of_overflowing() {
    let mut h = setup();
    let limit = i128::MAX / 2;
    h.allocate("eng", limit, Period::Weekly, true);
    h.try_set_recurrence("eng", Period::Weekly, 0, true, limit).unwrap();
    h.now = 1_000 + 3 * WEEK;
    h.try_rollover("eng").unwrap();
    assert_eq!(h.get("eng").rollover_credit, limit);
    assert_eq!(h.remaining("eng"), 2 * limit);
}

#[test]
fn rollover_accrual_of_second_idle_period_overflows() {
    let mut h = setup();
    let limit = i128::MAX - 5;
    h.allocate("eng", limit, Period::Weekly, true);
    h.now = 1_000 + 2 * WEEK;
    assert_eq!(h.try_rollover("eng"), Err(Error::Overflow));
}

#[test]
fn remaining_with_max_limit_and_credit_returns_overflow() {
    let mut h = setup();
    h.allocate("eng", i128::MAX, Period::Weekly, true);
    h.consume("eng", 10);
    h.now = 1_000 + WEEK;
    h.try_rollover("eng").unwrap();
    assert_eq!(h.try_remaining("eng"), Err(Error::Overflow));
}

#[test]
fn deficit_remaining_near_max_stays_negative_and_checked() {
    let mut h = setup();
    let limit = i128::MAX - 1_000;
    h.try_allocate_with_deficit("eng", limit, Period::Weekly, true, true).unwrap();
    assert_eq!(h.consume("eng", i128::MAX), -1_000);
    h.now = 1_000 + WEEK;
    h.try_rollover("eng").unwrap();
    let b = h.get("eng");
    assert_eq!(b.deficit_amount, 1_000);
    assert_eq!(b.spent, 0);
    assert_eq!(h.remaining("eng"), i128::MAX - 2_000);
}

#[test]
fn transfer_allocation_past_max_returns_overflow() {
    let mut h = setup();
    h.allocate("src", i128::MAX - 10, Period::OneShot, false);
    h.allocate("dst", i128::MAX - 10, Period::OneShot, false);
    h.try_transfer("src", "dst", 10).unwrap();
    assert_eq!(h.remaining("dst"), i128::MAX);
    assert_eq!(h.try_transfer("src", "dst", 20), Err(Error::Overflow));
    assert_eq!(h.remaining("dst"), i128::MAX);
    assert_eq!(h.remaining("src"), i128::MAX - 20);
}

#[test]
fn per_asset_spend_past_max_returns_overflow() {
    let mut h = setup();
    h.allocate("eng", 10_000, Period::OneShot, false);
    h.try_set_budget_limit("eng", "CTOKEN", i128::MAX, 0).unwrap();
    h.try_spend("eng", "CTOKEN", i128::MAX).unwrap();
    assert_eq!(h.try_spend("eng", "CTOKEN", 1), Err(Error::Overflow));
    assert_eq!(h.asset_remaining("eng", "CTOKEN"), 0);
}

#[test]
fn unknown_budget_ids_are_not_found() {
    let mut h = setup();
    assert_eq!(h.c.get(&id("ghost")).err(), Some(Error::NotFound));
    assert_eq!(h.try_remaining("ghost"), Err(Error::NotFound));
    assert_eq!(h.try_reset("ghost"), Err(Error::NotFound));
    assert_eq!(h.try_spend("ghost", "CTOKEN", 1), Err(Error::NotFound));
}

#[test]
fn empty_budget_id_is_invalid_input() {
    let mut h = setup();
    assert_eq!(h.try_allocate("", 100, Period::OneShot, false, 0), Err(Error::InvalidInput));
}

#[test]
fn negative_limits_are_invalid_amounts() {
    let mut h = setup();
    assert_eq!(h.try_allocate("eng", -1, Period::OneShot, false, 0), Err(Error::InvalidAmount));
    let b = h.budget("ops", 100);
    assert_eq!(h.try_set_budget_limit(&b, "CTOKEN", -1, 0), Err(Error::InvalidAmount));
}

#[test]
fn deficit_without_a_recurring_period_is_invalid_input() {
    let mut h = setup();
    assert_eq!(h.try_allocate_with_deficit("eng", 1_000, Period::OneShot, false, true), Err(Error::InvalidInput));
}

#[test]
fn duplicate_allocation_is_already_exists() {
    let mut h = setup();
    let b = h.budget("eng", 100);
    assert_eq!(h.try_allocate(&b, 999, Period::OneShot, false, 0), Err(Error::AlreadyExists));
    assert_eq!(h.get(&b).limit, 100);
}

#[test]
fn spend_on_an_unauthorized_asset_is_not_authorized() {
    let mut h = setup();
    let b = h.budget("eng", 1_000);
    h.try_set_budget_limit(&b, "CAPPROVED", 1_000, 0).unwrap();
    assert_eq!(h.try_spend(&b, "CSTRANGER", 1), Err(Error::AssetNotAuthorized));
    assert_eq!(h.remaining(&b), 1_000);
}

#[test]
fn exhausted_envelope_reports_budget_exceeded() {
    let mut h = setup();
    let b = h.budget("eng", 1_000);
    h.try_set_budget_limit(&b, "CTOKEN", 1_000, 0).unwrap();
    h.try_spend(&b, "CTOKEN", 1_000).unwrap();
    assert_eq!(h.try_spend(&b, "CTOKEN", 1), Err(Error::BudgetExceeded));
    assert_eq!(h.asset_remaining(&b, "CTOKEN"), 0);
    h.try_set_budget_limit(&b, "COTHER", 100, 0).unwrap();
    assert_eq!(h.asset_remaining(&b, "COTHER"), 100);
}

#[test]
fn frozen_archived_and_lapsed_envelopes_have_distinct_codes() {
    let mut h = setup();
    let frozen = h.budget("frozen", 1_000);
    h.try_set_budget_limit(&frozen, "CTOKEN", 1_000, 0).unwrap();
    h.try_freeze(&frozen).unwrap();
    assert_eq!(h.try_spend(&frozen, "CTOKEN", 1), Err(Error::BudgetFrozen));
    h.try_unfreeze(&frozen).unwrap();
    assert_eq!(h.try_unfreeze(&frozen), Err(Error::InvalidState));
    let archived = h.budget("archived", 1_000);
    h.try_set_budget_limit(&archived, "CTOKEN", 1_000, 0).unwrap();
    h.try_freeze(&archived).unwrap();
    h.try_archive(&archived).unwrap();
    assert_eq!(h.try_spend(&archived, "CTOKEN", 1), Err(Error::BudgetArchived));
    assert_eq!(h.try_freeze(&archived), Err(Error::BudgetArchived));
    h.try_allocate("lapsed", 1_000, Period::OneShot, false, 1_500).unwrap();
    h.now = 2_000;
    assert_eq!(h.try_reset("lapsed"), Err(Error::BudgetExpired));
    assert_eq!(h.get("lapsed").spent, 0);
}

#[test]
fn spending_someone_elses_budget_is_unauthorized() {
    let mut h = setup();
    let b = h.budget("eng", 1_000);
    h.try_set_budget_limit(&b, "CTOKEN", 1_000, 0).unwrap();
    assert_eq!(h.try_spend_as("GSTRANGER", &b, "CTOKEN", 1), Err(Error::Unauthorized));
    assert_eq!(h.try_set_budget_limit_as("GSTRANGER", &b, "CTOKEN", 1, 0), Err(Error::Unauthorized));
    let dest = h.budget("dest", 100);
    assert_eq!(h.try_transfer_as("GSTRANGER", &b, &dest, 1), Err(Error::Unauthorized));
    assert_eq!(h.try_transfer(&b, &b, 1), Err(Error::InvalidInput));
    assert_eq!(h.remaining(&b), 1_000);
}

// ---- further cases ----

#[test]
fn apply_cap_clamps_only_positive_caps() {
    assert_eq!(BudgetContract::apply_cap(500, 0), 500);
    assert_eq!(BudgetContract::apply_cap(500, 200), 200);
    assert_eq!(BudgetContract::apply_cap(100, 200), 100);
}

#[test]
fn initialize_only_once() {
    let mut c = BudgetContract::new();
    assert_eq!(c.initialize(&"GA".to_string()), Ok(()));
    assert_eq!(c.initialize(&"GB".to_string()), Err(Error::AlreadyInitialized));
}

#[test]
fn percentage_rollover_cap_bounds_credit() {
    let mut h = setup();
    h.allocate("eng", 1_000, Period::Weekly, true);
    h.c.set_recurrence(h.now, &h.owner.clone(), &id("eng"), Period::Weekly, 0, true, 0, 2_500).unwrap();
    h.now = 1_000 + 4 * WEEK;
    assert_eq!(h.remaining("eng"), 1_250);
    assert_eq!(h.c.set_recurrence(h.now, &h.owner.clone(), &id("eng"), Period::Weekly, 0, true, 0, 10_000), Err(Error::InvalidInput));
}

#[test]
fn transfer_allocation_conserves_the_total_limit() {
    let mut h = setup();
    h.allocate("eng", 1_000, Period::Daily, false);
    h.allocate("ops", 500, Period::Weekly, true);
    h.consume("eng", 400);
    h.try_transfer("eng", "ops", 600).unwrap();
    let eng = h.get("eng");
    let ops = h.get("ops");
    assert_eq!(eng.limit + ops.limit, 1_500);
    assert_eq!(eng.limit, 400);
    assert_eq!(eng.spent, 400);
    assert_eq!(ops.limit, 1_100);
    assert_eq!(ops.spent, 0);
}

#[test]
fn release_after_consume_restores_the_spend() {
    let mut h = setup();
    h.allocate("eng", 1_000, Period::Daily, false);
    h.consume("eng", 300);
    h.now += DAY + 5;
    let before = h.remaining("eng");
    let rem = h.consume("eng", 250);
    assert_eq!(h.try_release("eng", 250), Ok(rem + 250));
    assert_eq!(h.get("eng").spent, 0);
    assert_eq!(h.remaining("eng"), before);
}
