//! Verified core of the Astroid on-chain financial governance suite:
//! budgets with recurring allowances, escrows with vesting and milestone
//! release, proposals with quorum / majority / dependency gates, transfer
//! policies with composable rule trees, and a weighted multisignature.
pub mod shared;
pub mod table;
pub mod budget;
pub mod budget_laws;
pub mod escrow;
pub mod escrow_laws;
pub mod proposal;
pub mod proposal_laws;
pub mod policy;
pub mod policy_rules;
pub mod policy_laws;
pub mod multisig;
pub mod multisig_laws;
