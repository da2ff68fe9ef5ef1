//! A verified prepaid subscription vault.
pub mod accounts;
pub mod admin;
pub mod agreement_laws;
pub mod batch;
pub mod batch_laws;
pub mod billing;
pub mod book_laws;
pub mod buyout;
pub mod charge_core;
pub mod charge_laws;
pub mod charging;
pub mod crypto;
pub mod deposits;
pub mod dispute_laws;
pub mod dispute_matrix;
pub mod disputes;
pub mod encoding;
pub mod events;
pub mod funding_laws;
pub mod governance;
pub mod governance_laws;
pub mod guarantees;
pub mod idempotency;
pub mod laws;
pub mod lifecycle;
pub mod malicious_token;
pub mod measures;
pub mod merchant_laws;
pub mod merchants;
pub mod metadata;
pub mod multi_token;
pub mod mutation_calls;
pub mod nonce;
pub mod oracle_adapter;
pub mod order_laws;
pub mod payments;
pub mod reconciliation;
pub mod records;
pub mod safe_math;
pub mod scenario_laws;
pub mod scenarios;
pub mod settings_laws;
pub mod snapshots;
pub mod statements;
pub mod subscriptions;
pub mod table;
pub mod token;
pub mod totals;
pub mod types;
pub mod value_laws;
pub mod vault;
