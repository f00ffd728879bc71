//! Cross-shard transaction execution for a sharded ledger.
//!
//! - `acc_shard`: which shard owns an address (hash or preloaded table).
//! - `account_store`, `state_store`: accounts by address, in one tier or as
//!   an active tier over the full set, and their hand-over at epoch boundaries.
//! - `state_transition`: balance-checked, all-or-nothing execution of a frame.
//! - `messages`, `convert_tx`: transactions, their digests, and how a transfer
//!   is cut into per-shard frames.
//! - `csmsg_store`, `cs_msg_verifier`, `cs_msg_sender`: the status book of
//!   cross-shard messages, signature quorums, who sends and who appends.
//! - `executor`: running ordered blocks and deciding commit, relay or abort.
//! - `broker`: two-leg transfers through a broker account.
//! - `batch_maker`, `batch_fetcher`: sealing batches and fetching missing ones.
//! - `config`: parameters and committee thresholds.

pub mod bytes;
pub mod account_store;
pub mod messages;
pub mod state_transition;
pub mod primitives;
pub mod acc_shard;
pub mod csmsg_store;
pub mod cs_msg_verifier;
pub mod executor;
pub mod broker;
pub mod convert_tx;
pub mod state_store;
pub mod config;
pub mod batch_fetcher;
pub mod cs_msg_sender;
pub mod batch_maker;
