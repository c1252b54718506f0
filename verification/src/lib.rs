//! The flags cache of a mail synchronizer, and the decisions around it.
//!
//! [`manager::EnvelopeFlagsManager`] caches the hash of every message's flags by account,
//! mailbox and uid. [`modify`] and [`update`] decide, step by step, how a change of flags goes
//! through the mail stores into the cache, [`sweep`] in which order the stores are cleaned.
//! [`tick`], [`watchdog`] and [`tasks`] hold what the periodic account sync decides, and
//! [`pool`] what is decided about pooled IMAP connections. Whoever drives these does the input
//! and output, and hands back what came of it.
pub mod account;
pub mod cache_laws;
pub mod envelope;
pub mod error;
pub mod flags;
pub mod laws;
pub mod manager;
pub mod modify;
pub mod pool;
pub mod state;
pub mod store;
pub mod sweep;
pub mod tasks;
pub mod text;
pub mod tick;
pub mod uid_map;
pub mod update;
pub mod watchdog;
