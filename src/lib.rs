//! Task registry and ready-to-run queue behind an unordered set of pending
//! units of work, kept in an arena of address-stable slots.

pub mod futures_unordered;
pub mod futures_unordered_internal;
pub mod internal_iter;
pub mod mapped_futures;
pub mod ready_to_run_queue;
pub mod release;
pub mod task;
