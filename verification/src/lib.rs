//! Core logic of a resumable, multi-connection file downloader.
//!
//! The library plans a download as contiguous byte ranges ([`part::Part`]),
//! recomputes ranges when partially written segments are resumed, decides
//! when a stale on-disk plan must be discarded, and models the final merge
//! of segments into one output. All I/O (HTTP transfers, files, prompts)
//! lives outside the library; it hands the functions here plain values and
//! acts on their decisions.

pub mod fetch;
pub mod ledger;
pub mod merge;
pub mod part;
pub mod plan;
pub mod scheduler;
pub mod session;
pub mod text;
