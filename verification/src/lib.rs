//! Core of a clipboard-history pipeline: a poller samples the system
//! clipboard, a dedup guard suppresses repeated samples, a bounded relay
//! hands distinct changes to a persistence worker, which classifies each
//! change, deduplicates it again against the last stored row, and appends
//! it to an ordered history log while the UI is notified of every change.
//!
//! The operating-system clipboard, the SQLite file behind the history log,
//! and the UI event sink are external collaborators; the decision logic
//! around them lives here, verified.

use vstd::prelude::*;

pub mod classify;
pub mod dedup;
pub mod relay;
pub mod storage;
pub mod pipeline;
pub mod textscan;
pub mod jsonops;

verus! {

/// Greeting used by the UI front end.
pub fn greet(name: &str) -> (r: String)
    ensures
        r@ == "Hello, "@ + name@ + "! You've been greeted from Rust!"@,
{
    let mut r = String::from_str("Hello, ");
    r.append(name);
    r.append("! You've been greeted from Rust!");
    r
}

} // verus!
