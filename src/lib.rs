//! Shell-history recorder: tails a history file, filters and classifies each
//! new line, and keeps the accepted lines in an event store, while a small
//! state machine governs the single background daemon.
use vstd::prelude::*;

pub mod ai;
pub mod cli;
pub mod clock;
pub mod daemon;
pub mod db;
pub mod dedup;
pub mod integration;
pub mod tail;
pub mod text;
pub mod watcher;

verus! {

/// The library's version.
pub fn version() -> (r: &'static str)
    ensures
        r@ == "0.1.0"@,
{
    "0.1.0"
}

/// The library's name.
pub fn name() -> (r: &'static str)
    ensures
        r@ == "remindr"@,
{
    "remindr"
}

/// Sets up the core: a store whose schema is complete, with no events and
/// the liveness flag clear.
pub fn init() -> (r: db::EventStore)
    ensures
        r.wf(),
        r@.events.len() == 0,
        !r@.active,
        r@.schema.events_table && r@.schema.status_row && r@.schema.version == db::SCHEMA_VERSION,
{
    db::init_database()
}

} // verus!
