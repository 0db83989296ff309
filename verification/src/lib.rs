//! A line-oriented log file indexer: config-driven field extraction from
//! JSON lines into an embedded relational store with full-text search, a
//! byte-offset index for random access into large files, and a background
//! load state machine.

use vstd::prelude::*;

pub mod config;
pub mod db;
pub mod engine;
pub mod job;
pub mod json;
pub mod offsets;
pub mod parser;
pub mod text;

verus! {

/// Returns a friendly greeting for `name`.
pub fn greet(name: String) -> (r: String)
    ensures
        r@ == "Hello, "@ + name@ + "!"@,
{
    let s = String::from_str("Hello, ");
    let s = s.concat(name.as_str());
    let s = s.concat("!");
    s
}

} // verus!
