//! The pure core of a workflow run engine: command permissions, the
//! scheduler's decision function, log replay and the documents the engine
//! renders from it.

use vstd::prelude::*;

pub mod permissions;
pub mod text;
pub mod workflow;
pub mod modes;
pub mod ledger;
pub mod events;
pub mod replay;
pub mod schedule;
pub mod paths;
pub mod process;
pub mod supervise;
pub mod registry;
pub mod close;
pub mod reopen;
pub mod session;
pub mod manifest;
pub mod expansion;
pub mod tally;
pub mod parallel;
pub mod runner;
pub mod fanout;
pub mod pack_requires;
pub mod reserved;
pub mod escalation;
pub mod budget;
pub mod receipt;
pub mod render;
pub mod pack_audit;
pub mod diagnostic;
pub mod repair;
pub mod questions;
pub mod lines;
pub mod progress;
pub mod context;
pub mod tasks;
pub mod findings;
pub mod gates;
pub mod template;
pub mod distill;
pub mod verdict;
pub mod prompt;

verus! {

} // verus!
