//! Verified core of a load-testing engine: scenario steps, per-user sessions,
//! user-injection schedules, data feeders, protocol messages and statistics.
use vstd::prelude::*;

pub mod text;
pub mod string_map;
pub mod clock;
pub mod session;
pub mod scenario;
pub mod pattern;
pub mod action;
pub mod vu;
pub mod runner;
pub mod protocols;
pub mod dashboard;
pub mod segments;
pub mod reporters;
pub mod live;
pub mod injector;
pub mod feeders;
pub mod json_feed;
pub mod stats;

verus! {
} // verus!
