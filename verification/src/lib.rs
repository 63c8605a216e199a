//! Scheduling core of a fixed-step gravitational N-body integrator.
//!
//! The bodies of a run are numbered: test particles `0..tests`, massive
//! bodies `0..massives`. This crate decides, over those numbers alone, which
//! pairs interact in a step, in which order a step touches the bodies, what
//! an interaction adds to which accumulator, scaled by whose mass and with
//! which sign, which actions leave an accumulator cleared, when a run takes
//! a step and when it writes a snapshot, and which columns a snapshot has.
//! It also guards each body's acceleration accumulator against conflicting
//! access. The arithmetic on positions and velocities is done by the caller,
//! who carries out the actions listed here.

pub mod access;
pub mod action;
pub mod body;
pub mod limits;
pub mod pairs;
pub mod run;
pub mod snapshot;
pub mod step;

pub use access::{Access, AccessConflict};
pub use action::{contributions, Action, Contribution};
pub use body::Body;
pub use limits::LIST_LIMIT;
pub use pairs::{massive_pairs, ordered_pair_count, test_massive_pairs, unordered_pair_count};
pub use run::{Run, Tick};
pub use snapshot::{snapshot_columns, Column, Field};
pub use step::{step_count, step_plan};
