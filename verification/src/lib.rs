//! A habit tracker: a list of named habits, each with a fixed 20-day record of
//! completion flags, driven by a small event reducer and persisted as JSON text.

use vstd::prelude::*;

pub mod decode;
pub mod encode;
pub mod json;
pub mod roundtrip;
pub mod state;
pub mod text;

pub use state::Habit;
pub use state::HabitTracker;
pub use state::Message;

verus! {

/// Number of days tracked for each habit.
pub const DAY_COUNT: usize = 20;

} // verus!
