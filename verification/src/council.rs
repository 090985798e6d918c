//! The council: its election, and the motion by which it tables a
//! referendum.

pub mod election;
pub mod motion;

pub use crate::council::election::populate_council;
pub use crate::council::election::vacate_seats;
pub use crate::council::motion::external_majority_workflow;
