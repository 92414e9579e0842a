//! Lunch voting: each voter picks one restaurant, later picks replace earlier
//! ones, and the current votes are grouped into a tally on demand.

pub mod vote;
pub mod store;
pub mod tally;
pub mod laws;
