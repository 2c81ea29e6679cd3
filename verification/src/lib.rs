//! Bookkeeping for a pool of conversion workers: a first-in first-out queue of
//! jobs, workers that claim them one at a time, single-use replies, and a
//! counter of the conversions in flight.

pub mod job;
pub mod laws;
pub mod census;
pub mod model;
pub mod payload;
pub mod preservation;
pub mod queue;
pub mod trace;
pub mod worker;
