//! Yet Another CTA Transit Tracker: the logic of an arrival sign.
//!
//! The library normalizes bus-tracker responses into arrival records, orders
//! them by countdown, lays out the rows of the LED sign, and decides each step
//! of the polling-and-rendering cycle. Network, hardware and timing stay with
//! the program that runs it.

pub mod color;
pub mod countdown;
pub mod laws;
pub mod layout;
pub mod outcome;
pub mod record;
pub mod scheduler;
pub mod splash;
