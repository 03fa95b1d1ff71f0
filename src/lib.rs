//! A cyclic scheduler of appearance modes: a day is split by time-stamped
//! turns, each of which switches to a mode once its time of day is reached.

pub mod turn;
pub mod schedule;
pub mod cursor;
pub mod report;
