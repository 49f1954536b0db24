//! Pace arithmetic for runners: a distance and a time, each read from free
//! text, become exact fixed-point quantities from which the average speed and
//! the time for other distances are derived and rendered.
//!
//! Every quantity is a whole number of a small base unit, so that conversion
//! between units is integer arithmetic with a stated direction of rounding
//! (towards zero).

pub mod text;
pub mod quantity;
pub mod scan;
pub mod parse;
pub mod run;
pub mod render;
pub mod round_trip;
