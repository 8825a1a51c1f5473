//! The structure of a multi-tap delay-line reverb: tap schedules, resizable
//! circular delay units and a stereo stack of them that follows structural
//! settings. Sample values are of any `Copy` type; the arithmetic on them is
//! handed in as closures, and the contracts say what was handed to which.

pub mod reverb;
pub mod schedule;
pub mod stack;
pub mod tapdelayline;
