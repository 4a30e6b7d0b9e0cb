//! What the tools around the codec share: points in time, the envelope of
//! an answer, and the pace of a worker.

pub mod chrono;
pub mod status;
pub mod worker;
