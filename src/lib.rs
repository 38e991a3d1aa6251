//! Linear tolerance stack-up analysis in fixed-point arithmetic.
//!
//! Every length, tolerance, sensitivity and probability is an `i64` counting
//! millionths of a unit (see [`fixed::SCALE`]). Quotients and square roots
//! are rounded down to the next millionth.
pub mod calc;
pub mod dim;
pub mod dist;
pub mod fixed;
pub mod stats;
pub mod tol;
