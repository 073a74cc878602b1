//! Human-readable sizes for byte counts, in binary (1024-based) units.
//!
//! Two numeric domains share the unit model: `bounded` works on `i64` and stops
//! at EiB, `unbounded` works on arbitrary-precision non-negative integers and
//! goes up to YiB.

pub mod bounded;
pub mod decimal;
pub mod error;
pub mod input;
pub mod laws;
pub mod unbounded;
pub mod unit;
