//! Numeric core of an Augmented Dickey-Fuller (ADF) stationarity test
//! interpreter.
//!
//! Given an already-computed ADF test statistic and a sample size, the
//! library looks up an approximate p-value in a sorted table by binary
//! search and linear interpolation, selects the critical values for the
//! nearest available sample size, and classifies the series as stationary
//! or not.
//!
//! All statistics and p-values are fixed-point numbers stored in
//! millionths of a unit ("micros"), so a p-value of 1.0 is represented as
//! 1_000_000. The host that supplies the tables converts to and from this
//! representation at the boundary.

pub mod decision;
pub mod interp;
pub mod monotone;
pub mod table;
