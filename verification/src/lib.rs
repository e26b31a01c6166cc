//! Reading polygon scripts.
//!
//! A polygon is written either as a flat command (`POLY 0,0 4,0 2,1`) or as a
//! script of marked lines (`a 0.0 0.0`, `r 4.0 0.0`, ...). This crate turns
//! such text into an ordered list of steps whose coordinates are validated
//! decimal literals, and states the rules by which a vertex list is admitted
//! as a polygon. Turning literals into machine numbers, and the arithmetic on
//! them, are left to the caller.

pub mod error;
pub mod scan;
pub mod decimal;
pub mod point;
pub mod flat;
pub mod line;
pub mod script;
pub mod source;
pub mod polygon;
