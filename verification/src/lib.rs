//! A line-oriented text concatenation library: assembles lines from raw
//! source texts and applies display transformations (line numbering,
//! end-of-line markers, tab visualization, blank-line squeezing) in a
//! fixed order.

pub mod cli;
pub mod commands;
pub mod laws;
pub mod text;
