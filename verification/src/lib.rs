//! Lockstep comparison of two delimited text files, row by row and cell by
//! cell, with a bounded, categorised summary of what differs.

pub mod align;
pub mod category;
pub mod laws;
pub mod problem;
pub mod problems;
pub mod summary;
pub mod text;
