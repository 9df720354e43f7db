//! Shaping of complex scripts.

pub mod arabic;
