//! What the elders of a section do.

pub mod rewards;
