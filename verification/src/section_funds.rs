//! The section's funds: what it pays out as rewards, and to whom.

pub mod payouts;
pub mod reward_calc;
pub mod reward_laws;
