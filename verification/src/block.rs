//! Rules on whole blocks.

pub mod sorted;
pub mod weight;
