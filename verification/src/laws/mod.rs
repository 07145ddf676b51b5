//! What holds of the library as a whole.

pub mod access;
pub mod attribute_lists;
pub mod claim_steps;
pub mod claiming;
pub mod histories;
pub mod payments;
pub mod reading;
pub mod times;
pub mod unstake_steps;
pub mod unstaking;
pub mod vocabulary;
