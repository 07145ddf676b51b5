//! Staking of digital assets: what a claim of rewards and an unstaking decide.
//!
//! An asset carries its staking record in its attributes. The instructions in [`instructions`]
//! read that record from the accounts that they are given, and name the calls to make one after
//! the other. What holds of them together is stated in [`laws`].

pub mod accounts;
pub mod action;
pub mod address;
pub mod attributes;
pub mod decimal;
pub mod error;
pub mod instructions;
pub mod laws;
pub mod plugins;
pub mod record;
pub mod state;
pub mod utils;
