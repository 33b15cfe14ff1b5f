//! Height attestation: accounts register a self-reported height once, other
//! accounts cast one weighted vote each on whether it is believable, and the
//! running tally is mapped to a confidence level.

pub mod contract;
pub mod tally;

pub use crate::contract::{AccountId, Contract, ContractError};
pub use crate::tally::{weight, Confidence, VoteChoice, Votes};
