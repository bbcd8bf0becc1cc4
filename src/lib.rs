//! Issuance schedule of an ordinally indexed supply: epochs, their boundaries
//! in heights and in ordinals, and the subsidy of each epoch.

pub mod epoch;
pub mod schedule;
