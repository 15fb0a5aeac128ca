//! Weighting-factor completion and energy-carrier balancing for building
//! energy-performance assessments.

pub mod balance;
pub mod components;
pub mod cte;
pub mod decimal;
pub mod decimal_laws;
pub mod distinct;
pub mod error;
pub mod fixed;
pub mod meta;
pub mod records;
pub mod rennren;
pub mod tables;
pub mod text;
pub mod types;
pub mod vecops;
pub mod wfactors;
