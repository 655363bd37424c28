//! Reading the description of a simulation from TOML tables.

pub mod error;
pub mod extract;
pub mod minimization;
pub mod system;
pub mod values;
