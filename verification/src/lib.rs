//! Bookkeeping core of a molecular simulation engine: particle kinds, the
//! registry of interactions, pair restrictions, the description of a system
//! and the reading of its configuration tables.
//!
//! Every quantity held here is discrete. Real-valued physics (energies,
//! forces, positions) belongs to the code that drives this crate.

pub mod advisories;
pub mod cache;
pub mod composition;
pub mod configuration;
pub mod evaluator;
pub mod input;
pub mod interactions;
pub mod kinds;
pub mod molecule;
pub mod moves;
pub mod names;
pub mod quantities;
pub mod restrictions;
pub mod system;
pub mod table;
