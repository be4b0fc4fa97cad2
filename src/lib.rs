//! A stochastic simulator for well-mixed chemical reaction networks in the
//! style of the First-Reaction Method.
//!
//! A network is a table of species with integer populations and reactions
//! that refer to the table by index, kept in ascending order of identity.
//! Rate constants are exact positive fractions, and simulated time is counted
//! in integer ticks. Each step takes one sampled delay per reaction from the
//! caller, because exponential sampling is done in floating point outside
//! this crate. The step then:
//! - gives a reaction with zero propensity no delay, so it never fires;
//! - selects the soonest reaction, the one of lowest identity on a tie;
//! - fires it only where every reactant occurrence finds a unit.
//!
//! A recorder keeps deep copies of the network's state, or sparse lists of
//! changes, and filters them by species and role.

pub mod species;
pub mod reaction;
pub mod system;
pub mod visitor;
pub mod monitor;
