//! Bounded, randomized retrieval of point identifiers from a storage segment.
//!
//! A segment pairs an identifier tracker (dense internal offsets against
//! client-facing identifiers) with a payload index that answers filters.
//! Three sampling strategies are built on those two capabilities, each with
//! a contract that describes every outcome the random source may produce.

pub mod types;
pub mod selection;
pub mod random;
pub mod id_tracker;
pub mod payload;
pub mod segment;
pub mod guarantees;
pub mod validation;
