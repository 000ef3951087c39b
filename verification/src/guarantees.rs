//! What the components promise together, proved from their definitions.
pub mod delivery;
pub mod publishing;
