//! Threshold BLS: per-party primitives, the five-round distributed key
//! generation state machine, and the two-round signing state machine.
pub mod keygen;
pub mod laws;
pub mod party_i;
pub mod sign;
pub mod utilities;
