//! The load generators, one module per protocol spoken to the target.

pub mod tcp;
