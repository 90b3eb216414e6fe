//! The integer and text parts of the risk engine: scenario shock tables,
//! asset classification, and the parameter clamps of the simulations. The
//! floating-point analytics run in the application.

pub mod correlation;
pub mod montecarlo;
pub mod stress;
