//! A snake game on a toroidal grid: the simulation engine and the decisions
//! of the real-time loop that drives it.

pub mod controller;
pub mod model;
