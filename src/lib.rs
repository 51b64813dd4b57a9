//! Evolution of ABO blood-type frequencies in a closed population under
//! random mating.

pub mod genetics;
pub mod population;
pub mod random;
pub mod simulation;
