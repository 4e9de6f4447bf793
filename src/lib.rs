//! An ecosystem simulation: organisms of several species move, hunt, eat,
//! reproduce and die on a plane. Lengths are fixed-point integers
//! (thousandths of a world unit), durations are milliseconds and energy is
//! counted in thousandths, so that every rule is stated and proved exactly.

pub mod geometry;
pub mod random;
pub mod species;
pub mod shared_state;
pub mod awareness;
pub mod states;
pub mod organism;
pub mod census;
pub mod simulation;
pub mod worker;
pub mod configuration;
pub mod eyesight;
pub mod walking_manager;
