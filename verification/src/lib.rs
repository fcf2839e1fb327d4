//! Discrete core of an armoured-vehicle counter-drone system: the drone
//! registry, the engagement (soft-kill) state machine, threat classification,
//! the bounded event log, the deterministic generator that drives the
//! simulation, and the decisions of the operator's command display.
//!
//! Continuous kinematics (positions, velocities, angles) are computed by the
//! caller in floating point and handed to this library as whole metres.

pub mod clock;
pub mod geometry;
pub mod hud;
pub mod kinds;
pub mod laws;
pub mod rng;
pub mod simulator;
pub mod text;
pub mod tick;

pub use kinds::{format_type, DroneStatus, DroneType, JammingType, ThreatLevel};
pub use rng::{rand_id, SimRng};
pub use geometry::SpawnSite;
pub use simulator::{AfvState, Drone, SimulationState};
pub use tick::{Placement, TickReport};
