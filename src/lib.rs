//! Integer models of the control loop of a tick-based combat simulation:
//! vectors, binary angles, radar policy, guidance, weapons, messages, and the
//! batch harness that aggregates seeded rounds.
pub mod angle;
pub mod dispatch;
pub mod guidance;
pub mod harness;
pub mod homing;
pub mod message;
pub mod radar;
pub mod seeker;
pub mod ship;
pub mod snapshot;
pub mod torpedo;
pub mod tutorial;
pub mod vec2;
pub mod weapons;
