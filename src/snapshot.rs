//! Observation records of a tick, handed out for display and never read back.
use vstd::prelude::*;
use crate::ship::ShipClass;
use crate::vec2::Vec2;

verus! {

/// A line drawn for debugging or by the scenario.
#[derive(Clone, Copy, Debug, PartialEq, Eq, Structural)]
pub struct Line {
    pub a: Vec2,
    pub b: Vec2,
    /// Colour as `0xRRGGBB`.
    pub color: u32,
}

/// One ship as seen in a snapshot.
#[derive(Clone, Copy, Debug, PartialEq, Eq, Structural)]
pub struct ShipSnapshot {
    pub id: u64,
    pub position: Vec2,
    pub team: i32,
    pub class: ShipClass,
}

/// The world at one tick.
#[derive(Clone, Debug)]
pub struct Snapshot {
    /// Simulation time, in ticks.
    pub time: u32,
    pub ships: Vec<ShipSnapshot>,
    pub debug_lines: Vec<Line>,
    pub scenario_lines: Vec<Line>,
}

} // verus!
