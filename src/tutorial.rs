//! The rotation exercise: turn toward a fixed target and keep firing.
use vstd::prelude::*;
use crate::angle::{angle_diff, angle_diff_spec, angle_ok};

verus! {

/// What the exercise ship does in one tick.
#[derive(Clone, Copy, Debug, PartialEq, Eq, Structural)]
pub struct TurnOrders {
    /// Commanded turn rate.
    pub turn: i64,
    /// Mount to fire.
    pub fire: u32,
}

/// The exercise ship; it keeps no memory between ticks.
#[derive(Clone, Copy, Debug, PartialEq, Eq, Structural)]
pub struct Ship {}

impl Ship {
    pub fn new() -> (r: Ship) {
        Ship {}
    }

    /// Turns at the heading error toward `bearing`, the direction of the
    /// target, and fires mount 0.
    pub fn tick(&mut self, heading: i64, bearing: i64) -> (r: TurnOrders)
        requires
            angle_ok(heading),
            angle_ok(bearing),
        ensures
            r.turn == angle_diff_spec(heading as int, bearing as int),
            r.fire == 0,
    {
        let e = angle_diff(heading, bearing);
        TurnOrders { turn: e, fire: 0 }
    }
}

} // verus!
