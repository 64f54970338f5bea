//! The radar beam an agent steers: heading and width, the width always kept
//! within `[MIN_RADAR_WIDTH, MAX_RADAR_WIDTH]`.
use vstd::prelude::*;
use crate::angle::{angle_ok, normalize_angle, normalized, TURN};

verus! {

/// Narrowest beam: a thirtieth of a turn.
pub const MIN_RADAR_WIDTH: i64 = 24_000;

/// Widest beam: a full turn.
pub const MAX_RADAR_WIDTH: i64 = 720_000;

/// Beam width is ten turns divided by the distance to the contact.
pub const TRACKING_SCALE: i64 = 7_200_000;

/// Cruisers scan the full circle on every sixth tick.
pub const CRUISER_SWEEP_PERIOD: u32 = 6;

/// Cruiser pencil beam: a sixtieth of a turn, before clamping.
pub const CRUISER_PENCIL_WIDTH: i64 = 12_000;

/// Cruiser pencil beam turns by this much each tick.
pub const CRUISER_PENCIL_STEP: i64 = 24_000;

/// Missile beam bounds before clamping: a 360th and a 16th of a turn.
pub const MISSILE_NARROWEST: i64 = 2_000;
pub const MISSILE_WIDEST: i64 = 45_000;

pub open spec fn clamp_width(w: int) -> int {
    if w < MIN_RADAR_WIDTH {
        MIN_RADAR_WIDTH as int
    } else if w > MAX_RADAR_WIDTH {
        MAX_RADAR_WIDTH as int
    } else {
        w
    }
}

/// The width a beam takes when `w` is requested.
pub fn clamp(w: i64) -> (r: i64)
    ensures
        r == clamp_width(w as int),
{
    if w < MIN_RADAR_WIDTH {
        MIN_RADAR_WIDTH
    } else if w > MAX_RADAR_WIDTH {
        MAX_RADAR_WIDTH
    } else {
        w
    }
}

/// Width for tracking a contact at `distance`: `10 * TURN / distance`,
/// clamped; the widest beam at distance zero.
pub open spec fn tracking_width_spec(distance: int) -> int {
    if distance == 0 {
        MAX_RADAR_WIDTH as int
    } else {
        clamp_width((TRACKING_SCALE as int) / distance)
    }
}

/// Width after a missile narrows its beam on a contact.
pub open spec fn narrow_spec(w: int) -> int {
    clamp_width(if w * 9 / 10 > MISSILE_NARROWEST { w * 9 / 10 } else { MISSILE_NARROWEST as int })
}

/// Width after a missile widens its beam to search.
pub open spec fn widen_spec(w: int) -> int {
    clamp_width(if w * 2 < MISSILE_WIDEST { w * 2 } else { MISSILE_WIDEST as int })
}

/// A radar beam.
pub struct Radar {
    heading: i64,
    width: i64,
}

impl Radar {
    /// The beam's invariant: heading in `[0, TURN)`, width in range.
    pub closed spec fn inv(&self) -> bool {
        0 <= self.heading < TURN && MIN_RADAR_WIDTH <= self.width <= MAX_RADAR_WIDTH
    }

    /// Every beam, whatever updates it went through, has its width in
    /// `[MIN_RADAR_WIDTH, MAX_RADAR_WIDTH]`.
    pub proof fn lemma_width_in_range(&self)
        requires
            self.inv(),
        ensures
            MIN_RADAR_WIDTH <= self.width_spec() <= MAX_RADAR_WIDTH,
            0 <= self.heading_spec() < TURN,
    {
    }

    pub closed spec fn heading_spec(&self) -> int {
        self.heading as int
    }

    pub closed spec fn width_spec(&self) -> int {
        self.width as int
    }

    /// A full-circle beam pointing along angle zero.
    pub fn new() -> (r: Radar)
        ensures
            r.inv(),
            r.heading_spec() == 0,
            r.width_spec() == MAX_RADAR_WIDTH,
    {
        Radar { heading: 0, width: MAX_RADAR_WIDTH }
    }

    pub fn heading(&self) -> (r: i64)
        ensures
            r == self.heading_spec(),
    {
        self.heading
    }

    pub fn width(&self) -> (r: i64)
        requires
            self.inv(),
        ensures
            r == self.width_spec(),
            MIN_RADAR_WIDTH <= r <= MAX_RADAR_WIDTH,
    {
        self.width
    }

    /// Requests a beam width; the beam takes the nearest width in range.
    pub fn set_width(&mut self, w: i64)
        requires
            old(self).inv(),
        ensures
            final(self).inv(),
            final(self).width_spec() == clamp_width(w as int),
            final(self).heading_spec() == old(self).heading_spec(),
    {
        self.width = clamp(w);
    }

    /// Points the beam at angle `h`.
    pub fn set_heading(&mut self, h: i64)
        requires
            old(self).inv(),
            angle_ok(h),
        ensures
            final(self).inv(),
            final(self).heading_spec() == normalized(h as int),
            final(self).width_spec() == old(self).width_spec(),
    {
        self.heading = normalize_angle(h);
    }

    /// Follows a contact seen at angle `bearing` and `distance` units away,
    /// narrowing the beam as the contact gets closer.
    pub fn track(&mut self, bearing: i64, distance: u64)
        requires
            old(self).inv(),
            angle_ok(bearing),
        ensures
            final(self).inv(),
            final(self).heading_spec() == normalized(bearing as int),
            final(self).width_spec() == tracking_width_spec(distance as int),
    {
        self.set_heading(bearing);
        let w = tracking_width(distance);
        self.set_width(w);
    }

    /// Searches with no contact: the widest beam, turned on by `step`
    /// (drawn at random by the caller).
    pub fn sweep(&mut self, step: i64)
        requires
            old(self).inv(),
            0 <= step < TURN,
        ensures
            final(self).inv(),
            final(self).heading_spec() == normalized(old(self).heading_spec() + step),
            final(self).width_spec() == MAX_RADAR_WIDTH,
    {
        let h = self.heading + step;
        self.set_heading(h);
        self.set_width(MAX_RADAR_WIDTH);
    }

    /// A cruiser's beam: the full circle on every sixth tick, else a pencil
    /// beam that turns a fixed step each tick, a full turn every 30 ticks.
    pub fn cruiser_schedule(&mut self, tick: u32)
        requires
            old(self).inv(),
        ensures
            final(self).inv(),
            tick % 6 == 0 ==> final(self).width_spec() == MAX_RADAR_WIDTH,
            tick % 6 == 0 ==> final(self).heading_spec() == old(self).heading_spec(),
            tick % 6 != 0 ==> final(self).width_spec() == clamp_width(CRUISER_PENCIL_WIDTH as int),
            tick % 6 != 0 ==> final(self).heading_spec() == (tick % 30) * CRUISER_PENCIL_STEP,
    {
        if tick % CRUISER_SWEEP_PERIOD == 0 {
            self.set_width(MAX_RADAR_WIDTH);
        } else {
            self.set_width(CRUISER_PENCIL_WIDTH);
            let h = ((tick % 30) as i64) * CRUISER_PENCIL_STEP;
            self.set_heading(h);
            proof {
                vstd::arithmetic::div_mod::lemma_small_mod(h as nat, TURN as nat);
            }
        }
    }

    /// A missile's beam on a contact: nine tenths of its width, no narrower
    /// than a 360th of a turn before clamping.
    pub fn narrow(&mut self)
        requires
            old(self).inv(),
        ensures
            final(self).inv(),
            final(self).width_spec() == narrow_spec(old(self).width_spec()),
            final(self).heading_spec() == old(self).heading_spec(),
    {
        let w = self.width * 9 / 10;
        let w = if w > MISSILE_NARROWEST {
            w
        } else {
            MISSILE_NARROWEST
        };
        self.set_width(w);
    }

    /// A missile's beam with no contact: twice its width, no wider than a
    /// sixteenth of a turn before clamping.
    pub fn widen(&mut self)
        requires
            old(self).inv(),
        ensures
            final(self).inv(),
            final(self).width_spec() == widen_spec(old(self).width_spec()),
            final(self).heading_spec() == old(self).heading_spec(),
    {
        let w = self.width * 2;
        let w = if w < MISSILE_WIDEST {
            w
        } else {
            MISSILE_WIDEST
        };
        self.set_width(w);
    }
}

/// Beam width for tracking a contact at `distance`.
pub fn tracking_width(distance: u64) -> (r: i64)
    ensures
        r == tracking_width_spec(distance as int),
        MIN_RADAR_WIDTH <= r <= MAX_RADAR_WIDTH,
{
    if distance == 0 {
        MAX_RADAR_WIDTH
    } else {
        let w = (TRACKING_SCALE as u64) / distance;
        if w < MIN_RADAR_WIDTH as u64 {
            MIN_RADAR_WIDTH
        } else if w > MAX_RADAR_WIDTH as u64 {
            MAX_RADAR_WIDTH
        } else {
            w as i64
        }
    }
}

/// One update of a beam.
#[derive(Clone, Copy, Debug, PartialEq, Eq, Structural)]
pub enum RadarCommand {
    SetWidth(i64),
    SetHeading(i64),
    Track { bearing: i64, distance: u64 },
    Sweep(i64),
    CruiserTick(u32),
    Narrow,
    Widen,
}

/// Heading and width of a beam after command `c`, from heading `h` and width `w`.
pub open spec fn apply_spec(h: int, w: int, c: RadarCommand) -> (int, int) {
    match c {
        RadarCommand::SetWidth(x) => (h, clamp_width(x as int)),
        RadarCommand::SetHeading(x) => (normalized(x as int), w),
        RadarCommand::Track { bearing, distance } => (
            normalized(bearing as int),
            tracking_width_spec(distance as int),
        ),
        RadarCommand::Sweep(step) => (normalized(h + step), MAX_RADAR_WIDTH as int),
        RadarCommand::CruiserTick(t) => if t % 6 == 0 {
            (h, MAX_RADAR_WIDTH as int)
        } else {
            ((t % 30) * CRUISER_PENCIL_STEP, clamp_width(CRUISER_PENCIL_WIDTH as int))
        },
        RadarCommand::Narrow => (h, narrow_spec(w)),
        RadarCommand::Widen => (h, widen_spec(w)),
    }
}

/// Heading and width after the commands `cs` in order.
pub open spec fn run_spec(h: int, w: int, cs: Seq<RadarCommand>) -> (int, int)
    decreases cs.len(),
{
    if cs.len() == 0 {
        (h, w)
    } else {
        let prev = run_spec(h, w, cs.drop_last());
        apply_spec(prev.0, prev.1, cs.last())
    }
}

impl RadarCommand {
    pub open spec fn admissible(self) -> bool {
        match self {
            RadarCommand::SetHeading(h) => angle_ok(h),
            RadarCommand::Track { bearing, distance } => angle_ok(bearing),
            RadarCommand::Sweep(step) => 0 <= step < TURN,
            _ => true,
        }
    }
}

impl Radar {
    /// Applies one update.
    pub fn apply(&mut self, c: RadarCommand)
        requires
            old(self).inv(),
            c.admissible(),
        ensures
            final(self).inv(),
            (final(self).heading_spec(), final(self).width_spec()) == apply_spec(
                old(self).heading_spec(),
                old(self).width_spec(),
                c,
            ),
    {
        match c {
            RadarCommand::SetWidth(w) => self.set_width(w),
            RadarCommand::SetHeading(h) => self.set_heading(h),
            RadarCommand::Track { bearing, distance } => self.track(bearing, distance),
            RadarCommand::Sweep(step) => self.sweep(step),
            RadarCommand::CruiserTick(t) => self.cruiser_schedule(t),
            RadarCommand::Narrow => self.narrow(),
            RadarCommand::Widen => self.widen(),
        }
    }

    /// Applies a sequence of updates, one per tick. After each of them the
    /// width is within `[MIN_RADAR_WIDTH, MAX_RADAR_WIDTH]`.
    pub fn apply_all(&mut self, cs: &Vec<RadarCommand>) -> (widths: Vec<i64>)
        requires
            old(self).inv(),
            forall|i: int| 0 <= i < cs@.len() ==> (#[trigger] cs@[i]).admissible(),
        ensures
            final(self).inv(),
            widths@.len() == cs@.len(),
            forall|i: int|
                0 <= i < widths@.len() ==> MIN_RADAR_WIDTH <= #[trigger] widths@[i]
                    <= MAX_RADAR_WIDTH,
            widths@.len() > 0 ==> widths@.last() == final(self).width_spec(),
            (final(self).heading_spec(), final(self).width_spec()) == run_spec(
                old(self).heading_spec(),
                old(self).width_spec(),
                cs@,
            ),
            forall|i: int|
                0 <= i < widths@.len() ==> #[trigger] widths@[i] == run_spec(
                    old(self).heading_spec(),
                    old(self).width_spec(),
                    cs@.take(i + 1),
                ).1,
    {
        let mut widths: Vec<i64> = Vec::new();
        let mut i: usize = 0;
        while i < cs.len()
            invariant
                self.inv(),
                i <= cs@.len(),
                widths@.len() == i,
                forall|j: int| 0 <= j < cs@.len() ==> (#[trigger] cs@[j]).admissible(),
                forall|j: int|
                    0 <= j < widths@.len() ==> MIN_RADAR_WIDTH <= #[trigger] widths@[j]
                        <= MAX_RADAR_WIDTH,
                widths@.len() > 0 ==> widths@.last() == self.width_spec(),
                (self.heading_spec(), self.width_spec()) == run_spec(
                    old(self).heading_spec(),
                    old(self).width_spec(),
                    cs@.take(i as int),
                ),
                forall|j: int|
                    0 <= j < widths@.len() ==> #[trigger] widths@[j] == run_spec(
                        old(self).heading_spec(),
                        old(self).width_spec(),
                        cs@.take(j + 1),
                    ).1,
            decreases cs@.len() - i,
        {
            proof {
                assert(cs@.take(i + 1).drop_last() == cs@.take(i as int));
            }
            self.apply(cs[i]);
            let w = self.width();
            widths.push(w);
            i += 1;
        }
        assert(cs@.take(cs@.len() as int) == cs@);
        widths
    }
}

} // verus!
