//! The decisions of the orbit camera: which gesture a tick performs, when the
//! camera counts as upside down, the sign of horizontal orbiting, and zoom.
//! Distances are whole multiples of a length unit that the host picks.
use vstd::prelude::*;

verus! {

/// What one tick of input does to the camera; at most one per tick.
#[derive(PartialEq, Eq, Structural, Clone, Copy)]
pub enum Gesture {
    Idle,
    Orbiting,
    Panning,
    Zooming,
}

/// Picks the gesture of a tick by priority: orbit, then pan, then zoom.
pub fn select_gesture(orbit_held: bool, pan_held: bool, wheel_delta: i64) -> (r: Gesture)
    ensures
        r == select_gesture_spec(orbit_held, pan_held, wheel_delta),
{
    if orbit_held {
        Gesture::Orbiting
    } else if pan_held {
        Gesture::Panning
    } else if wheel_delta != 0 {
        Gesture::Zooming
    } else {
        Gesture::Idle
    }
}

/// The radius after one zoom step: `radius - wheel * radius / 5`, kept at
/// or above `floor` and within `u64`.
pub open spec fn zoom_radius(radius: int, wheel: int, floor: int) -> int {
    let step = ((if wheel >= 0 { wheel } else { -wheel }) * radius) / 5;
    let raw = if wheel >= 0 { radius - step } else { radius + step };
    if raw < floor {
        floor
    } else if raw > u64::MAX {
        u64::MAX as int
    } else {
        raw
    }
}

/// The radius after a run of zoom steps.
pub open spec fn zoom_all(radius: int, wheels: Seq<int>, floor: int) -> int
    decreases wheels.len(),
{
    if wheels.len() == 0 {
        radius
    } else {
        zoom_all(zoom_radius(radius, wheels[0], floor), wheels.drop_first(), floor)
    }
}

/// The gesture picked for a tick, by priority: orbit, then pan, then zoom.
pub open spec fn select_gesture_spec(orbit_held: bool, pan_held: bool, wheel_delta: i64) -> Gesture {
    if orbit_held {
        Gesture::Orbiting
    } else if pan_held {
        Gesture::Panning
    } else if wheel_delta != 0 {
        Gesture::Zooming
    } else {
        Gesture::Idle
    }
}

/// The sum of a sequence of integers.
pub open spec fn sum_of(s: Seq<int>) -> int
    decreases s.len(),
{
    if s.len() == 0 {
        0
    } else {
        sum_of(s.drop_last()) + s.last()
    }
}

/// An integer clamped to the range of `i64`.
pub open spec fn saturate(x: int) -> int {
    if x > i64::MAX {
        i64::MAX as int
    } else if x < i64::MIN {
        i64::MIN as int
    } else {
        x
    }
}

/// The radius after `n` zoom steps with the same wheel delta.
pub open spec fn zoom_repeat(radius: int, wheel: int, floor: int, n: nat) -> int
    decreases n,
{
    if n == 0 {
        radius
    } else {
        zoom_repeat(zoom_radius(radius, wheel, floor), wheel, floor, (n - 1) as nat)
    }
}

/// The state of one orbiting camera.
pub struct OrbitCamera {
    /// Distance from the focus point to the camera.
    pub radius: u64,
    /// The least radius zoom may leave; positive, so that the camera never
    /// reaches the focus point.
    pub floor: u64,
    /// Whether the camera was upside down when the orbit gesture last
    /// started or ended.
    pub upside_down: bool,
}

impl OrbitCamera {
    /// The radius stays at or above a positive floor.
    pub open spec fn wf(&self) -> bool {
        0 < self.floor <= self.radius
    }

    pub fn new(radius: u64, floor: u64) -> (r: OrbitCamera)
        requires
            0 < floor <= radius,
        ensures
            r.radius == radius,
            r.floor == floor,
            !r.upside_down,
            r.wf(),
    {
        OrbitCamera { radius, floor, upside_down: false }
    }

    /// Re-evaluates the upside-down flag, only on the tick the orbit gesture
    /// starts or ends, from whether the camera's up axis has a non-positive
    /// vertical component in world space.
    pub fn track_orbit_edge(&mut self, orbit_was_held: bool, orbit_held: bool, up_non_positive: bool)
        ensures
            final(self).upside_down == if orbit_was_held != orbit_held {
                up_non_positive
            } else {
                old(self).upside_down
            },
            final(self).radius == old(self).radius,
            final(self).floor == old(self).floor,
    {
        if orbit_was_held != orbit_held {
            self.upside_down = up_non_positive;
        }
    }

    /// The sign applied to horizontal orbiting: inverted exactly when the
    /// camera is upside down.
    pub fn yaw_sign(&self) -> (r: i64)
        ensures
            r == if self.upside_down { -1i64 } else { 1i64 },
    {
        if self.upside_down {
            -1
        } else {
            1
        }
    }

    /// One zoom step: the radius shrinks by a fifth of itself per unit of
    /// wheel delta (grows for a negative delta), and never drops below
    /// the floor.
    pub fn zoom(&mut self, wheel_delta: i64)
        requires
            old(self).wf(),
        ensures
            final(self).radius == zoom_radius(
                old(self).radius as int,
                wheel_delta as int,
                old(self).floor as int,
            ),
            final(self).floor == old(self).floor,
            final(self).upside_down == old(self).upside_down,
            final(self).wf(),
    {
        let floor = self.floor;
        let r: u128 = self.radius as u128;
        let w: u128 = if wheel_delta >= 0 {
            wheel_delta as u128
        } else {
            (-(wheel_delta as i128)) as u128
        };
        assert(w * r <= 0x8000_0000_0000_0000u128 * 0xffff_ffff_ffff_ffffu128) by (nonlinear_arith)
            requires
                w <= 0x8000_0000_0000_0000u128,
                r <= 0xffff_ffff_ffff_ffffu128,
        ;
        let step: u128 = (w * r) / 5;
        let raw_low: bool = wheel_delta >= 0 && (step > r || r - step < floor as u128);
        if raw_low {
            self.radius = floor;
        } else if wheel_delta >= 0 {
            self.radius = (r - step) as u64;
        } else {
            let grown: u128 = r + step;
            if grown < floor as u128 {
                self.radius = floor;
            } else if grown > u64::MAX as u128 {
                self.radius = u64::MAX;
            } else {
                self.radius = grown as u64;
            }
        }
    }

    /// One tick of the controller: tracks the orbit edge, picks the gesture,
    /// and applies the zoom when zooming is the gesture picked.
    pub fn tick(
        &mut self,
        orbit_was_held: bool,
        orbit_held: bool,
        pan_held: bool,
        wheel_delta: i64,
        up_non_positive: bool,
    ) -> (r: Gesture)
        requires
            old(self).wf(),
        ensures
            r == select_gesture_spec(orbit_held, pan_held, wheel_delta),
            final(self).upside_down == if orbit_was_held != orbit_held {
                up_non_positive
            } else {
                old(self).upside_down
            },
            final(self).radius == if r == Gesture::Zooming {
                zoom_radius(old(self).radius as int, wheel_delta as int, old(self).floor as int)
            } else {
                old(self).radius as int
            },
            final(self).floor == old(self).floor,
            final(self).wf(),
    {
        self.track_orbit_edge(orbit_was_held, orbit_held, up_non_positive);
        let g = select_gesture(orbit_held, pan_held, wheel_delta);
        if g == Gesture::Zooming {
            self.zoom(wheel_delta);
        }
        g
    }
}

/// Drains the wheel deltas received since the last tick and returns their
/// sum, saturated to the range of `i64`, so that no delta leaks into a later
/// tick.
pub fn drain_wheel(deltas: &mut Vec<i64>) -> (r: i64)
    ensures
        final(deltas)@.len() == 0,
        r == saturate(sum_of(old(deltas)@.map_values(|d: i64| d as int))),
{
    let n = deltas.len();
    let mut total: i128 = 0;
    let mut i: usize = 0;
    while i < n
        invariant
            n == deltas@.len(),
            i <= n,
            total == sum_of(deltas@.map_values(|d: i64| d as int).take(i as int)),
            -0x8000_0000_0000_0000 * i <= total <= 0x7fff_ffff_ffff_ffff * i,
        decreases n - i,
    {
        proof {
            let s = deltas@.map_values(|d: i64| d as int);
            assert(s.take(i as int + 1).drop_last() =~= s.take(i as int));
        }
        total = total + deltas[i] as i128;
        i = i + 1;
    }
    proof {
        assert(deltas@.map_values(|d: i64| d as int).take(n as int) =~= deltas@.map_values(|d: i64| d as int));
    }
    deltas.clear();
    if total > i64::MAX as i128 {
        i64::MAX
    } else if total < i64::MIN as i128 {
        i64::MIN
    } else {
        total as i64
    }
}

/// Zooming never takes the radius below the floor: from any radius at or
/// above a positive floor, every run of zoom steps ends at or above it, and
/// so never reaches zero.
pub proof fn lemma_zoom_respects_floor(radius: int, wheels: Seq<int>, floor: int)
    requires
        0 < floor <= radius <= u64::MAX,
    ensures
        floor <= zoom_all(radius, wheels, floor) <= u64::MAX,
        0 < zoom_all(radius, wheels, floor),
    decreases wheels.len(),
{
    if wheels.len() > 0 {
        lemma_zoom_respects_floor(zoom_radius(radius, wheels[0], floor), wheels.drop_first(), floor);
    }
}

/// Zooming in with a constant positive wheel delta never grows the radius,
/// and reaches the floor, then stays there: from radius `r`, any number of
/// steps at least `r - floor` ends exactly at the floor. The floor is at
/// least 5 units, so that a fifth of any radius above it is a whole unit.
pub proof fn lemma_zoom_reaches_floor(radius: int, wheel: int, floor: int, n: nat)
    requires
        5 <= floor <= radius <= u64::MAX,
        1 <= wheel,
        n >= radius - floor,
    ensures
        zoom_repeat(radius, wheel, floor, n) == floor,
        floor <= zoom_radius(radius, wheel, floor) <= radius,
    decreases n,
{
    assert(wheel * radius >= radius) by (nonlinear_arith)
        requires
            1 <= wheel,
            0 <= radius,
    ;
    let next = zoom_radius(radius, wheel, floor);
    if radius > floor {
        assert((wheel * radius) / 5 >= 1);
        assert(next <= radius - 1);
    }
    if n > 0 {
        lemma_zoom_reaches_floor(next, wheel, floor, (n - 1) as nat);
    }
}

} // verus!
