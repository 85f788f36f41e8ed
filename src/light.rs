use vstd::prelude::*;

verus! {

/// Orbit angles are counted in ticks of 1/50 000 of a degree: at one degree
/// per sixtieth of a second the light turns exactly `TICKS_PER_MICRO` ticks a
/// microsecond, so no time is lost to rounding however short the frames.
pub const TICKS_PER_DEGREE: u32 = 50_000;

pub const TICKS_PER_MICRO: u32 = 3;

/// A full turn in ticks.
pub const FULL_TURN: u32 = 18_000_000;

/// Where the light is this frame. Orbit angles are in ticks; the light then
/// circles the origin at a fixed radius and height.
/// Manual positions are fixed-point numbers in thousandths of a unit.
#[derive(Clone, Copy, Debug, PartialEq, Eq)]
pub enum LightPlacement {
    Orbit { angle: u32 },
    Manual { position: (i32, i32, i32) },
}

/// The light's two-mode state: orbiting (`orbit_angle` is set) or placed by
/// hand at `manual_position`.
#[derive(Clone, Copy, Debug, PartialEq, Eq)]
pub struct LightAnimator {
    pub orbit_angle: Option<u32>,
    pub manual_position: (i32, i32, i32),
}

/// Angle, in ticks, swept in `dt_micros` microseconds: one degree per
/// sixtieth of a second.
pub open spec fn swept(dt_micros: int) -> int {
    dt_micros * TICKS_PER_MICRO
}

pub open spec fn add_clamped(a: int, d: int) -> int {
    let v = a + d;
    if v < i32::MIN {
        i32::MIN as int
    } else if v > i32::MAX {
        i32::MAX as int
    } else {
        v
    }
}

/// Which coordinate of the light a nudge moves.
#[derive(Clone, Copy, Debug, PartialEq, Eq, Structural)]
pub enum Axis {
    X,
    Y,
    Z,
}

impl LightAnimator {
    pub open spec fn wf(self) -> bool {
        match self.orbit_angle {
            Some(a) => a < FULL_TURN,
            None => true,
        }
    }

    pub open spec fn new_spec(position: (i32, i32, i32)) -> LightAnimator {
        LightAnimator { orbit_angle: None, manual_position: position }
    }

    pub open spec fn toggle_spec(self) -> LightAnimator {
        LightAnimator {
            orbit_angle: if self.orbit_angle.is_none() { Some(0u32) } else { None },
            ..self
        }
    }

    pub open spec fn advance_spec(self, dt_micros: int) -> LightAnimator {
        match self.orbit_angle {
            Some(a) => LightAnimator {
                orbit_angle: Some(((a + swept(dt_micros)) % (FULL_TURN as int)) as u32),
                ..self
            },
            None => self,
        }
    }

    pub open spec fn set_manual_spec(self, p: (i32, i32, i32)) -> LightAnimator {
        if self.orbit_angle.is_none() {
            LightAnimator { manual_position: p, ..self }
        } else {
            self
        }
    }

    pub open spec fn nudge_spec(self, axis: Axis, delta: i32) -> LightAnimator {
        if self.orbit_angle.is_some() {
            self
        } else {
            let (x, y, z) = self.manual_position;
            LightAnimator {
                manual_position: match axis {
                    Axis::X => (add_clamped(x as int, delta as int) as i32, y, z),
                    Axis::Y => (x, add_clamped(y as int, delta as int) as i32, z),
                    Axis::Z => (x, y, add_clamped(z as int, delta as int) as i32),
                },
                ..self
            }
        }
    }

    pub open spec fn placement_spec(self) -> LightPlacement {
        match self.orbit_angle {
            Some(a) => LightPlacement::Orbit { angle: a },
            None => LightPlacement::Manual { position: self.manual_position },
        }
    }

    /// A light held by hand at `position`.
    pub fn new(position: (i32, i32, i32)) -> (r: LightAnimator)
        ensures
            r.wf(),
            r == LightAnimator::new_spec(position),
    {
        LightAnimator { orbit_angle: None, manual_position: position }
    }

    pub fn is_orbiting(&self) -> (r: bool)
        ensures
            r == self.orbit_angle.is_some(),
    {
        self.orbit_angle.is_some()
    }

    /// Switches between the two modes; orbiting always starts at angle zero.
    pub fn toggle_orbit(&mut self)
        requires
            old(self).wf(),
        ensures
            final(self).wf(),
            *final(self) == old(self).toggle_spec(),
    {
        if self.orbit_angle.is_none() {
            self.orbit_angle = Some(0);
        } else {
            self.orbit_angle = None;
        }
    }

    /// Moves an orbiting light on by the time elapsed, `dt_micros`
    /// microseconds; a light held by hand stays put.
    pub fn advance(&mut self, dt_micros: u64)
        requires
            old(self).wf(),
        ensures
            final(self).wf(),
            *final(self) == old(self).advance_spec(dt_micros as int),
    {
        if let Some(a) = self.orbit_angle {
            let step = (dt_micros as u128) * (TICKS_PER_MICRO as u128);
            self.orbit_angle = Some(((a as u128 + step) % (FULL_TURN as u128)) as u32);
        }
    }

    /// Places the light by hand; ignored while it orbits.
    pub fn set_manual_position(&mut self, position: (i32, i32, i32))
        ensures
            *final(self) == old(self).set_manual_spec(position),
    {
        if self.orbit_angle.is_none() {
            self.manual_position = position;
        }
    }

    /// Moves the light by `delta` thousandths along one axis, stopping at
    /// the ends of `i32`; ignored while it orbits.
    pub fn nudge(&mut self, axis: Axis, delta: i32)
        ensures
            *final(self) == old(self).nudge_spec(axis, delta),
    {
        if self.orbit_angle.is_some() {
            return;
        }
        let (x, y, z) = self.manual_position;
        self.manual_position = match axis {
            Axis::X => (step_clamped(x, delta), y, z),
            Axis::Y => (x, step_clamped(y, delta), z),
            Axis::Z => (x, y, step_clamped(z, delta)),
        };
    }

    /// Where the light stands this frame.
    pub fn placement(&self) -> (r: LightPlacement)
        ensures
            r == self.placement_spec(),
    {
        match self.orbit_angle {
            Some(a) => LightPlacement::Orbit { angle: a },
            None => LightPlacement::Manual { position: self.manual_position },
        }
    }
}

fn step_clamped(a: i32, d: i32) -> (r: i32)
    ensures
        r == add_clamped(a as int, d as int),
{
    let v = a as i64 + d as i64;
    if v < i32::MIN as i64 {
        i32::MIN
    } else if v > i32::MAX as i64 {
        i32::MAX
    } else {
        v as i32
    }
}

/// Turning the orbit on always starts it at angle zero: on, any time
/// elapsed, off and on again gives angle zero, as the first switch did.
pub proof fn lemma_orbit_restarts_at_zero(l: LightAnimator, dt1: nat, dt2: nat)
    requires
        l.wf(),
        l.orbit_angle.is_none(),
    ensures
        l.toggle_spec().orbit_angle == Some(0u32),
        l.toggle_spec().advance_spec(dt1 as int).toggle_spec().orbit_angle.is_none(),
        l.toggle_spec().advance_spec(dt1 as int).toggle_spec().advance_spec(dt2 as int).toggle_spec().orbit_angle
            == Some(0u32),
{
}

} // verus!
