use vstd::prelude::*;

verus! {

/// Closest the camera may come to the origin (0.1 units).
pub const MIN_DISTANCE: u32 = 100;

/// Scroll amounts are in thousandths of a notch.
pub const NOTCH: i32 = 1000;

/// An angle in whole degrees brought into `0..360`.
pub open spec fn norm_angle(a: int) -> int {
    a % 360
}

/// `d - delta·d·0.1` per notch, for `delta` thousandths of a notch: a notch
/// moves a tenth of the current distance, toward the origin for positive
/// `delta`. The result is rounded away from `d`'s side of the step so that
/// every scroll takes effect: down when zooming in, up when zooming out.
pub open spec fn zoom_raw(d: int, delta: int) -> int {
    let n = 10 * NOTCH;
    if delta >= n {
        0
    } else if delta < 0 {
        ((n - delta) * d + n - 1) / n
    } else {
        (n - delta) * d / n
    }
}

/// The distance after scrolling `delta` thousandths of a notch from `d`
/// (see `zoom_raw`): at least `MIN_DISTANCE`, and saturating at the largest
/// distance a `u32` holds.
pub open spec fn zoomed(d: int, delta: int) -> int {
    let raw = zoom_raw(d, delta);
    if raw < MIN_DISTANCE {
        MIN_DISTANCE as int
    } else if raw > u32::MAX {
        u32::MAX as int
    } else {
        raw
    }
}

/// A camera orbiting the origin. Yaw and pitch are whole degrees in
/// `0..360`; one pixel of pointer travel turns the camera by one degree.
/// The distance is a fixed-point number in thousandths of a scene unit.
/// `drag` holds the last pointer position while a rotation is under way.
#[derive(Clone, Copy, Debug, PartialEq, Eq)]
pub struct OrbitCamera {
    pub yaw: i64,
    pub pitch: i64,
    pub distance: u32,
    pub drag: Option<(i32, i32)>,
}

impl OrbitCamera {
    pub open spec fn wf(self) -> bool {
        0 <= self.yaw < 360 && 0 <= self.pitch < 360 && MIN_DISTANCE <= self.distance
    }

    pub open spec fn start_spec(self, x: int, y: int) -> OrbitCamera {
        OrbitCamera { drag: Some((x as i32, y as i32)), ..self }
    }

    /// The pointer moved to `(x, y)`: while dragging, yaw and pitch turn by
    /// the travel since the previous position, which becomes `(x, y)`.
    pub open spec fn drag_to_spec(self, x: int, y: int) -> OrbitCamera {
        match self.drag {
            Some((lx, ly)) => OrbitCamera {
                yaw: norm_angle(self.yaw + (x - lx)) as i64,
                pitch: norm_angle(self.pitch + (y - ly)) as i64,
                drag: Some((x as i32, y as i32)),
                ..self
            },
            None => self,
        }
    }

    pub open spec fn end_spec(self) -> OrbitCamera {
        OrbitCamera { drag: None, ..self }
    }

    pub open spec fn reset_spec(self) -> OrbitCamera {
        OrbitCamera { yaw: 0, pitch: 0, ..self }
    }

    /// Looking along the x axis from ten units away, level, not dragging.
    pub fn new() -> (r: OrbitCamera)
        ensures
            r.wf(),
            r == (OrbitCamera { yaw: 90, pitch: 0, distance: 10_000, drag: None }),
    {
        OrbitCamera { yaw: 90, pitch: 0, distance: 10_000, drag: None }
    }

    pub fn is_dragging(&self) -> (r: bool)
        ensures
            r == self.drag.is_some(),
    {
        self.drag.is_some()
    }

    /// Starts a rotation with the pointer at `(x, y)`.
    pub fn on_drag_start(&mut self, x: i32, y: i32)
        ensures
            *final(self) == old(self).start_spec(x as int, y as int),
    {
        self.drag = Some((x, y));
    }

    /// See `drag_to_spec`.
    pub fn on_drag_delta(&mut self, x: i32, y: i32)
        requires
            old(self).wf(),
        ensures
            final(self).wf(),
            *final(self) == old(self).drag_to_spec(x as int, y as int),
    {
        if let Some((lx, ly)) = self.drag {
            self.yaw = turn(self.yaw, x as i64 - lx as i64);
            self.pitch = turn(self.pitch, y as i64 - ly as i64);
            self.drag = Some((x, y));
        }
    }

    /// Ends a rotation; the angles stay where they are.
    pub fn on_drag_end(&mut self)
        ensures
            *final(self) == old(self).end_spec(),
    {
        self.drag = None;
    }

    /// Zooms by `delta` thousandths of a notch (see `zoomed`).
    pub fn on_scroll(&mut self, delta: i32)
        requires
            old(self).wf(),
        ensures
            final(self).wf(),
            *final(self) == (OrbitCamera { distance: zoomed(old(self).distance as int, delta as int) as u32, ..*old(self) }),
    {
        let raw: u64 = if delta >= 10 * NOTCH {
            0
        } else {
            let factor = (10 * NOTCH as i64 - delta as i64) as u64;
            proof {
                let f = factor as int;
                let d = self.distance as int;
                assert(f * d <= 0x1_0000_0000 * 0x1_0000_0000) by (nonlinear_arith)
                    requires 0 <= f <= 0x1_0000_0000, 0 <= d <= 0x1_0000_0000;
            }
            let n = (10 * NOTCH) as u128;
            let num = factor as u128 * self.distance as u128;
            let q = if delta < 0 { (num + (n - 1)) / n } else { num / n };
            proof {
                let a = num as int;
                assert((a + 9_999) / 10_000 <= a + 9_999) by (nonlinear_arith) requires a >= 0;
                assert(a / 10_000 <= a) by (nonlinear_arith) requires a >= 0;
            }
            q as u64
        };
        self.distance = if raw < MIN_DISTANCE as u64 {
            MIN_DISTANCE
        } else if raw > u32::MAX as u64 {
            u32::MAX
        } else {
            raw as u32
        };
    }

    /// Sets yaw and pitch to zero; the distance and any rotation under way
    /// are kept.
    pub fn reset(&mut self)
        requires
            old(self).wf(),
        ensures
            final(self).wf(),
            *final(self) == old(self).reset_spec(),
            final(self).yaw == 0,
            final(self).pitch == 0,
            final(self).distance == old(self).distance,
    {
        self.yaw = 0;
        self.pitch = 0;
    }
}

/// `angle` turned by `delta` degrees, brought into `0..360`.
fn turn(angle: i64, delta: i64) -> (r: i64)
    requires
        0 <= angle < 360,
        -0x1_0000_0000 <= delta <= 0x1_0000_0000,
    ensures
        r == norm_angle(angle + delta),
        0 <= r < 360,
{
    match (angle + delta).checked_rem_euclid(360) {
        Some(r) => r,
        None => 0,
    }
}

/// One pointer drag, pressed at `(x0, y0)`, moved through `(x1, y1)` to
/// `(x2, y2)` and released, turns the camera by the sum of the two moves,
/// which is the whole travel; the distance does not change.
pub proof fn lemma_drag_turns_by_total_travel(
    c: OrbitCamera,
    x0: i32,
    y0: i32,
    x1: i32,
    y1: i32,
    x2: i32,
    y2: i32,
)
    requires
        c.wf(),
    ensures
        ({
            let e = c.start_spec(x0 as int, y0 as int).drag_to_spec(x1 as int, y1 as int).drag_to_spec(
                x2 as int,
                y2 as int,
            ).end_spec();
            &&& e.yaw == norm_angle(c.yaw + (x1 - x0) + (x2 - x1))
            &&& e.pitch == norm_angle(c.pitch + (y1 - y0) + (y2 - y1))
            &&& e.yaw == norm_angle(c.yaw + (x2 - x0))
            &&& e.distance == c.distance
            &&& e.drag.is_none()
        }),
{
    lemma_norm_add(c.yaw + (x1 - x0), (x2 - x1) as int);
    lemma_norm_add(c.pitch + (y1 - y0), (y2 - y1) as int);
}

proof fn lemma_norm_add(a: int, b: int)
    ensures
        norm_angle(norm_angle(a) + b) == norm_angle(a + b),
{
    vstd::arithmetic::div_mod::lemma_add_mod_noop(a, b, 360);
    vstd::arithmetic::div_mod::lemma_mod_twice(b, 360);
    vstd::arithmetic::div_mod::lemma_add_mod_noop(a % 360, b, 360);
}

/// A reset leaves yaw and pitch at zero whatever came before, and keeps the
/// distance.
pub proof fn lemma_reset_forgets_history(c: OrbitCamera, d: OrbitCamera)
    requires
        c.distance == d.distance,
    ensures
        c.reset_spec().yaw == 0,
        c.reset_spec().pitch == 0,
        c.reset_spec().distance == c.distance,
        c.reset_spec().yaw == d.reset_spec().yaw,
        c.reset_spec().pitch == d.reset_spec().pitch,
        c.reset_spec().distance == d.reset_spec().distance,
{
}

/// Every scroll takes effect: scrolling toward the scene brings the camera
/// closer unless it is already at `MIN_DISTANCE`; scrolling away moves it
/// farther unless it is at the largest distance a `u32` holds; no scroll
/// leaves it closer than `MIN_DISTANCE`. Between those limits the step is
/// exactly `zoom_raw`.
pub proof fn lemma_zoom_direction(d: u32, delta: i32)
    requires
        MIN_DISTANCE <= d,
    ensures
        delta > 0 && d > MIN_DISTANCE ==> zoomed(d as int, delta as int) < d,
        delta < 0 && d < u32::MAX ==> zoomed(d as int, delta as int) > d,
        delta == 0 ==> zoomed(d as int, delta as int) == d,
        zoomed(d as int, delta as int) >= MIN_DISTANCE,
        MIN_DISTANCE <= zoom_raw(d as int, delta as int) <= u32::MAX ==> zoomed(d as int, delta as int) == zoom_raw(
            d as int,
            delta as int,
        ),
{
    let n = 10 * NOTCH as int;
    assert(n == 10_000);
    if delta < n {
        let f = n - delta;
        assert(f * d == (10 * NOTCH - delta) * d);
        if delta > 0 {
            assert(f * d < n * d) by (nonlinear_arith) requires 0 < f < n, d > 0;
            assert((f * d) / n < d) by (nonlinear_arith) requires f * d < n * d, n > 0, f * d >= 0;
        } else if delta == 0 {
            assert((n * d) / n == d) by (nonlinear_arith) requires n > 0;
        } else {
            assert(f * d >= n * d + d) by (nonlinear_arith) requires f >= n + 1, d >= 0;
            assert((f * d + n - 1) / n > d) by (nonlinear_arith) requires f * d >= n * d + d, n > 0, d >= 100;
        }
    }
}

} // verus!
