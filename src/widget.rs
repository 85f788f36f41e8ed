use vstd::prelude::*;
use crate::geometry::{Rect, clamp_i32, saturate_i32};

verus! {

/// Gap in pixels between a slider's edge, its label and its track.
pub const PADDING: i32 = 10;

/// `v` limited to `lo..=hi`.
pub open spec fn clamp(v: int, lo: int, hi: int) -> int {
    if v < lo {
        lo
    } else if v > hi {
        hi
    } else {
        v
    }
}

/// A horizontal slider. Its value is a fixed-point number in thousandths,
/// kept within `min..=max`. The track (`slide_bounds`) is the part of the
/// widget that reacts to the pointer; the label sits to its left.
#[derive(Clone, Copy, Debug)]
pub struct Slider {
    pub bounds: Rect,
    pub slide_bounds: Rect,
    pub value: i32,
    pub min: i32,
    pub max: i32,
}

impl Slider {
    pub open spec fn wf(self) -> bool {
        self.min <= self.value <= self.max
    }

    /// Width of the track in pixels.
    pub open spec fn track_width(self) -> int {
        self.slide_bounds.max_x - self.slide_bounds.min_x
    }

    /// The value that a pointer at column `x` of the track selects: the
    /// position of `x` along the track mapped linearly onto `min..=max`,
    /// rounded down. A track of zero width selects `min`.
    pub open spec fn value_at(self, x: int) -> int {
        if self.track_width() <= 0 {
            self.min as int
        } else {
            self.min + (self.max - self.min) * (x - self.slide_bounds.min_x) / self.track_width()
        }
    }

    /// The value after the captured pointer moved to column `x`: below the
    /// track it is `min`, beyond it `max`, else the value at `x`.
    pub open spec fn dragged_value(self, x: int) -> int {
        if x < self.slide_bounds.min_x {
            self.min as int
        } else if x > self.slide_bounds.max_x {
            self.max as int
        } else {
            self.value_at(x)
        }
    }

    /// The track for a label of the given size: it starts after the label
    /// and both paddings, ends one padding before the right edge, and is as
    /// tall as the label, centred vertically.
    pub open spec fn track_for(self, label_width: int, label_height: int) -> Rect {
        let top = self.bounds.min_y + (self.bounds.max_y - self.bounds.min_y - label_height) / 2;
        Rect {
            min_x: clamp_i32(self.bounds.min_x + 2 * PADDING + label_width) as i32,
            min_y: clamp_i32(top) as i32,
            max_x: clamp_i32(self.bounds.max_x - PADDING) as i32,
            max_y: clamp_i32(top + label_height) as i32,
        }
    }

    /// A slider over `0..=1000` at `500`, with no area yet.
    pub fn new() -> (r: Slider)
        ensures
            r.wf(),
            r.bounds == Rect::zero_spec(),
            r.slide_bounds == Rect::zero_spec(),
            r.value == 500,
            r.min == 0,
            r.max == 1000,
    {
        Slider { bounds: Rect::zero(), slide_bounds: Rect::zero(), value: 500, min: 0, max: 1000 }
    }

    pub fn with_min_max(self, min: i32, max: i32) -> (r: Slider)
        requires
            min <= max,
        ensures
            r.wf(),
            r.min == min,
            r.max == max,
            r.value == clamp(self.value as int, min as int, max as int),
            r.bounds == self.bounds,
            r.slide_bounds == self.slide_bounds,
    {
        let mut s = self;
        s.min = min;
        s.max = max;
        s.value = clamp_value(self.value, min, max);
        s
    }

    pub fn with_value(self, value: i32) -> (r: Slider)
        requires
            self.wf(),
        ensures
            r.wf(),
            r == (Slider { value: clamp(value as int, self.min as int, self.max as int) as i32, ..self }),
    {
        let mut s = self;
        s.set_value(value);
        s
    }

    pub fn value(&self) -> (r: i32)
        ensures
            r == self.value,
    {
        self.value
    }

    pub fn set_value(&mut self, value: i32)
        requires
            old(self).wf(),
        ensures
            final(self).wf(),
            *final(self) == (Slider { value: clamp(value as int, old(self).min as int, old(self).max as int) as i32, ..*old(self) }),
    {
        self.value = clamp_value(value, self.min, self.max);
    }

    /// Places the track for a label of the given size (see `track_for`).
    pub fn layout_track(&mut self, label_width: i32, label_height: i32)
        ensures
            *final(self) == (Slider { slide_bounds: old(self).track_for(label_width as int, label_height as int), ..*old(self) }),
    {
        let height = self.bounds.max_y as i64 - self.bounds.min_y as i64;
        let half = match (height - label_height as i64).checked_div_euclid(2) {
            Some(h) => h,
            None => 0,
        };
        let top = self.bounds.min_y as i64 + half;
        self.slide_bounds = Rect {
            min_x: saturate_i32(self.bounds.min_x as i64 + 2 * PADDING as i64 + label_width as i64),
            min_y: saturate_i32(top),
            max_x: saturate_i32(self.bounds.max_x as i64 - PADDING as i64),
            max_y: saturate_i32(top + label_height as i64),
        };
    }

    /// Width in pixels of the filled part of the track: the track's width
    /// times the value's position within `min..=max`, rounded down; zero
    /// when the track has no width or the range is a single value.
    pub fn progress_width(&self) -> (r: i64)
        requires
            self.wf(),
        ensures
            r == if self.track_width() <= 0 || self.max == self.min {
                0
            } else {
                self.track_width() * (self.value - self.min) / (self.max - self.min)
            },
            0 <= r,
            r <= self.track_width() || r == 0,
    {
        let w = self.slide_bounds.max_x as i64 - self.slide_bounds.min_x as i64;
        if w <= 0 || self.max == self.min {
            return 0;
        }
        proof {
            let a = w as int;
            let b = self.value - self.min;
            assert(a * b <= 0x1_0000_0000 * 0x1_0000_0000) by (nonlinear_arith)
                requires 0 <= a <= 0x1_0000_0000, 0 <= b <= 0x1_0000_0000;
        }
        let num = (w as u128) * ((self.value as i64 - self.min as i64) as u128);
        let den = (self.max as i64 - self.min as i64) as u128;
        proof {
            let a = w as int;
            let b = self.value - self.min;
            let c = self.max - self.min;
            assert(0 <= b <= c);
            assert(a * b <= a * c) by (nonlinear_arith) requires 0 <= b <= c, 0 < a;
            assert((a * b) / c <= a) by (nonlinear_arith) requires a * b <= a * c, 0 < c, 0 <= a * b;
            assert(0 <= (a * b) / c) by (nonlinear_arith) requires 0 < c, 0 <= a * b;
        }
        (num / den) as i64
    }

    /// Pointer pressed at `(x, y)`: on the track it sets the value from `x`
    /// and claims the pointer (true); elsewhere nothing changes (false).
    pub fn on_mouse_down(&mut self, x: i32, y: i32) -> (claimed: bool)
        requires
            old(self).wf(),
        ensures
            final(self).wf(),
            claimed == old(self).slide_bounds.spec_contains(x as int, y as int),
            claimed ==> *final(self) == (Slider { value: old(self).value_at(x as int) as i32, ..*old(self) }),
            !claimed ==> *final(self) == *old(self),
    {
        if self.slide_bounds.contains(x, y) {
            self.update_value(x);
            return true;
        }
        false
    }

    /// Pointer released: a slider keeps its value.
    pub fn on_mouse_up(&mut self)
        ensures
            *final(self) == *old(self),
    {
    }

    /// The captured pointer moved to `(x, _y)`: see `dragged_value`.
    pub fn on_mouse_dragged(&mut self, x: i32, _y: i32)
        requires
            old(self).wf(),
        ensures
            final(self).wf(),
            *final(self) == (Slider { value: old(self).dragged_value(x as int) as i32, ..*old(self) }),
    {
        if x < self.slide_bounds.min_x {
            self.value = self.min;
            return;
        }
        if x > self.slide_bounds.max_x {
            self.value = self.max;
            return;
        }
        self.update_value(x);
    }

    fn update_value(&mut self, x: i32)
        requires
            old(self).wf(),
            old(self).slide_bounds.min_x <= x <= old(self).slide_bounds.max_x,
        ensures
            final(self).wf(),
            *final(self) == (Slider { value: old(self).value_at(x as int) as i32, ..*old(self) }),
    {
        let w = self.slide_bounds.max_x as i64 - self.slide_bounds.min_x as i64;
        if w <= 0 {
            self.value = self.min;
            return;
        }
        let span = (self.max as i64 - self.min as i64) as u128;
        let offset = (x as i64 - self.slide_bounds.min_x as i64) as u128;
        proof {
            let a = span as int;
            let b = offset as int;
            let c = w as int;
            assert(a * b <= a * c) by (nonlinear_arith) requires 0 <= b <= c, 0 <= a;
            assert((a * b) / c <= a) by (nonlinear_arith) requires a * b <= a * c, 0 < c, 0 <= a * b;
            assert(0 <= (a * b) / c) by (nonlinear_arith) requires 0 < c, 0 <= a * b;
            assert(a * b <= 0x1_0000_0000 * 0x1_0000_0000) by (nonlinear_arith)
                requires 0 <= a <= 0x1_0000_0000, 0 <= b <= 0x1_0000_0000;
        }
        let step = (span * offset / (w as u128)) as i64;
        self.value = (self.min as i64 + step) as i32;
    }

    /// Pointer hovering without capture: a slider does not react.
    pub fn on_mouse_moved(&mut self, _x: i32, _y: i32)
        ensures
            *final(self) == *old(self),
    {
    }
}

fn clamp_value(v: i32, lo: i32, hi: i32) -> (r: i32)
    requires
        lo <= hi,
    ensures
        r == clamp(v as int, lo as int, hi as int),
{
    if v < lo {
        lo
    } else if v > hi {
        hi
    } else {
        v
    }
}

} // verus!
