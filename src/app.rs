use vstd::prelude::*;
use crate::camera::OrbitCamera;
use crate::geometry::{Rect, clamp_i32, saturate_i32};
use crate::light::{Axis, LightAnimator, LightPlacement};
use crate::slots::{SliderSlots, entry_keys, has_key, lemma_insert_fresh, lemma_set_is_update, slider_entries};
use crate::view::{
    CompositeInputs, CompositePipeline, FramePass, GBufferTargets, GTarget, RenderSource, composite_inputs,
    frame_passes, frame_passes_spec, gbuffer_of,
};
use crate::widget::Slider;

verus! {

/// Keys the viewer reacts to; every other key is `Other`.
#[derive(Clone, Copy, Debug, PartialEq, Eq, Structural)]
pub enum KeyCode {
    KeyR,
    Digit1,
    Digit2,
    Digit3,
    Digit4,
    KeyL,
    ArrowLeft,
    ArrowRight,
    ArrowUp,
    ArrowDown,
    PageUp,
    PageDown,
    Other,
}

#[derive(Clone, Copy, Debug, PartialEq, Eq, Structural)]
pub enum MouseButton {
    Left,
    Right,
    Middle,
    Other,
}

/// Width and height in pixels of a slider of the overlay.
pub const SLIDER_WIDTH: i32 = 300;

pub const SLIDER_HEIGHT: i32 = 40;

/// Gap in pixels between the sliders and the right edge of the window.
pub const SLIDER_MARGIN: i32 = 10;

/// How far one key press moves a light held by hand (0.5 units).
pub const NUDGE: i32 = 500;

/// The light sliders span -5 to 5 units.
pub const LIGHT_RANGE: i32 = 5000;

/// What one frame draws and from where.
#[derive(Debug)]
pub struct FramePlan {
    pub light: LightPlacement,
    pub camera: OrbitCamera,
    pub passes: Vec<FramePass>,
}

#[derive(Clone, Copy, Debug, PartialEq, Eq, Structural)]
pub enum FrameError {
    /// The G-buffer does not have the surface's size: a resize is pending.
    TargetSizeMismatch,
}

/// The viewer's state between frames: camera, light, debug view, G-buffer
/// size, the overlay's sliders and which of them holds the pointer.
pub struct App {
    pub camera: OrbitCamera,
    pub light: LightAnimator,
    pub render_source: RenderSource,
    pub gbuffer: GBufferTargets,
    pub sliders: SliderSlots,
    pub active_slider: Option<u64>,
    pub last_mouse_position: (i32, i32),
    pub light_x_id: u64,
    pub light_y_id: u64,
    pub light_z_id: u64,
}

/// `App` as plain values.
pub struct AppModel {
    pub camera: OrbitCamera,
    pub light: LightAnimator,
    pub render_source: RenderSource,
    pub gbuffer: GBufferTargets,
    pub entries: Seq<(u64, Slider)>,
    pub active_slider: Option<u64>,
    pub last_mouse_position: (i32, i32),
    pub light_ids: (u64, u64, u64),
}

impl View for App {
    type V = AppModel;

    open spec fn view(&self) -> AppModel {
        AppModel {
            camera: self.camera,
            light: self.light,
            render_source: self.render_source,
            gbuffer: self.gbuffer,
            entries: slider_entries(self.sliders),
            active_slider: self.active_slider,
            last_mouse_position: self.last_mouse_position,
            light_ids: (self.light_x_id, self.light_y_id, self.light_z_id),
        }
    }
}

/// A press at `(x, y)` is taken by a slider when it falls in the slider and
/// on its track.
pub open spec fn claims(s: Slider, x: int, y: int) -> bool {
    s.bounds.spec_contains(x, y) && s.slide_bounds.spec_contains(x, y)
}

pub open spec fn any_claim(e: Seq<(u64, Slider)>, x: int, y: int) -> bool {
    exists|i: int| 0 <= i < e.len() && claims(#[trigger] e[i].1, x, y)
}

/// `i` is the first slider, in slot order, that takes a press at `(x, y)`.
pub open spec fn is_first_claim(e: Seq<(u64, Slider)>, i: int, x: int, y: int) -> bool {
    &&& 0 <= i < e.len()
    &&& claims(e[i].1, x, y)
    &&& forall|j: int| 0 <= j < i ==> !claims(#[trigger] e[j].1, x, y)
}

pub open spec fn first_claim(e: Seq<(u64, Slider)>, x: int, y: int) -> int {
    choose|i: int| is_first_claim(e, i, x, y)
}

pub open spec fn any_hover(e: Seq<(u64, Slider)>, x: int, y: int) -> bool {
    exists|i: int| 0 <= i < e.len() && (#[trigger] e[i].1).bounds.spec_contains(x, y)
}

/// The value of the slider stored under `k`.
pub open spec fn value_of(e: Seq<(u64, Slider)>, k: u64) -> i32 {
    e[choose|i: int| 0 <= i < e.len() && e[i].0 == k].1.value
}

/// Where slider number `i` of a window `w` pixels wide goes: stacked down
/// from the top right corner.
pub open spec fn slider_rect(w: int, i: int) -> Rect {
    Rect {
        min_x: clamp_i32(w - SLIDER_MARGIN - SLIDER_WIDTH) as i32,
        min_y: clamp_i32(i * SLIDER_HEIGHT) as i32,
        max_x: clamp_i32(w - SLIDER_MARGIN) as i32,
        max_y: clamp_i32(i * SLIDER_HEIGHT + SLIDER_HEIGHT) as i32,
    }
}

pub open spec fn nudge_of(key: KeyCode) -> Option<(Axis, i32)> {
    match key {
        KeyCode::ArrowLeft => Some((Axis::X, (-NUDGE) as i32)),
        KeyCode::ArrowRight => Some((Axis::X, NUDGE)),
        KeyCode::ArrowUp => Some((Axis::Z, NUDGE)),
        KeyCode::ArrowDown => Some((Axis::Z, (-NUDGE) as i32)),
        KeyCode::PageUp => Some((Axis::Y, NUDGE)),
        KeyCode::PageDown => Some((Axis::Y, (-NUDGE) as i32)),
        _ => None,
    }
}

impl AppModel {
    pub open spec fn wf(self) -> bool {
        &&& self.camera.wf()
        &&& self.light.wf()
        &&& self.gbuffer.sized(self.gbuffer.depth.width, self.gbuffer.depth.height)
        &&& forall|i: int| 0 <= i < self.entries.len() ==> (#[trigger] self.entries[i].1).wf()
        &&& entry_keys(self.entries).no_duplicates()
        &&& self.entries.len() < u32::MAX
        &&& (self.active_slider matches Some(k) ==> has_key(self.entries, k))
        &&& has_key(self.entries, self.light_ids.0)
        &&& has_key(self.entries, self.light_ids.1)
        &&& has_key(self.entries, self.light_ids.2)
    }

    /// The light position that the three light sliders show.
    pub open spec fn slider_light(self) -> (i32, i32, i32) {
        (
            value_of(self.entries, self.light_ids.0),
            value_of(self.entries, self.light_ids.1),
            value_of(self.entries, self.light_ids.2),
        )
    }

    /// A slider changed: a light held by hand follows the sliders.
    pub open spec fn sync_light(self) -> AppModel {
        AppModel { light: self.light.set_manual_spec(self.slider_light()), ..self }
    }

    /// Pointer pressed with `b` where it last was: the first slider that
    /// takes the press gets it and holds the pointer; if none does, the left
    /// button starts rotating the camera.
    pub open spec fn mouse_down(self, b: MouseButton) -> AppModel {
        let x = self.last_mouse_position.0 as int;
        let y = self.last_mouse_position.1 as int;
        if any_claim(self.entries, x, y) {
            let i = first_claim(self.entries, x, y);
            let (k, s) = self.entries[i];
            AppModel {
                entries: self.entries.update(i, (k, Slider { value: s.value_at(x) as i32, ..s })),
                active_slider: Some(k),
                ..self
            }.sync_light()
        } else if b == MouseButton::Left {
            AppModel { camera: self.camera.start_spec(x, y), ..self }
        } else {
            self
        }
    }

    /// Pointer released: a slider that held it lets go, and only otherwise
    /// does the left button end a camera rotation.
    pub open spec fn mouse_up(self, b: MouseButton) -> AppModel {
        if self.active_slider.is_some() {
            AppModel { active_slider: None, ..self }
        } else if b == MouseButton::Left {
            AppModel { camera: self.camera.end_spec(), ..self }
        } else {
            self
        }
    }

    /// Pointer moved to `(x, y)`: a slider that holds the pointer follows it
    /// wherever it goes; else hovering over a slider does nothing more; else
    /// a rotation under way turns the camera.
    pub open spec fn mouse_moved(self, x: i32, y: i32) -> AppModel {
        let m = AppModel { last_mouse_position: (x, y), ..self };
        match self.active_slider {
            Some(k) => AppModel {
                entries: self.entries.map_values(
                    |p: (u64, Slider)|
                        if p.0 == k {
                            (k, Slider { value: p.1.dragged_value(x as int) as i32, ..p.1 })
                        } else {
                            p
                        },
                ),
                ..m
            }.sync_light(),
            None => if any_hover(self.entries, x as int, y as int) {
                m
            } else {
                AppModel { camera: self.camera.drag_to_spec(x as int, y as int), ..m }
            },
        }
    }

    pub open spec fn key_pressed(self, key: KeyCode) -> AppModel {
        match key {
            KeyCode::KeyR => AppModel { camera: self.camera.reset_spec(), ..self },
            KeyCode::Digit1 => AppModel { render_source: RenderSource::Final, ..self },
            KeyCode::Digit2 => AppModel { render_source: RenderSource::Albedo, ..self },
            KeyCode::Digit3 => AppModel { render_source: RenderSource::Position, ..self },
            KeyCode::Digit4 => AppModel { render_source: RenderSource::Normal, ..self },
            KeyCode::KeyL => AppModel { light: self.light.toggle_spec(), ..self }.sync_light(),
            _ => match nudge_of(key) {
                Some((axis, d)) => AppModel { light: self.light.nudge_spec(axis, d), ..self },
                None => self,
            },
        }
    }

    /// The surface became `w` by `h`: new G-buffer targets of that size, and
    /// the sliders stacked down from the top right corner.
    pub open spec fn resized(self, w: u32, h: u32) -> AppModel {
        AppModel {
            gbuffer: gbuffer_of(w, h),
            entries: self.entries.map(
                |i: int, p: (u64, Slider)| (p.0, Slider { bounds: slider_rect(w as int, i), ..p.1 }),
            ),
            ..self
        }
    }

    pub open spec fn frame_ok(self, w: u32, h: u32) -> bool {
        self.gbuffer.sized(w, h)
    }

    /// The state after a frame that took `dt_micros` microseconds: the light
    /// moved on, nothing else changed.
    pub open spec fn rendered(self, dt_micros: int) -> AppModel {
        AppModel { light: self.light.advance_spec(dt_micros), ..self }
    }
}

impl App {
    /// The slider stored under `k`, which the map holds.
    fn slider_at(&self, k: u64) -> (r: Slider)
        requires
            has_key(self@.entries, k),
        ensures
            forall|i: int| 0 <= i < self@.entries.len() && #[trigger] self@.entries[i].0 == k ==> r == self@.entries[i].1,
    {
        match self.sliders.get(k) {
            Some(s) => s,
            None => {
                proof {
                    let i = choose|i: int| 0 <= i < self@.entries.len() && self@.entries[i].0 == k;
                    assert(self@.entries[i].0 == k);
                }
                Slider::new()
            },
        }
    }

    fn slider_value(&self, k: u64) -> (r: i32)
        requires
            has_key(self@.entries, k),
        ensures
            r == value_of(self@.entries, k),
    {
        let s = self.slider_at(k);
        proof {
            let i = choose|i: int| 0 <= i < self@.entries.len() && self@.entries[i].0 == k;
            assert(self@.entries[i].0 == k);
        }
        s.value
    }

    /// A light held by hand takes the position that the sliders show.
    fn sync_light(&mut self)
        requires
            has_key(old(self)@.entries, old(self).light_x_id),
            has_key(old(self)@.entries, old(self).light_y_id),
            has_key(old(self)@.entries, old(self).light_z_id),
        ensures
            final(self)@ == old(self)@.sync_light(),
    {
        let x = self.slider_value(self.light_x_id);
        let y = self.slider_value(self.light_y_id);
        let z = self.slider_value(self.light_z_id);
        self.light.set_manual_position((x, y, z));
    }

    /// The viewer as it starts on a `width` by `height` surface: camera and
    /// light at their starting places, the lit view, and three light sliders
    /// (-5 to 5, at 0.5) that the light follows. The sliders get their
    /// places on the first resize.
    pub fn new(width: u32, height: u32) -> (r: App)
        ensures
            r@.wf(),
            r@.camera == (OrbitCamera { yaw: 90, pitch: 0, distance: 10_000, drag: None }),
            r@.light == LightAnimator::new_spec((500, 500, 500)),
            r@.render_source == RenderSource::Final,
            r@.gbuffer == gbuffer_of(width, height),
            r@.active_slider.is_none(),
            r@.last_mouse_position == (0i32, 0i32),
            r@.entries.len() == 3,
            forall|i: int| 0 <= i < 3 ==> (#[trigger] r@.entries[i]).1 == light_slider(),
            r@.light_ids.0 != r@.light_ids.1 && r@.light_ids.0 != r@.light_ids.2 && r@.light_ids.1 != r@.light_ids.2,
    {
        let template = Slider::new().with_min_max(-LIGHT_RANGE, LIGHT_RANGE);
        let mut sliders = SliderSlots::new();
        let ghost e0 = slider_entries(sliders);
        let x_id = sliders.insert(template);
        let ghost e1 = slider_entries(sliders);
        proof {
            let i = choose|i: int| 0 <= i <= e0.len() && e1 == e0.insert(i, (x_id, template));
            assert(entry_keys(e0) =~= Seq::<u64>::empty());
            lemma_insert_fresh(e0, e1, i, x_id, template);
        }
        let y_id = sliders.insert(template);
        let ghost e2 = slider_entries(sliders);
        proof {
            let i = choose|i: int| 0 <= i <= e1.len() && e2 == e1.insert(i, (y_id, template));
            lemma_insert_fresh(e1, e2, i, y_id, template);
        }
        let z_id = sliders.insert(template);
        let ghost e3 = slider_entries(sliders);
        proof {
            let i = choose|i: int| 0 <= i <= e2.len() && e3 == e2.insert(i, (z_id, template));
            lemma_insert_fresh(e2, e3, i, z_id, template);
            assert forall|j: int| 0 <= j < e3.len() implies (#[trigger] e3[j]).1 == template by {
                if e3[j] != (z_id, template) {
                    let m2 = choose|m: int| 0 <= m < e2.len() && e3[j] == e2[m];
                    if e2[m2] != (y_id, template) {
                        let m1 = choose|m: int| 0 <= m < e1.len() && e2[m2] == e1[m];
                        assert(e1[m1] == (x_id, template)) by {
                            assert(e1.len() == 1);
                            assert(e1[0] == (x_id, template));
                        }
                    }
                }
            }
            assert(has_key(e2, x_id));
        }
        let light = LightAnimator::new((template.value, template.value, template.value));
        App {
            camera: OrbitCamera::new(),
            light,
            render_source: RenderSource::Final,
            gbuffer: GBufferTargets::create(width, height),
            sliders,
            active_slider: None,
            last_mouse_position: (0, 0),
            light_x_id: x_id,
            light_y_id: y_id,
            light_z_id: z_id,
        }
    }
}

/// A light slider as made: -5 to 5 units, at 0.5, with no place yet.
pub open spec fn light_slider() -> Slider {
    Slider {
        bounds: Rect::zero_spec(),
        slide_bounds: Rect::zero_spec(),
        value: 500,
        min: (-LIGHT_RANGE) as i32,
        max: LIGHT_RANGE,
    }
}

impl App {
    /// See `AppModel::resized`.
    pub fn resize(&mut self, width: u32, height: u32)
        requires
            old(self)@.wf(),
        ensures
            final(self)@.wf(),
            final(self)@ == old(self)@.resized(width, height),
    {
        self.gbuffer.resize(width, height);
        let keys = self.sliders.keys();
        let ghost e0 = self@.entries;
        let ghost target = old(self)@.resized(width, height).entries;
        let left = saturate_i32(width as i64 - SLIDER_MARGIN as i64 - SLIDER_WIDTH as i64);
        let right = saturate_i32(width as i64 - SLIDER_MARGIN as i64);
        let mut i: usize = 0;
        while i < keys.len()
            invariant
                keys@ == entry_keys(e0),
                keys@.no_duplicates(),
                keys@.len() < u32::MAX,
                e0 == old(self)@.entries,
                target == old(self)@.resized(width, height).entries,
                left == clamp_i32(width - SLIDER_MARGIN - SLIDER_WIDTH),
                right == clamp_i32(width - SLIDER_MARGIN),
                i <= keys@.len(),
                self@.entries.len() == e0.len(),
                entry_keys(self@.entries) == entry_keys(e0),
                forall|j: int| 0 <= j < i ==> #[trigger] self@.entries[j] == target[j],
                forall|j: int| i <= j < e0.len() ==> #[trigger] self@.entries[j] == e0[j],
                self@.gbuffer == gbuffer_of(width, height),
                self.camera == old(self).camera,
                self.light == old(self).light,
                self.render_source == old(self).render_source,
                self.active_slider == old(self).active_slider,
                self.last_mouse_position == old(self).last_mouse_position,
                self.light_x_id == old(self).light_x_id,
                self.light_y_id == old(self).light_y_id,
                self.light_z_id == old(self).light_z_id,
            decreases keys@.len() - i,
        {
            let k = keys[i];
            let ghost cur = self@.entries;
            proof {
                assert(entry_keys(cur)[i as int] == cur[i as int].0);
            }
            let s = self.slider_at(k);
            let top = i as i64 * SLIDER_HEIGHT as i64;
            let placed = Slider {
                bounds: Rect {
                    min_x: left,
                    min_y: saturate_i32(top),
                    max_x: right,
                    max_y: saturate_i32(top + SLIDER_HEIGHT as i64),
                },
                ..s
            };
            self.sliders.set(k, placed);
            proof {
                lemma_set_is_update(cur, self@.entries, i as int, k, placed);
                assert(placed == target[i as int].1);
            }
            i = i + 1;
        }
        proof {
            assert(self@.entries =~= target);
            assert forall|j: int| 0 <= j < self@.entries.len() implies (#[trigger] self@.entries[j]).1.wf() by {
                assert(e0[j].1.wf());
            }
            lemma_keys_kept(old(self)@, self@);
        }
    }

    /// Places every slider's track for a label of the given size (see
    /// `Slider::track_for`).
    pub fn layout_tracks(&mut self, label_width: i32, label_height: i32)
        requires
            old(self)@.wf(),
        ensures
            final(self)@.wf(),
            final(self)@ == (AppModel {
                entries: old(self)@.entries.map_values(
                    |p: (u64, Slider)| (p.0, Slider { slide_bounds: p.1.track_for(label_width as int, label_height as int), ..p.1 }),
                ),
                ..old(self)@
            }),
    {
        let keys = self.sliders.keys();
        let ghost e0 = self@.entries;
        let ghost target = e0.map_values(
            |p: (u64, Slider)| (p.0, Slider { slide_bounds: p.1.track_for(label_width as int, label_height as int), ..p.1 }),
        );
        let mut i: usize = 0;
        while i < keys.len()
            invariant
                keys@ == entry_keys(e0),
                keys@.no_duplicates(),
                e0 == old(self)@.entries,
                target == e0.map_values(
                    |p: (u64, Slider)| (p.0, Slider { slide_bounds: p.1.track_for(label_width as int, label_height as int), ..p.1 }),
                ),
                i <= keys@.len(),
                self@.entries.len() == e0.len(),
                entry_keys(self@.entries) == entry_keys(e0),
                forall|j: int| 0 <= j < i ==> #[trigger] self@.entries[j] == target[j],
                forall|j: int| i <= j < e0.len() ==> #[trigger] self@.entries[j] == e0[j],
                self@.gbuffer == old(self)@.gbuffer,
                self.camera == old(self).camera,
                self.light == old(self).light,
                self.render_source == old(self).render_source,
                self.active_slider == old(self).active_slider,
                self.last_mouse_position == old(self).last_mouse_position,
                self.light_x_id == old(self).light_x_id,
                self.light_y_id == old(self).light_y_id,
                self.light_z_id == old(self).light_z_id,
            decreases keys@.len() - i,
        {
            let k = keys[i];
            let ghost cur = self@.entries;
            proof {
                assert(entry_keys(cur)[i as int] == cur[i as int].0);
            }
            let mut s = self.slider_at(k);
            s.layout_track(label_width, label_height);
            self.sliders.set(k, s);
            proof {
                lemma_set_is_update(cur, self@.entries, i as int, k, s);
            }
            i = i + 1;
        }
        proof {
            assert(self@.entries =~= target);
            assert forall|j: int| 0 <= j < self@.entries.len() implies (#[trigger] self@.entries[j]).1.wf() by {
                assert(e0[j].1.wf());
            }
            lemma_keys_kept(old(self)@, self@);
        }
    }
}

/// A state whose sliders changed only in place, keeping their keys, and
/// whose G-buffer targets share one size, stays well formed.
proof fn lemma_keys_kept(a: AppModel, b: AppModel)
    requires
        a.wf(),
        b.camera == a.camera,
        b.light == a.light,
        b.active_slider == a.active_slider,
        b.light_ids == a.light_ids,
        b.gbuffer.sized(b.gbuffer.depth.width, b.gbuffer.depth.height),
        b.entries.len() == a.entries.len(),
        entry_keys(b.entries) == entry_keys(a.entries),
        forall|i: int| 0 <= i < b.entries.len() ==> (#[trigger] b.entries[i]).1.wf(),
    ensures
        b.wf(),
        forall|k: u64| #[trigger] has_key(b.entries, k) == has_key(a.entries, k),
{
    assert forall|k: u64| #[trigger] has_key(b.entries, k) == has_key(a.entries, k) by {
        if has_key(a.entries, k) {
            let i = choose|i: int| 0 <= i < a.entries.len() && a.entries[i].0 == k;
            assert(entry_keys(a.entries)[i] == k);
            assert(entry_keys(b.entries)[i] == b.entries[i].0);
        }
        if has_key(b.entries, k) {
            let i = choose|i: int| 0 <= i < b.entries.len() && b.entries[i].0 == k;
            assert(entry_keys(b.entries)[i] == k);
            assert(entry_keys(a.entries)[i] == a.entries[i].0);
        }
    }
}

impl App {
    /// See `AppModel::mouse_down`.
    pub fn on_mouse_down(&mut self, button: MouseButton)
        requires
            old(self)@.wf(),
        ensures
            final(self)@.wf(),
            final(self)@ == old(self)@.mouse_down(button),
    {
        let (x, y) = self.last_mouse_position;
        let keys = self.sliders.keys();
        let ghost e0 = self@.entries;
        let mut i: usize = 0;
        while i < keys.len()
            invariant
                keys@ == entry_keys(e0),
                keys@.no_duplicates(),
                e0 == self@.entries,
                self@ == old(self)@,
                (x, y) == self.last_mouse_position,
                old(self)@.wf(),
                i <= keys@.len(),
                forall|j: int| 0 <= j < i ==> !claims(#[trigger] e0[j].1, x as int, y as int),
            decreases keys@.len() - i,
        {
            let k = keys[i];
            proof {
                assert(entry_keys(e0)[i as int] == e0[i as int].0);
            }
            let mut s = self.slider_at(k);
            if s.bounds.contains(x, y) && s.on_mouse_down(x, y) {
                // The slider took the press: it holds the pointer until release.
                self.sliders.set(k, s);
                self.active_slider = Some(k);
                proof {
                    lemma_set_is_update(e0, self@.entries, i as int, k, s);
                    assert forall|j: int| 0 <= j < self@.entries.len() implies (#[trigger] self@.entries[j]).1.wf() by {
                        assert(e0[j].1.wf());
                    }
                    assert(is_first_claim(e0, i as int, x as int, y as int));
                    let c = first_claim(e0, x as int, y as int);
                    assert(is_first_claim(e0, c, x as int, y as int));
                    assert(c == i as int);
                    lemma_keys_kept(old(self)@, AppModel { active_slider: old(self)@.active_slider, ..self@ });
                    assert(has_key(self@.entries, k)) by {
                        assert(self@.entries[i as int].0 == k);
                    }
                }
                self.sync_light();
                return;
            }
            i = i + 1;
        }
        if button == MouseButton::Left {
            self.camera.on_drag_start(x, y);
        }
    }
}

impl App {
    /// See `AppModel::mouse_up`.
    pub fn on_mouse_up(&mut self, button: MouseButton)
        requires
            old(self)@.wf(),
        ensures
            final(self)@.wf(),
            final(self)@ == old(self)@.mouse_up(button),
    {
        if let Some(k) = self.active_slider {
            let mut s = self.slider_at(k);
            s.on_mouse_up();
            let ghost e0 = self@.entries;
            self.sliders.set(k, s);
            proof {
                assert(self@.entries =~= e0);
            }
            self.active_slider = None;
            return;
        }
        if button == MouseButton::Left {
            self.camera.on_drag_end();
        }
    }

    /// Scrolling zooms the camera (see `OrbitCamera::on_scroll`).
    pub fn on_mouse_wheel(&mut self, delta: i32)
        requires
            old(self)@.wf(),
        ensures
            final(self)@.wf(),
            final(self)@ == (AppModel { camera: final(self)@.camera, ..old(self)@ }),
            final(self).camera == (OrbitCamera {
                distance: crate::camera::zoomed(old(self).camera.distance as int, delta as int) as u32,
                ..old(self).camera
            }),
    {
        self.camera.on_scroll(delta);
    }

    /// See `AppModel::mouse_moved`.
    pub fn on_mouse_moved(&mut self, x: i32, y: i32)
        requires
            old(self)@.wf(),
        ensures
            final(self)@.wf(),
            final(self)@ == old(self)@.mouse_moved(x, y),
    {
        self.last_mouse_position = (x, y);
        if let Some(k) = self.active_slider {
            let mut s = self.slider_at(k);
            s.on_mouse_dragged(x, y);
            let ghost e0 = self@.entries;
            self.sliders.set(k, s);
            proof {
                assert(self@.entries =~= e0.map_values(
                    |p: (u64, Slider)|
                        if p.0 == k {
                            (k, Slider { value: p.1.dragged_value(x as int) as i32, ..p.1 })
                        } else {
                            p
                        },
                ));
                assert forall|j: int| 0 <= j < self@.entries.len() implies (#[trigger] self@.entries[j]).1.wf() by {
                    assert(e0[j].1.wf());
                }
                assert(entry_keys(self@.entries) =~= entry_keys(e0));
                lemma_keys_kept(AppModel { last_mouse_position: old(self).last_mouse_position, entries: e0, ..self@ }, self@);
            }
            self.sync_light();
            return;
        }
        let keys = self.sliders.keys();
        let ghost e0 = self@.entries;
        let mut i: usize = 0;
        while i < keys.len()
            invariant
                keys@ == entry_keys(e0),
                e0 == self@.entries,
                self@ == (AppModel { last_mouse_position: (x, y), ..old(self)@ }),
                old(self)@.wf(),
                old(self).active_slider.is_none(),
                i <= keys@.len(),
                forall|j: int| 0 <= j < i ==> !(#[trigger] e0[j].1).bounds.spec_contains(x as int, y as int),
            decreases keys@.len() - i,
        {
            let k = keys[i];
            proof {
                assert(entry_keys(e0)[i as int] == e0[i as int].0);
            }
            let mut s = self.slider_at(k);
            if s.bounds.contains(x, y) {
                // Hovering: the slider does not react, and the camera keeps still.
                s.on_mouse_moved(x, y);
                self.sliders.set(k, s);
                proof {
                    assert(self@.entries =~= e0);
                    assert(any_hover(e0, x as int, y as int)) by {
                        assert(e0[i as int].1.bounds.spec_contains(x as int, y as int));
                    }
                    assert(e0 == old(self)@.entries);
                    assert(self@ == (AppModel { last_mouse_position: (x, y), ..old(self)@ }));
                }
                return;
            }
            i = i + 1;
        }
        self.camera.on_drag_delta(x, y);
    }

    /// See `AppModel::key_pressed`.
    pub fn on_key_pressed(&mut self, key_code: KeyCode)
        requires
            old(self)@.wf(),
        ensures
            final(self)@.wf(),
            final(self)@ == old(self)@.key_pressed(key_code),
    {
        match key_code {
            KeyCode::KeyR => self.camera.reset(),
            KeyCode::Digit1 => self.render_source = RenderSource::Final,
            KeyCode::Digit2 => self.render_source = RenderSource::Albedo,
            KeyCode::Digit3 => self.render_source = RenderSource::Position,
            KeyCode::Digit4 => self.render_source = RenderSource::Normal,
            KeyCode::KeyL => {
                self.light.toggle_orbit();
                self.sync_light();
            },
            KeyCode::ArrowLeft => self.light.nudge(Axis::X, -NUDGE),
            KeyCode::ArrowRight => self.light.nudge(Axis::X, NUDGE),
            KeyCode::ArrowUp => self.light.nudge(Axis::Z, NUDGE),
            KeyCode::ArrowDown => self.light.nudge(Axis::Z, -NUDGE),
            KeyCode::PageUp => self.light.nudge(Axis::Y, NUDGE),
            KeyCode::PageDown => self.light.nudge(Axis::Y, -NUDGE),
            KeyCode::Other => {},
        }
    }

    /// Releasing a key does nothing.
    pub fn on_key_released(&mut self, _key_code: KeyCode)
        ensures
            final(self)@ == old(self)@,
    {
    }

    /// Steps the frame: when the G-buffer has the surface's size, the light
    /// moves on by `dt_micros` microseconds and the plan says where light
    /// and camera stand and which passes run; otherwise the frame is refused
    /// and nothing changes.
    pub fn render(&mut self, dt_micros: u64, surface_width: u32, surface_height: u32) -> (r: Result<FramePlan, FrameError>)
        requires
            old(self)@.wf(),
        ensures
            final(self)@.wf(),
            r.is_ok() <==> old(self)@.frame_ok(surface_width, surface_height),
            r is Err ==> final(self)@ == old(self)@ && r == Err::<FramePlan, FrameError>(FrameError::TargetSizeMismatch),
            r matches Ok(plan) ==> {
                &&& final(self)@ == old(self)@.rendered(dt_micros as int)
                &&& plan.light == old(self)@.rendered(dt_micros as int).light.placement_spec()
                &&& plan.camera == old(self).camera
                &&& plan.passes@ == frame_passes_spec(old(self).render_source)
            },
    {
        if !self.gbuffer.matches(surface_width, surface_height) {
            return Err(FrameError::TargetSizeMismatch);
        }
        self.light.advance(dt_micros);
        Ok(FramePlan {
            light: self.light.placement(),
            camera: self.camera,
            passes: frame_passes(self.render_source),
        })
    }

    /// The slider stored under `k`, if any.
    pub fn slider(&self, k: u64) -> (r: Option<Slider>)
        ensures
            forall|i: int| 0 <= i < self@.entries.len() && #[trigger] self@.entries[i].0 == k ==> r == Some(self@.entries[i].1),
    {
        self.sliders.get(k)
    }

    /// The sliders' keys in slot order, the order in which they are laid out
    /// and hit-tested.
    pub fn slider_keys(&self) -> (r: Vec<u64>)
        ensures
            r@ == entry_keys(self@.entries),
    {
        self.sliders.keys()
    }
}

/// A slider that takes a press holds the pointer: wherever the pointer then
/// goes, however far outside the slider, the slider follows it, and the
/// camera does not turn.
pub proof fn lemma_captured_slider_follows_pointer(m: AppModel, b: MouseButton, x: i32, y: i32)
    requires
        m.wf(),
        any_claim(m.entries, m.last_mouse_position.0 as int, m.last_mouse_position.1 as int),
    ensures
        ({
            let px = m.last_mouse_position.0 as int;
            let py = m.last_mouse_position.1 as int;
            let i = first_claim(m.entries, px, py);
            let k = m.entries[i].0;
            let pressed = m.mouse_down(b);
            let moved = pressed.mouse_moved(x, y);
            &&& 0 <= i < m.entries.len()
            &&& claims(m.entries[i].1, px, py)
            &&& pressed.active_slider == Some(k)
            &&& pressed.entries[i] == (k, Slider { value: m.entries[i].1.value_at(px) as i32, ..m.entries[i].1 })
            &&& moved.active_slider == Some(k)
            &&& moved.entries.len() == m.entries.len()
            &&& moved.entries[i] == (k, Slider { value: pressed.entries[i].1.dragged_value(x as int) as i32, ..pressed.entries[i].1 })
            &&& moved.camera == m.camera
            &&& forall|j: int| 0 <= j < m.entries.len() && j != i ==> #[trigger] moved.entries[j] == m.entries[j]
            &&& x > m.entries[i].1.slide_bounds.max_x ==> moved.entries[i].1.value == m.entries[i].1.max
            &&& x < m.entries[i].1.slide_bounds.min_x ==> moved.entries[i].1.value == m.entries[i].1.min
        }),
{
    let px = m.last_mouse_position.0 as int;
    let py = m.last_mouse_position.1 as int;
    let w = choose|i: int| 0 <= i < m.entries.len() && claims(#[trigger] m.entries[i].1, px, py);
    lemma_first_claim_exists(m.entries, px, py, w);
    let i = first_claim(m.entries, px, py);
    let k = m.entries[i].0;
    let pressed = m.mouse_down(b);
    let moved = pressed.mouse_moved(x, y);
    assert forall|j: int| 0 <= j < m.entries.len() && j != i implies #[trigger] moved.entries[j] == m.entries[j] by {
        assert(entry_keys(m.entries)[j] == m.entries[j].0);
        assert(entry_keys(m.entries)[i] == m.entries[i].0);
        assert(pressed.entries[j] == m.entries[j]);
    }
}

/// Where some slider takes a press, a first one does.
proof fn lemma_first_claim_exists(e: Seq<(u64, Slider)>, x: int, y: int, w: int)
    requires
        0 <= w < e.len(),
        claims(e[w].1, x, y),
    ensures
        is_first_claim(e, first_claim(e, x, y), x, y),
    decreases w,
{
    if exists|j: int| 0 <= j < w && claims(#[trigger] e[j].1, x, y) {
        let j = choose|j: int| 0 <= j < w && claims(#[trigger] e[j].1, x, y);
        lemma_first_claim_exists(e, x, y, j);
    } else {
        assert(is_first_claim(e, w, x, y));
    }
}

/// After the surface is resized to `w` by `h`, all four G-buffer targets are
/// `w` by `h`, so a frame for that surface is never refused for its size.
pub proof fn lemma_resize_then_frame(m: AppModel, w: u32, h: u32)
    ensures
        m.resized(w, h).gbuffer.sized(w, h),
        m.resized(w, h).frame_ok(w, h),
        m.resized(w, h).gbuffer == gbuffer_of(w, h),
{
}

/// The four digit keys select the four views, each resolving to exactly its
/// own targets and pipeline, and choosing a view leaves the G-buffer and
/// everything else as it was.
pub proof fn lemma_digit_keys_select_views(m: AppModel)
    ensures
        m.key_pressed(KeyCode::Digit1) == (AppModel { render_source: RenderSource::Final, ..m }),
        m.key_pressed(KeyCode::Digit2) == (AppModel { render_source: RenderSource::Albedo, ..m }),
        m.key_pressed(KeyCode::Digit3) == (AppModel { render_source: RenderSource::Position, ..m }),
        m.key_pressed(KeyCode::Digit4) == (AppModel { render_source: RenderSource::Normal, ..m }),
        composite_inputs(RenderSource::Final) == (CompositeInputs {
            depth: GTarget::Depth,
            colors: (GTarget::Albedo, GTarget::Position, GTarget::Normal),
            pipeline: CompositePipeline::Shading,
        }),
        composite_inputs(RenderSource::Albedo) == (CompositeInputs {
            depth: GTarget::Depth,
            colors: (GTarget::Albedo, GTarget::Albedo, GTarget::Albedo),
            pipeline: CompositePipeline::Debug,
        }),
        composite_inputs(RenderSource::Position) == (CompositeInputs {
            depth: GTarget::Depth,
            colors: (GTarget::Position, GTarget::Position, GTarget::Position),
            pipeline: CompositePipeline::Debug,
        }),
        composite_inputs(RenderSource::Normal) == (CompositeInputs {
            depth: GTarget::Depth,
            colors: (GTarget::Normal, GTarget::Normal, GTarget::Normal),
            pipeline: CompositePipeline::Debug,
        }),
{
}

/// Turning the orbit off and on again restarts it at angle zero, whatever
/// angle it had and wherever the light stood by hand: the first frame after
/// shows the light at the angle swept in that frame alone.
pub proof fn lemma_orbit_reenabled_restarts(m: AppModel, dt_micros: u64)
    requires
        m.wf(),
    ensures
        m.light.orbit_angle.is_some() ==> m.key_pressed(KeyCode::KeyL).key_pressed(KeyCode::KeyL).rendered(
            dt_micros as int,
        ).light.placement_spec() == (LightPlacement::Orbit {
            angle: (crate::light::swept(dt_micros as int) % (crate::light::FULL_TURN as int)) as u32,
        }),
        m.light.orbit_angle.is_none() ==> m.key_pressed(KeyCode::KeyL).rendered(dt_micros as int).light.placement_spec()
            == (LightPlacement::Orbit {
            angle: (crate::light::swept(dt_micros as int) % (crate::light::FULL_TURN as int)) as u32,
        }),
{
}

/// Whatever view is selected, the frame's compositing pass reads exactly that
/// view's inputs, and it is the only compositing pass of the frame.
pub proof fn lemma_frame_composites_selected_view(s: RenderSource)
    ensures
        frame_passes_spec(s).len() == 6,
        frame_passes_spec(s)[2] == (FramePass::Composite { inputs: composite_inputs(s) }),
        forall|j: int| 0 <= j < 6 && j != 2 ==> !(#[trigger] frame_passes_spec(s)[j] is Composite),
{
}

} // verus!
