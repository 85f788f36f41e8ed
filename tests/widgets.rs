use gbuffer_viewer::geometry::Rect;
use gbuffer_viewer::slots::SliderSlots;
use gbuffer_viewer::widget::Slider;

fn placed() -> Slider {
    let mut s = Slider::new().with_min_max(-5_000, 5_000);
    s.bounds = Rect::new(0, 0, 300, 40);
    s.layout_track(60, 16);
    s
}

#[test]
fn rect_contains_its_edges() {
    let r = Rect::new(0, 0, 10, 5);
    assert!(r.contains(0, 0));
    assert!(r.contains(10, 5));
    assert!(!r.contains(11, 5));
    assert!(!r.contains(3, -1));
}

#[test]
fn range_change_clamps_value() {
    let s = Slider::new().with_min_max(600, 900);
    assert_eq!(s.value(), 600);
    let s = Slider::new().with_min_max(-5_000, 5_000);
    assert_eq!(s.value(), 500);
    let s = s.with_value(7_000);
    assert_eq!(s.value(), 5_000);
    let mut s = s;
    s.set_value(-9_000);
    assert_eq!(s.value(), -5_000);
}

#[test]
fn track_sits_after_label() {
    let s = placed();
    assert_eq!(s.slide_bounds, Rect::new(80, 12, 290, 28));
}

#[test]
fn press_on_track_sets_value() {
    let mut s = placed();
    assert!(s.on_mouse_down(185, 20));
    assert_eq!(s.value(), 0);
    assert!(!s.on_mouse_down(40, 20));
    assert_eq!(s.value(), 0);
    assert!(s.on_mouse_down(290, 12));
    assert_eq!(s.value(), 5_000);
}

#[test]
fn drag_beyond_track_pins_to_ends() {
    let mut s = placed();
    s.on_mouse_dragged(-100, 900);
    assert_eq!(s.value(), -5_000);
    s.on_mouse_dragged(10_000, 900);
    assert_eq!(s.value(), 5_000);
    s.on_mouse_dragged(101, 0);
    assert_eq!(s.value(), -4_000);
    s.on_mouse_up();
    s.on_mouse_moved(0, 0);
    assert_eq!(s.value(), -4_000);
}

#[test]
fn progress_fills_track_in_proportion() {
    let mut s = placed();
    s.set_value(0);
    assert_eq!(s.progress_width(), 105);
    s.set_value(5_000);
    assert_eq!(s.progress_width(), 210);
    let flat = Slider::new().with_min_max(3, 3);
    assert_eq!(flat.progress_width(), 0);
}

#[test]
fn slot_map_keeps_each_slider_under_its_key() {
    let mut slots = SliderSlots::new();
    assert!(slots.keys().is_empty());
    let a = slots.insert(Slider::new());
    let b = slots.insert(Slider::new().with_min_max(0, 10));
    assert_ne!(a, b);
    assert_eq!(slots.keys(), vec![a, b]);
    assert_eq!(slots.get(a).unwrap().max, 1_000);
    assert_eq!(slots.get(b).unwrap().max, 10);
    let mut changed = slots.get(a).unwrap();
    changed.set_value(250);
    slots.set(a, changed);
    assert_eq!(slots.get(a).unwrap().value(), 250);
    assert_eq!(slots.get(b).unwrap().value(), 10);
}
