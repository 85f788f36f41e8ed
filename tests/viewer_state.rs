use gbuffer_viewer::app::{App, FrameError, KeyCode, MouseButton};
use gbuffer_viewer::camera::MIN_DISTANCE;
use gbuffer_viewer::light::LightPlacement;
use gbuffer_viewer::view::{
    frame_passes, resolve_source_targets, CompositeInputs, CompositePipeline, DepthLoad, FramePass,
    GTarget, RenderSource, TargetFormat,
};

fn ready(width: u32, height: u32) -> App {
    let mut app = App::new(width, height);
    app.resize(width, height);
    app.layout_tracks(60, 16);
    app
}

#[test]
fn starts_with_lit_view_and_default_camera() {
    let app = App::new(800, 600);
    assert_eq!(app.camera.yaw, 90);
    assert_eq!(app.camera.pitch, 0);
    assert_eq!(app.camera.distance, 10_000);
    assert_eq!(app.render_source, RenderSource::Final);
    assert_eq!(app.light.manual_position, (500, 500, 500));
    assert_eq!(app.slider_keys().len(), 3);
}

#[test]
fn drag_turns_camera_by_sum_of_moves() {
    let mut app = ready(800, 600);
    app.on_mouse_moved(100, 100);
    app.on_mouse_down(MouseButton::Left);
    app.on_mouse_moved(110, 105);
    app.on_mouse_moved(115, 105);
    app.on_mouse_up(MouseButton::Left);
    assert_eq!(app.camera.yaw, 105);
    assert_eq!(app.camera.pitch, 5);
    assert!(app.camera.drag.is_none());
    // Moving after release does not turn the camera.
    app.on_mouse_moved(200, 200);
    assert_eq!(app.camera.yaw, 105);
}

#[test]
fn drag_angles_wrap_around_a_full_turn() {
    let mut app = ready(800, 600);
    app.on_mouse_moved(300, 300);
    app.on_mouse_down(MouseButton::Left);
    app.on_mouse_moved(200, 290);
    assert_eq!(app.camera.yaw, 350);
    assert_eq!(app.camera.pitch, 350);
}

#[test]
fn right_button_does_not_rotate() {
    let mut app = ready(800, 600);
    app.on_mouse_moved(100, 100);
    app.on_mouse_down(MouseButton::Right);
    app.on_mouse_moved(150, 100);
    assert_eq!(app.camera.yaw, 90);
}

#[test]
fn reset_zeroes_angles_and_keeps_distance() {
    let mut app = ready(800, 600);
    app.on_mouse_wheel(1_000);
    app.on_mouse_moved(100, 100);
    app.on_mouse_down(MouseButton::Left);
    app.on_mouse_moved(137, 80);
    app.on_mouse_up(MouseButton::Left);
    assert_ne!(app.camera.yaw, 0);
    app.on_key_pressed(KeyCode::KeyR);
    assert_eq!(app.camera.yaw, 0);
    assert_eq!(app.camera.pitch, 0);
    assert_eq!(app.camera.distance, 9_000);
}

#[test]
fn scrolling_zooms_by_a_tenth_and_stays_in_range() {
    let mut app = ready(800, 600);
    app.on_mouse_wheel(1_000);
    assert_eq!(app.camera.distance, 9_000);
    app.on_mouse_wheel(-1_000);
    assert_eq!(app.camera.distance, 9_900);
    // A tenth of a notch moves a hundredth of the distance.
    app.on_mouse_wheel(100);
    assert_eq!(app.camera.distance, 9_801);
    app.on_mouse_wheel(20_000);
    assert_eq!(app.camera.distance, MIN_DISTANCE);
    app.on_mouse_wheel(-20_000);
    assert_eq!(app.camera.distance, 300);
}

#[test]
fn smallest_zoom_out_still_moves_away() {
    let mut app = ready(800, 600);
    app.on_mouse_wheel(20_000);
    assert_eq!(app.camera.distance, MIN_DISTANCE);
    app.on_mouse_wheel(-1);
    assert_eq!(app.camera.distance, MIN_DISTANCE + 1);
    // The smallest zoom in still moves closer.
    app.camera.distance = 10_001;
    app.on_mouse_wheel(1);
    assert_eq!(app.camera.distance, 9_999);
}

#[test]
fn zooming_out_has_no_far_limit() {
    let mut app = ready(800, 600);
    app.camera.distance = 99_000;
    app.on_mouse_wheel(-1_000);
    assert_eq!(app.camera.distance, 108_900);
    for _ in 0..60 {
        app.on_mouse_wheel(-10_000);
    }
    assert_eq!(app.camera.distance, u32::MAX);
}

#[test]
fn digit_keys_select_matching_targets() {
    let mut app = ready(800, 600);
    let gbuffer = app.gbuffer;
    let cases = [
        (KeyCode::Digit2, RenderSource::Albedo, GTarget::Albedo),
        (KeyCode::Digit3, RenderSource::Position, GTarget::Position),
        (KeyCode::Digit4, RenderSource::Normal, GTarget::Normal),
    ];
    for (key, source, target) in cases {
        app.on_key_pressed(key);
        assert_eq!(app.render_source, source);
        assert_eq!(
            resolve_source_targets(app.render_source),
            CompositeInputs {
                depth: GTarget::Depth,
                colors: (target, target, target),
                pipeline: CompositePipeline::Debug,
            }
        );
        assert_eq!(app.gbuffer, gbuffer);
    }
    app.on_key_pressed(KeyCode::Digit1);
    assert_eq!(app.render_source, RenderSource::Final);
    assert_eq!(
        resolve_source_targets(RenderSource::Final),
        CompositeInputs {
            depth: GTarget::Depth,
            colors: (GTarget::Albedo, GTarget::Position, GTarget::Normal),
            pipeline: CompositePipeline::Shading,
        }
    );
    assert_eq!(app.gbuffer, gbuffer);
}

#[test]
fn frame_runs_passes_in_fixed_order() {
    let passes = frame_passes(RenderSource::Normal);
    assert_eq!(
        passes,
        vec![
            FramePass::ClearTargets,
            FramePass::Geometry { depth: DepthLoad::Clear },
            FramePass::Composite { inputs: resolve_source_targets(RenderSource::Normal) },
            FramePass::Gizmos { depth: DepthLoad::Keep },
            FramePass::Overlay,
            FramePass::Present,
        ]
    );
}

#[test]
fn orbit_restarts_at_zero_each_time_it_is_enabled() {
    let mut app = ready(800, 600);
    app.on_key_pressed(KeyCode::KeyL);
    assert_eq!(app.light.orbit_angle, Some(0));
    // One degree per sixtieth of a second, in ticks of 1/50 000 degree.
    let plan = app.render(16_667, 800, 600).unwrap();
    assert_eq!(plan.light, LightPlacement::Orbit { angle: 50_001 });
    app.render(500_000, 800, 600).unwrap();
    assert_eq!(app.light.orbit_angle, Some(1_550_001));
    // Frames of a microsecond still move the light.
    app.render(1, 800, 600).unwrap();
    assert_eq!(app.light.orbit_angle, Some(1_550_004));
    app.on_key_pressed(KeyCode::KeyL);
    assert_eq!(app.light.orbit_angle, None);
    app.on_key_pressed(KeyCode::KeyL);
    assert_eq!(app.light.orbit_angle, Some(0));
    app.render(6_000_000, 800, 600).unwrap();
    assert_eq!(app.light.orbit_angle, Some(0));
}

#[test]
fn nudges_move_manual_light_only() {
    let mut app = ready(800, 600);
    app.on_key_pressed(KeyCode::ArrowRight);
    app.on_key_pressed(KeyCode::PageDown);
    app.on_key_pressed(KeyCode::ArrowUp);
    assert_eq!(app.light.manual_position, (1_000, 0, 1_000));
    app.on_key_pressed(KeyCode::KeyL);
    app.on_key_pressed(KeyCode::ArrowLeft);
    assert_eq!(app.light.manual_position, (1_000, 0, 1_000));
    // Leaving orbit puts the light back where the sliders say.
    app.on_key_pressed(KeyCode::KeyL);
    assert_eq!(app.light.manual_position, (500, 500, 500));
    let plan = app.render(1_000, 800, 600).unwrap();
    assert_eq!(plan.light, LightPlacement::Manual { position: (500, 500, 500) });
}

#[test]
fn sliders_stack_at_top_right_after_resize() {
    let app = ready(800, 600);
    let keys = app.slider_keys();
    for (i, k) in keys.iter().enumerate() {
        let s = app.slider(*k).unwrap();
        assert_eq!(s.bounds.min_x, 490);
        assert_eq!(s.bounds.max_x, 790);
        assert_eq!(s.bounds.min_y, 40 * i as i32);
        assert_eq!(s.bounds.max_y, 40 * i as i32 + 40);
        assert_eq!(s.slide_bounds.min_x, 570);
        assert_eq!(s.slide_bounds.max_x, 780);
        assert_eq!(s.slide_bounds.min_y, 40 * i as i32 + 12);
        assert_eq!(s.slide_bounds.max_y, 40 * i as i32 + 28);
    }
}

#[test]
fn captured_slider_follows_pointer_outside_and_camera_stays() {
    let mut app = ready(800, 600);
    let first = app.slider_keys()[0];
    assert_eq!(first, app.light_x_id);
    app.on_mouse_moved(600, 20);
    app.on_mouse_down(MouseButton::Left);
    assert_eq!(app.active_slider, Some(first));
    // 30 of 210 pixels along -5..5: -5 + 10 * 30 / 210, in thousandths.
    assert_eq!(app.slider(first).unwrap().value, -3_572);
    assert_eq!(app.light.manual_position.0, -3_572);
    app.on_mouse_moved(10, 500);
    assert_eq!(app.slider(first).unwrap().value, -5_000);
    assert_eq!(app.light.manual_position.0, -5_000);
    app.on_mouse_moved(1_000, 500);
    assert_eq!(app.slider(first).unwrap().value, 5_000);
    assert_eq!(app.camera.yaw, 90);
    assert_eq!(app.camera.pitch, 0);
    assert!(app.camera.drag.is_none());
    app.on_mouse_up(MouseButton::Left);
    assert_eq!(app.active_slider, None);
    app.on_mouse_moved(0, 0);
    assert_eq!(app.slider(first).unwrap().value, 5_000);
}

#[test]
fn press_on_slider_label_goes_to_camera() {
    let mut app = ready(800, 600);
    // Inside the slider but left of its track.
    app.on_mouse_moved(500, 20);
    app.on_mouse_down(MouseButton::Left);
    assert_eq!(app.active_slider, None);
    assert!(app.camera.drag.is_some());
    // Hovering a slider while rotating leaves the camera still.
    app.on_mouse_moved(510, 25);
    assert_eq!(app.camera.yaw, 90);
    app.on_mouse_moved(100, 300);
    assert_eq!(app.camera.yaw, (90 + 100 - 500 + 360 * 2) % 360);
}

#[test]
fn resize_sizes_all_four_targets() {
    let mut app = ready(800, 600);
    app.resize(1024, 768);
    for t in [app.gbuffer.depth, app.gbuffer.albedo, app.gbuffer.position, app.gbuffer.normal] {
        assert_eq!((t.width, t.height), (1024, 768));
    }
    assert_eq!(app.gbuffer.depth.format, TargetFormat::Depth32Float);
    assert_eq!(app.gbuffer.albedo.format, TargetFormat::Rgba8UnormSrgb);
    assert_eq!(app.gbuffer.normal.format, TargetFormat::Rgba16Float);
    assert!(app.render(1_000, 1024, 768).is_ok());
}

#[test]
fn frame_for_stale_size_is_refused() {
    let mut app = ready(800, 600);
    let before = app.light;
    assert_eq!(app.render(1_000, 1024, 768).unwrap_err(), FrameError::TargetSizeMismatch);
    assert_eq!(app.light, before);
}
