//! Control logic of a deferred-shading scene viewer: tangent-space generation,
//! orbit camera, light animation, debug-view selection, G-buffer sizing, slider
//! widgets and pointer routing, and per-frame pass ordering.
pub mod geometry;
pub mod app;
pub mod camera;
pub mod light;
pub mod slots;
pub mod tangent;
pub mod view;
pub mod widget;
