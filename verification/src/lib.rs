//! Scene loading and render planning for an SVG viewer: the SVG document is
//! turned into a list of paint items, and the items are scheduled for
//! tessellation and upload to the GPU.

pub mod item;
pub mod style;
pub mod scene;
pub mod render;
pub mod input;
pub mod laws;
