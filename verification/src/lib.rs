//! The core of a perceptual color picker: what its sliders, gradients, popup
//! and color memory decide, apart from any drawing or input handling.

pub mod cache;
pub mod checkers;
pub mod color;
pub mod mesh;
pub mod picker;
