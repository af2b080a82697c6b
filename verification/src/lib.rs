//! Core of a desktop drop zone: a shadowed-disc compositor over raw ARGB
//! rasters and a frame-driven animation controller for the icon ring.
//!
//! Everything here works on integers. Lengths that are fractions of a pixel
//! are carried as exact rationals, colours and coverage as bytes.

pub mod animation;
pub mod blur;
pub mod composite;
pub mod error;
pub mod layout;
pub mod pixel;
pub mod ratio;
pub mod render;
pub mod window;
