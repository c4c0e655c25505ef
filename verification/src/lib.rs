//! Optimal pointing direction for a sensor with a limited field of view.
//!
//! Given the bearings of a batch of targets around a sensor and the angular
//! width of its field of view, the crate finds the placement of the field of
//! view that sees the most targets, and reports the bisector of that
//! placement.
//!
//! Angles are whole numbers of microdegrees (`UNITS_PER_DEGREE` units to the
//! degree), so every comparison is exact.
//!
//! - `angle`: the angle unit and the polar position of a target
//! - `window`: arc windows, and how many targets a window sees
//! - `sorted`: the bearings in ascending order
//! - `scan`: the sweep that finds the best window
//! - `direction`: the bisector of a window, and the whole pipeline
//! - `laws`: what holds of the results on every input

pub mod angle;
pub mod window;
pub mod sorted;
pub mod scan;
pub mod direction;
pub mod laws;
