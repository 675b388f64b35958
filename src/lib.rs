//! Lays out a two-axis point chart on a character terminal: a vertical
//! tick scale down the left margin, a horizontal axis, and one labelled
//! marker per data point, all as a sequence of cursor moves and text writes.

pub mod decimal;
pub mod draw;
pub mod plotter;
pub mod laws;
pub mod ansi;
pub mod keys;
