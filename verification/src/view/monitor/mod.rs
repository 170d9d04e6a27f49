//! Which part of a buffer the screen shows.
pub mod scroll_controller;
