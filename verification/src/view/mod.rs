//! What is shown on the screen.
pub mod colors;
pub mod monitor;
pub mod render;
pub mod style;
