//! Held: the verified core of a terminal text editor.
pub mod utils;
pub mod view;
