//! Pieces of the text that the screen draws.
pub mod lexeme_mapper;
pub mod line_number_string_iter;
pub mod render_buffer;
pub mod renderer;
