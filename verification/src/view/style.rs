//! How characters are drawn.
use vstd::prelude::*;

verus! {

/// How a character is drawn.
#[derive(Debug, Clone, Copy, PartialEq, Eq, Structural)]
pub enum CharStyle {
    Default,
    Bold,
    Reverse,
    Italic,
}

} // verus!
