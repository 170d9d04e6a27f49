//! Pieces of text marked for how they are drawn.
use vstd::prelude::*;

verus! {

/// A piece of text to draw: in focus (a search match, say) or not.
#[derive(Debug, PartialEq)]
pub enum MappedLexeme<'a> {
    Focused(&'a str),
    Blurred(&'a str),
}

} // verus!
