//! The register that yanked lines are kept in.
use crate::utils::buffer::{models, LineBuffer, LineModel, NEWLINE};
use vstd::prelude::*;

verus! {

/// Lines copied for pasting.
#[derive(Debug)]
pub struct Register {
    pub text: Vec<LineBuffer>,
}

impl Register {
    /// The register holds more than one line.
    pub fn is_muti_line(&self) -> (r: bool)
        ensures
            r == (self.text.len() > 1),
    {
        self.text.len() > 1
    }

    /// The register holds exactly one whole line, ending with a newline.
    pub fn is_single_line(&self) -> (r: bool)
        ensures
            r == (self.text.len() == 1 && self.text@[0]@.data.len() > 0 && self.text@[0]@.data.last()
                == NEWLINE),
    {
        if self.text.len() != 1 {
            return false;
        }
        let n = self.text[0].data.len();
        n > 0 && self.text[0].data[n - 1] == NEWLINE
    }

    pub fn new() -> (r: Register)
        ensures
            r.text@.len() == 0,
    {
        Register { text: Vec::new() }
    }

    pub fn from(lines: Vec<LineBuffer>) -> (r: Register)
        ensures
            models(r.text@) == models(lines@),
    {
        Register { text: lines }
    }

    /// Replaces what the register holds by `lines`.
    pub fn copy(&mut self, lines: Vec<LineBuffer>)
        ensures
            models(final(self).text@) == models(lines@),
    {
        self.text = lines;
    }
}

} // verus!
