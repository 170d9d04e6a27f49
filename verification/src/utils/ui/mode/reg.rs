//! A stack of lines, the register of the modes.
use crate::utils::buffer::{LineBuffer, LineModel, models};
use vstd::prelude::*;

verus! {

/// A stack of lines.
#[derive(Debug)]
pub struct Register {
    data: Vec<LineBuffer>,
}

impl Register {
    /// The lines on the stack, the last pushed last.
    pub closed spec fn lines(&self) -> Seq<LineModel> {
        models(self.data@)
    }

    pub fn new() -> (r: Register)
        ensures
            r.lines() == Seq::<LineModel>::empty(),
    {
        let r = Register { data: Vec::new() };
        assert(r.lines() =~= Seq::<LineModel>::empty());
        r
    }

    pub fn push(&mut self, buffer: LineBuffer)
        ensures
            final(self).lines() == old(self).lines().push(buffer@),
    {
        self.data.push(buffer);
        assert(final(self).lines() =~= old(self).lines().push(buffer@));
    }

    /// Takes the line pushed last, if any.
    pub fn pop(&mut self) -> (r: Option<LineBuffer>)
        ensures
            old(self).lines().len() == 0 ==> r is None && final(self).lines() == old(self).lines(),
            old(self).lines().len() > 0 ==> (r matches Some(l) && l@ == old(self).lines().last()
                && final(self).lines() == old(self).lines().drop_last()),
    {
        let r = self.data.pop();
        assert(final(self).lines() =~= if old(self).lines().len() > 0 {
            old(self).lines().drop_last()
        } else {
            old(self).lines()
        });
        r
    }
}

/// What is pushed last is popped first, and the stack is left as it was.
pub proof fn law_pop_undoes_push(s: Seq<LineModel>, l: LineModel)
    ensures
        s.push(l).len() > 0,
        s.push(l).last() == l,
        s.push(l).drop_last() == s,
{
    assert(s.push(l).drop_last() =~= s);
}

} // verus!
