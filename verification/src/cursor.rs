use vstd::prelude::*;

verus! {

/// The scan position of a state machine inside the current input chunk.
///
/// When the unconsumed tail of one chunk becomes the start of the next
/// buffer, the cursor is aligned: every stored offset shifts down by the
/// number of bytes dropped in front of it, so it keeps referencing the same
/// byte of the stream.
#[derive(Clone, Copy, PartialEq, Eq, Structural, Debug)]
pub struct Cursor {
    pub pos: usize,
}

impl Cursor {
    /// A cursor at the start of the input.
    pub fn new() -> (r: Cursor)
        ensures
            r.pos == 0,
    {
        Cursor { pos: 0 }
    }

    /// Shifts the recorded position down by `offset`, for resuming on a
    /// buffer whose first `offset` bytes were dropped.
    pub fn align(&mut self, offset: usize)
        requires
            offset <= old(self).pos,
        ensures
            final(self).pos == old(self).pos - offset,
    {
        self.pos = self.pos - offset;
    }
}

} // verus!
