//! The cursor's position in the world, with the position before it.
//!
//! Finding the position takes a camera and a window; this module keeps what
//! was found. A position is whatever the application measures it in.

use vstd::prelude::*;
use vstd::std_specs::cmp::PartialEqSpec;

verus! {

/// Where the cursor is in the world, and where it was before it last moved.
pub struct WorldCursor<P> {
    /// The current position.
    pub pos: P,
    /// The position before the current one.
    pub pos_prev: P,
}

impl<P: Copy + PartialEq> WorldCursor<P> {
    /// Takes note that the cursor is at `cursor`, and says whether anything
    /// changed.
    ///
    /// Nothing changes when both the current and the previous position
    /// compare equal to `cursor`. Otherwise the current position becomes the
    /// previous one and `cursor` the current one. What "equal" means is up to
    /// `P`; where `P` states it, the result is stated in the same terms.
    pub fn track(&mut self, cursor: P) -> (moved: bool)
        ensures
            moved ==> final(self).pos == cursor && final(self).pos_prev == old(self).pos,
            !moved ==> *final(self) == *old(self),
            P::obeys_eq_spec() ==> moved == !(old(self).pos.eq_spec(&cursor) && old(
                self,
            ).pos_prev.eq_spec(&cursor)),
    {
        if self.pos == cursor && self.pos_prev == cursor {
            return false;
        }
        self.pos_prev = self.pos;
        self.pos = cursor;
        true
    }
}

} // verus!
