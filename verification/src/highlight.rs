//! A selection as the highlighting of the text view keeps it.
use vstd::prelude::*;

verus! {

/// A selection between an anchor, where it started, and a head, which moves.
#[derive(Debug, Clone, Copy, PartialEq, Eq, Structural)]
pub struct Selection {
    pub anchor: usize,
    pub head: usize,
}

impl Selection {
    /// An empty selection at `pos`.
    pub fn new(pos: usize) -> (s: Self)
        ensures
            s.anchor == pos && s.head == pos,
    {
        Selection { anchor: pos, head: pos }
    }

    /// First selected index.
    pub fn start(self) -> (r: usize)
        ensures
            r == if self.head <= self.anchor { self.head } else { self.anchor },
    {
        if self.head <= self.anchor {
            self.head
        } else {
            self.anchor
        }
    }

    /// Last selected index.
    pub fn end(self) -> (r: usize)
        ensures
            r == if self.head <= self.anchor { self.anchor } else { self.head },
    {
        if self.head <= self.anchor {
            self.anchor
        } else {
            self.head
        }
    }

    /// Moves the head to `pos`.
    pub fn update(&mut self, pos: usize)
        ensures
            final(self).anchor == old(self).anchor,
            final(self).head == pos,
    {
        self.head = pos;
    }
}

} // verus!
