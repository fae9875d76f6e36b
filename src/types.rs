use vstd::prelude::*;

verus! {

/// Four-dimensional tensor shape threaded through graph construction.
#[derive(Clone, Copy, Debug, PartialEq, Eq, Structural)]
pub struct Shape4 {
    pub n: usize,
    pub c: usize,
    pub h: usize,
    pub w: usize,
}

impl Shape4 {
    pub fn new(n: usize, c: usize, h: usize, w: usize) -> (r: Shape4)
        ensures
            r == (Shape4 { n, c, h, w }),
    {
        Shape4 { n, c, h, w }
    }
}

/// Global options handed unchanged to every descriptor during construction.
#[derive(Clone, Copy, Debug, PartialEq, Eq, Structural)]
pub struct Opt {
    pub half_precision: bool,
    pub device: u32,
}

/// Counter that hands out operator tags; every tag it gives is larger than
/// every tag it gave before.
#[derive(Clone, Copy, Debug, PartialEq, Eq, Structural)]
pub struct OpTag {
    next: u64,
}

impl OpTag {
    /// The tag that the next call of `fresh` hands out.
    pub closed spec fn next_tag(&self) -> u64 {
        self.next
    }

    pub fn new(start: u64) -> (r: OpTag)
        ensures
            r.next_tag() == start,
    {
        OpTag { next: start }
    }

    /// The tag that the next call of `fresh` hands out.
    pub fn peek(&self) -> (r: u64)
        ensures
            r == self.next_tag(),
    {
        self.next
    }

    /// Hands out the next tag and advances the counter; `None` once the
    /// counter is exhausted, leaving it unchanged.
    pub fn fresh(&mut self) -> (r: Option<u64>)
        ensures
            old(self).next_tag() < u64::MAX ==> r == Some(old(self).next_tag())
                && final(self).next_tag() == old(self).next_tag() + 1,
            old(self).next_tag() == u64::MAX ==> r is None && *final(self) == *old(self),
    {
        if self.next < u64::MAX {
            let t = self.next;
            self.next = self.next + 1;
            Some(t)
        } else {
            None
        }
    }
}

} // verus!
