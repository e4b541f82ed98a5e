//! One contiguous byte range of the remote object.

use vstd::prelude::*;
use vstd::string::*;
use crate::text::{range_header_seq, usize_to_string};

verus! {

/// The `index`-th part (1-based) of a download plan: it covers the byte
/// interval `offset .. offset + size` of the remote object. `size == 0`
/// means nothing is left to fetch for this part.
#[derive(Debug, Clone, Copy, PartialEq, Eq, Structural)]
pub struct Part {
    pub index: i32,
    pub offset: usize,
    pub size: usize,
}

impl Part {
    pub fn new(index: i32, offset: usize, size: usize) -> (p: Part)
        ensures
            p.index == index,
            p.offset == offset,
            p.size == size,
    {
        Part { index, offset, size }
    }

    /// Resume: `already` bytes of this part are already on disk, so the
    /// fetch starts that much later and that much less remains. When the
    /// segment holds at least `size` bytes the part is fully satisfied and
    /// its remaining size becomes zero.
    pub fn set_offset(&mut self, already: usize)
        requires
            old(self).offset + already <= usize::MAX,
        ensures
            final(self).index == old(self).index,
            final(self).offset == old(self).offset + already,
            already < old(self).size ==> final(self).size == old(self).size - already,
            already >= old(self).size ==> final(self).size == 0,
    {
        self.offset = self.offset + already;
        if already >= self.size {
            self.size = 0;
        } else {
            self.size = self.size - already;
        }
    }

    /// The Range request header value for this part: the inclusive byte
    /// interval `offset ..= offset + size - 1`.
    pub fn to_string(&self) -> (r: String)
        requires
            self.size >= 1,
            self.offset + self.size <= usize::MAX,
        ensures
            r@ == range_header_seq(self.offset as nat, (self.offset + self.size - 1) as nat),
    {
        let mut r = String::from_str("bytes=");
        let first = usize_to_string(self.offset);
        r.append(first.as_str());
        r.append("-");
        let last = usize_to_string(self.offset + self.size - 1);
        r.append(last.as_str());
        proof {
            reveal_strlit("bytes=");
            reveal_strlit("-");
            assert(r@ =~= range_header_seq(
                self.offset as nat,
                (self.offset + self.size - 1) as nat,
            ));
        }
        r
    }

    /// A ranged transfer is issued for this part only when bytes remain.
    pub fn needs_fetch(&self) -> (r: bool)
        ensures
            r == (self.size > 0),
    {
        self.size > 0
    }
}

} // verus!
