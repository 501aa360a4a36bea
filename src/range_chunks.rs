use std::ops::Range;
use vstd::prelude::*;

verus! {

/// A lazy generator of index ranges of a fixed size, `leap` apart, over a
/// half-open interval.
#[derive(Debug)]
pub struct RangeChunks {
    start: u64,
    size: u64,
    leap: u64,
    end: u64,
}

/// What a `RangeChunks` holds: where the next range starts, the size and
/// stride of the ranges, and the end of the interval.
pub struct RangeChunksView {
    pub start: u64,
    pub size: u64,
    pub leap: u64,
    pub end: u64,
}

impl View for RangeChunks {
    type V = RangeChunksView;

    closed spec fn view(&self) -> RangeChunksView {
        RangeChunksView { start: self.start, size: self.size, leap: self.leap, end: self.end }
    }
}

/// The range that starts at `start`, at most `size` long, cut at `end`.
pub open spec fn chunk_at(start: u64, size: u64, end: u64) -> Range<u64> {
    Range { start: start, end: if start + size < end { (start + size) as u64 } else { end } }
}

impl RangeChunks {
    /// Hands out the next range, or `None` once the interval is used up.
    pub fn next(&mut self) -> (r: Option<Range<u64>>)
        ensures
            old(self)@.start >= old(self)@.end ==> r is None && final(self)@ == old(self)@,
            old(self)@.start < old(self)@.end ==> {
                &&& r == Some(chunk_at(old(self)@.start, old(self)@.size, old(self)@.end))
                &&& final(self)@ == (RangeChunksView {
                    start: if old(self)@.start + old(self)@.leap <= u64::MAX {
                        (old(self)@.start + old(self)@.leap) as u64
                    } else {
                        u64::MAX
                    },
                    ..old(self)@
                })
            },
    {
        if self.start >= self.end {
            return None;
        }
        let room = self.end - self.start;
        let next_end = if self.size < room {
            self.start + self.size
        } else {
            self.end
        };
        let result = Range { start: self.start, end: next_end };
        self.start = self.start.saturating_add(self.leap);
        Some(result)
    }
}

/// An interval that can be cut into ranges of a fixed size.
pub trait ChunkableRange {
    /// The first index of the interval.
    spec fn first_index(&self) -> u64;

    /// The end of the interval, not included.
    spec fn end_index(&self) -> u64;

    /// Consecutive ranges of `size` indices.
    fn chunks(&self, size: u64) -> (r: RangeChunks)
        ensures
            r@ == (RangeChunksView {
                start: self.first_index(),
                size: size,
                leap: size,
                end: self.end_index(),
            }),
    {
        self.chunks_leap(size, size)
    }

    /// Ranges of `size` indices whose starts lie `leap` apart.
    fn chunks_leap(&self, size: u64, leap: u64) -> (r: RangeChunks)
        ensures
            r@ == (RangeChunksView {
                start: self.first_index(),
                size: size,
                leap: leap,
                end: self.end_index(),
            }),
    ;
}

impl ChunkableRange for Range<u64> {
    open spec fn first_index(&self) -> u64 {
        self.start
    }

    open spec fn end_index(&self) -> u64 {
        self.end
    }

    fn chunks_leap(&self, size: u64, leap: u64) -> (r: RangeChunks) {
        RangeChunks { start: self.start, size, leap, end: self.end }
    }
}

} // verus!
