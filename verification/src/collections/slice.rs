//! The slice container: a bounded window onto a vector, which it does not own.
use vstd::prelude::*;
use crate::{bounded_or, cast_or, saturated, saturating_cast};
use crate::handle::Handle;

verus! {

/// What a [`SliceView`] records: the vector it looks at, by handle, and the
/// half-open interval `[start, end)` of positions it shows.
pub struct Window {
    pub source: Handle,
    pub start: int,
    pub end: int,
}

/// A window onto a vector. It holds no element itself: reads go to the source
/// vector at the recorded offset.
pub struct SliceView {
    source: Handle,
    start: usize,
    end: usize,
}

impl View for SliceView {
    type V = Window;

    closed spec fn view(&self) -> Window {
        Window { source: self.source, start: self.start as int, end: self.end as int }
    }
}

/// The first position of the window that the signed bounds ask for on a
/// vector of `len` elements: `start` clamped into `0..=len`.
pub open spec fn resolved_start(start: int, len: int) -> int {
    if saturated(start) <= len {
        saturated(start)
    } else {
        len
    }
}

/// The position just past the window: `end` where it lies in `0..=len`, `len`
/// otherwise, and in either case moved up to the window's start where it would
/// fall before it.
pub open spec fn resolved_end(start: int, end: int, len: int) -> int {
    if bounded_or(end, len) < resolved_start(start, len) {
        resolved_start(start, len)
    } else {
        bounded_or(end, len)
    }
}

/// The position in the source that a signed index into a window reads, or
/// nothing where the index lies outside the window.
pub open spec fn source_offset(window: Window, index: int) -> Option<int> {
    if 0 <= index < window.end - window.start {
        Some(window.start + index)
    } else {
        None
    }
}

impl SliceView {
    /// A window is well formed when its interval is ordered.
    pub closed spec fn wf(&self) -> bool {
        self.start <= self.end
    }

    /// Every well-formed window has `0 <= start <= end`.
    pub proof fn lemma_wf_ordered(&self)
        requires
            self.wf(),
        ensures
            0 <= self@.start <= self@.end,
    {
    }

    /// Resolves the signed bounds `start` and `end` against a source vector
    /// of `len` elements and records the resulting window.
    pub fn resolve(source: Handle, len: usize, start: isize, end: isize) -> (slice: SliceView)
        ensures
            slice.wf(),
            slice@.source == source,
            slice@.start == resolved_start(start as int, len as int),
            slice@.end == resolved_end(start as int, end as int, len as int),
            0 <= slice@.start <= slice@.end <= len,
    {
        let low = saturating_cast(start);
        let first = if low <= len { low } else { len };
        let high = cast_or(end, len);
        let past = if high < first { first } else { high };
        SliceView { source, start: first, end: past }
    }

    /// The handle of the vector that the window looks at.
    pub fn source(&self) -> (source: Handle)
        ensures
            source == self@.source,
    {
        self.source
    }

    /// The first position of the window in its source.
    pub fn start(&self) -> (start: usize)
        ensures
            start == self@.start,
    {
        self.start
    }

    /// The position just past the window in its source.
    pub fn end(&self) -> (end: usize)
        ensures
            end == self@.end,
    {
        self.end
    }

    /// The number of positions in the window.
    pub fn len(&self) -> (count: usize)
        requires
            self.wf(),
        ensures
            count == self@.end - self@.start,
    {
        self.end - self.start
    }

    /// Maps a signed index into the window to a position in the source.
    ///
    /// The index is normalised against the window's length: a negative index,
    /// or one at or past the window's end, names no position.
    pub fn offset(&self, index: isize) -> (position: Option<usize>)
        requires
            self.wf(),
        ensures
            match position {
                Some(p) => source_offset(self@, index as int) == Some(p as int),
                None => source_offset(self@, index as int) is None,
            },
    {
        let count = self.end - self.start;
        let within = cast_or(index, count);
        if within < count {
            Some(self.start + within)
        } else {
            None
        }
    }
}

} // verus!
