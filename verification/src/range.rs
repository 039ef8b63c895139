//! Frame ranges: a requested range is cut to the stream's length, and an empty
//! one is refused.

use vstd::prelude::*;

verus! {

/// The end of a range on a stream of `total` frames: the requested end, or the
/// stream's length where the request goes beyond it.
pub open spec fn clamped_end(end: nat, total: nat) -> nat {
    if end > total {
        total
    } else {
        end
    }
}

/// Why a requested range was refused.
#[derive(Clone, Copy, Debug, PartialEq, Eq, Structural)]
pub enum RangeError {
    /// The start is not below the end, as requested.
    EmptyRange { start: usize, end: usize },
    /// The start is not below the stream's length.
    StartPastEnd { start: usize, total_frames: usize },
}

/// A range of frame numbers, from `start` up to but without `end`. It always
/// holds at least one frame.
#[derive(Clone, Copy, Debug)]
pub struct FrameRange {
    start: usize,
    end: usize,
}

impl FrameRange {
    #[verifier::type_invariant]
    spec fn nonempty(self) -> bool {
        self.start < self.end
    }

    /// The first frame of the range.
    pub closed spec fn spec_start(self) -> nat {
        self.start as nat
    }

    /// The frame after the last one of the range.
    pub closed spec fn spec_end(self) -> nat {
        self.end as nat
    }

    /// Whether frame `n` lies in the range.
    pub open spec fn contains(self, n: nat) -> bool {
        self.spec_start() <= n < self.spec_end()
    }

    /// The range that a request for `[start, end)` yields on a stream of
    /// `total_frames` frames. The end is cut to the stream's length. The
    /// request is refused when `start` is not below `end`, and when `start`
    /// is not below the stream's length.
    pub fn resolve(start: usize, end: usize, total_frames: usize) -> (r: Result<
        FrameRange,
        RangeError,
    >)
        ensures
            match r {
                Ok(range) => {
                    &&& start < end
                    &&& start < total_frames
                    &&& range.spec_start() == start
                    &&& range.spec_end() == clamped_end(end as nat, total_frames as nat)
                },
                Err(RangeError::EmptyRange { start: s, end: e }) => start >= end && s == start && e
                    == end,
                Err(RangeError::StartPastEnd { start: s, total_frames: t }) => start < end && start
                    >= total_frames && s == start && t == total_frames,
            },
    {
        if start >= end {
            Err(RangeError::EmptyRange { start, end })
        } else if start >= total_frames {
            Err(RangeError::StartPastEnd { start, total_frames })
        } else {
            let end: usize = if end > total_frames {
                total_frames
            } else {
                end
            };
            Ok(FrameRange { start, end })
        }
    }

    /// The first frame of the range.
    pub fn start(&self) -> (n: usize)
        ensures
            n == self.spec_start(),
            n < self.spec_end(),
    {
        proof {
            use_type_invariant(self);
        }
        self.start
    }

    /// The frame after the last one of the range.
    pub fn end(&self) -> (n: usize)
        ensures
            n == self.spec_end(),
            n > self.spec_start(),
    {
        proof {
            use_type_invariant(self);
        }
        self.end
    }

    /// How many frames the range holds: at least one.
    pub fn len(&self) -> (n: usize)
        ensures
            n == self.spec_end() - self.spec_start(),
            n >= 1,
    {
        proof {
            use_type_invariant(self);
        }
        self.end - self.start
    }
}

/// A request is taken exactly when its start lies below both its end and the
/// stream's length, that is below the end after clamping; what is taken
/// never reaches past the stream.
pub proof fn lemma_resolve_clamps(start: nat, end: nat, total: nat)
    ensures
        (start < end && start < total) <==> start < clamped_end(end, total),
        clamped_end(end, total) <= total,
        clamped_end(end, total) <= end,
        end > total ==> clamped_end(end, total) == total,
        start >= end ==> !(start < clamped_end(end, total)),
{
}

} // verus!
