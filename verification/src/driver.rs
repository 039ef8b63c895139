//! The extraction of one range, as a machine that the caller drives.
//!
//! Decoding a frame, reading its planes and writing bytes are the caller's
//! work. The machine decides what comes next: it hands out an [`Action`], the
//! caller performs it and reports what happened as an [`Event`]. Frames are
//! asked for one at a time, in ascending order; the planes of each are read
//! with corrected line sizes, and its record is written before the next frame
//! is asked for. A frame that fails to decode, or bytes that fail to be
//! written, end the batch: nothing of the range is salvaged.

use vstd::prelude::*;
use crate::container::{
    dims_fit,
    encode_frame,
    encode_header,
    frame_record,
    planes_fit,
    stream_header,
    ContainerError,
    FramePlanes,
    StreamParams,
};
use crate::format::{corrected, corrected_linesize};
use crate::range::FrameRange;

verus! {

/// Why a frame could not be had.
#[derive(Clone, Copy, Debug, PartialEq, Eq, Structural)]
pub enum DecodeError {
    /// The stream has no frame of this number.
    OutOfRange { frame: usize },
    /// The decoder failed on this frame.
    CorruptFrame { frame: usize },
}

/// Why output could not be produced.
#[derive(Clone, Copy, Debug, PartialEq, Eq, Structural)]
pub enum SerializationError {
    /// The caller could not write the bytes it was given.
    Io,
    /// The header could not be encoded.
    Header { reason: ContainerError },
    /// The record of this frame could not be encoded.
    Frame { frame: usize, reason: ContainerError },
}

/// Why a batch ended without its last frame.
#[derive(Clone, Copy, Debug, PartialEq, Eq, Structural)]
pub enum ExtractError {
    Decode(DecodeError),
    Serialization(SerializationError),
    /// The caller reported something that the machine had not asked for.
    OutOfTurn,
}

/// What the machine waits for.
#[derive(Clone, Copy, Debug, PartialEq, Eq, Structural)]
pub enum Phase {
    /// Bytes were handed out; the machine waits to hear that they are written.
    Writing,
    /// A frame was asked for; the machine waits to hear that it is decoded.
    Decoding,
    /// The planes of the decoded frame were asked for.
    Reading,
    /// Every frame of the range is written.
    Finished,
    /// The batch was given up.
    Failed,
}

/// What the caller reports.
#[derive(Debug)]
pub enum Event {
    /// The bytes of the last `Write` are written.
    Written,
    /// The bytes of the last `Write` could not be written.
    WriteFailed,
    /// The frame of the last `Decode` is decoded; these are the line sizes
    /// that the decoder reports for it.
    Decoded { linesize: [i32; 4] },
    /// The frame of the last `Decode` could not be decoded.
    DecodeFailed,
    /// The planes of the decoded frame, read as the last `ReadPlanes` said.
    Planes(FramePlanes),
}

/// What a decoder hands over for one frame: the line sizes that it reports,
/// and the planes as they are read with the corrected line sizes.
#[derive(Debug)]
pub struct DecodedFrame {
    pub linesize: [i32; 4],
    pub planes: FramePlanes,
}

impl DecodedFrame {
    /// The record that the frame is written as.
    pub open spec fn record(self) -> Seq<u8> {
        frame_record(self.planes.y@, self.planes.u@, self.planes.v@)
    }
}

/// What the caller is to do next.
#[derive(Debug)]
pub enum Action {
    /// Write these bytes to the output, then report `Written` or
    /// `WriteFailed`.
    Write(Vec<u8>),
    /// Decode the frame of this number, then report `Decoded` or
    /// `DecodeFailed`.
    Decode(usize),
    /// Read the planes of the decoded frame with these line sizes, then
    /// report `Planes`.
    ReadPlanes { linesize: [i32; 4] },
    /// The batch is complete; it wrote this many frames.
    Finish { frames: usize },
    /// The batch is given up for this reason.
    Abort(ExtractError),
}

/// An action with its bytes as a sequence.
pub enum ActionView {
    Write(Seq<u8>),
    Decode(nat),
    ReadPlanes { linesize: Seq<i32> },
    Finish { frames: nat },
    Abort(ExtractError),
}

impl View for Action {
    type V = ActionView;

    open spec fn view(&self) -> ActionView {
        match *self {
            Action::Write(bytes) => ActionView::Write(bytes@),
            Action::Decode(frame) => ActionView::Decode(frame as nat),
            Action::ReadPlanes { linesize } => ActionView::ReadPlanes { linesize: linesize@ },
            Action::Finish { frames } => ActionView::Finish { frames: frames as nat },
            Action::Abort(error) => ActionView::Abort(error),
        }
    }
}

/// The state of a batch.
pub struct ExtractionView {
    pub params: StreamParams,
    /// First frame of the range.
    pub start: nat,
    /// The frame after the last one of the range.
    pub end: nat,
    /// Frames in the stream.
    pub total: nat,
    /// The frame to ask for next; the frames from `start` up to it have been
    /// handed out for writing.
    pub next: nat,
    pub phase: Phase,
}

impl ExtractionView {
    /// What holds of every batch in every state.
    pub open spec fn wf(self) -> bool {
        &&& dims_fit(self.params)
        &&& self.start < self.end <= usize::MAX
        &&& self.start <= self.next <= self.end
        &&& self.total <= usize::MAX
        &&& self.phase == Phase::Decoding || self.phase == Phase::Reading ==> self.next
            < self.end && self.next < self.total
        &&& self.phase == Phase::Finished ==> self.next == self.end
    }

    /// The same batch in another phase.
    pub open spec fn in_phase(self, phase: Phase) -> ExtractionView {
        ExtractionView { phase, ..self }
    }

    /// The same batch, given up.
    pub open spec fn failed(self, error: ExtractError) -> (ExtractionView, ActionView) {
        (self.in_phase(Phase::Failed), ActionView::Abort(error))
    }

    /// How many frames have been handed out for writing.
    pub open spec fn frames_out(self) -> nat {
        (self.next - self.start) as nat
    }
}

/// The next state and the action that answer `event` in state `s`.
///
/// After a write: the next frame of the range is asked for, or the batch is
/// finished when none is left; a frame that the stream does not have is not
/// asked for. After a decode: the planes are asked for, with the chroma line
/// sizes halved. After the planes: the frame's record is handed out for
/// writing. A failure ends the batch and names the frame, and so does an
/// event that was not asked for. A batch that has ended stays as it is.
pub open spec fn advance(s: ExtractionView, event: Event) -> (ExtractionView, ActionView) {
    match s.phase {
        Phase::Writing => match event {
            Event::Written => if s.next >= s.end {
                (
                    s.in_phase(Phase::Finished),
                    ActionView::Finish { frames: (s.end - s.start) as nat },
                )
            } else if s.next >= s.total {
                s.failed(
                    ExtractError::Decode(DecodeError::OutOfRange { frame: s.next as usize }),
                )
            } else {
                (s.in_phase(Phase::Decoding), ActionView::Decode(s.next))
            },
            Event::WriteFailed => s.failed(ExtractError::Serialization(SerializationError::Io)),
            _ => s.failed(ExtractError::OutOfTurn),
        },
        Phase::Decoding => match event {
            Event::Decoded { linesize } => (
                s.in_phase(Phase::Reading),
                ActionView::ReadPlanes { linesize: corrected(linesize@) },
            ),
            Event::DecodeFailed => s.failed(
                ExtractError::Decode(DecodeError::CorruptFrame { frame: s.next as usize }),
            ),
            _ => s.failed(ExtractError::OutOfTurn),
        },
        Phase::Reading => match event {
            Event::Planes(planes) => if planes_fit(s.params, planes) {
                (
                    ExtractionView { next: s.next + 1, phase: Phase::Writing, ..s },
                    ActionView::Write(frame_record(planes.y@, planes.u@, planes.v@)),
                )
            } else {
                s.failed(
                    ExtractError::Serialization(
                        SerializationError::Frame {
                            frame: s.next as usize,
                            reason: ContainerError::PlaneSizeMismatch,
                        },
                    ),
                )
            },
            _ => s.failed(ExtractError::OutOfTurn),
        },
        _ => (s, ActionView::Abort(ExtractError::OutOfTurn)),
    }
}

/// The state after a run of events, and the actions that answered them.
pub open spec fn run(s: ExtractionView, events: Seq<Event>) -> (ExtractionView, Seq<ActionView>)
    decreases events.len(),
{
    if events.len() == 0 {
        (s, Seq::empty())
    } else {
        let (after, action) = advance(s, events[0]);
        let (last, rest) = run(after, events.drop_first());
        (last, seq![action] + rest)
    }
}

/// What the caller reports while all goes well: a write that succeeded, and
/// for each of `frames` its decoding, its planes and another write that
/// succeeded.
pub open spec fn smooth_events(frames: Seq<DecodedFrame>) -> Seq<Event>
    decreases frames.len(),
{
    if frames.len() == 0 {
        seq![Event::Written]
    } else {
        seq![
            Event::Written,
            Event::Decoded { linesize: frames[0].linesize },
            Event::Planes(frames[0].planes),
        ] + smooth_events(frames.drop_first())
    }
}

/// What the caller reports when the frame after `frames` fails to decode.
pub open spec fn events_with_corrupt_frame(frames: Seq<DecodedFrame>) -> Seq<Event>
    decreases frames.len(),
{
    if frames.len() == 0 {
        seq![Event::Written, Event::DecodeFailed]
    } else {
        seq![
            Event::Written,
            Event::Decoded { linesize: frames[0].linesize },
            Event::Planes(frames[0].planes),
        ] + events_with_corrupt_frame(frames.drop_first())
    }
}

/// The actions of a batch in which all goes well: from `first` on, each frame
/// is asked for, its planes are asked for with corrected line sizes and its
/// record is written, in ascending order and without a gap; at the end the
/// batch reports `count` frames.
pub open spec fn smooth_actions(first: nat, frames: Seq<DecodedFrame>, count: nat) -> Seq<
    ActionView,
>
    decreases frames.len(),
{
    if frames.len() == 0 {
        seq![ActionView::Finish { frames: count }]
    } else {
        seq![
            ActionView::Decode(first),
            ActionView::ReadPlanes { linesize: corrected(frames[0].linesize@) },
            ActionView::Write(frames[0].record()),
        ] + smooth_actions(first + 1, frames.drop_first(), count)
    }
}

/// The records of `frames`, one after the other.
pub open spec fn records(frames: Seq<DecodedFrame>) -> Seq<u8>
    decreases frames.len(),
{
    if frames.len() == 0 {
        Seq::empty()
    } else {
        frames[0].record() + records(frames.drop_first())
    }
}

/// All bytes that `actions` hand out for writing, in their order.
pub open spec fn bytes_out(actions: Seq<ActionView>) -> Seq<u8>
    decreases actions.len(),
{
    if actions.len() == 0 {
        Seq::empty()
    } else {
        match actions[0] {
            ActionView::Write(bytes) => bytes + bytes_out(actions.drop_first()),
            _ => bytes_out(actions.drop_first()),
        }
    }
}

/// Whether the planes of every one of `frames` have the sizes that the stream
/// asks for.
pub open spec fn all_fit(params: StreamParams, frames: Seq<DecodedFrame>) -> bool {
    forall|i: int| 0 <= i < frames.len() ==> planes_fit(params, (#[trigger] frames[i]).planes)
}

/// Every step keeps a batch well-formed, never asks for a frame outside the
/// range or the stream, and asks for exactly the frame that follows those
/// already handed out. A batch whose range lies within the stream is never
/// given up for a frame that the stream lacks.
pub proof fn lemma_advance_keeps_order(s: ExtractionView, event: Event)
    requires
        s.wf(),
    ensures
        advance(s, event).0.wf(),
        advance(s, event).1 matches ActionView::Decode(frame) ==> {
            &&& s.start <= frame < s.end
            &&& frame < s.total
            &&& frame == s.start + s.frames_out()
        },
        advance(s, event).1 matches ActionView::Write(_) ==> advance(s, event).0.frames_out()
            == s.frames_out() + 1,
        advance(s, event).1 matches ActionView::Finish { frames } ==> frames == s.end - s.start
            && s.frames_out() == frames,
        advance(s, event).1 !is Write ==> advance(s, event).0.frames_out() == s.frames_out(),
        s.end <= s.total ==> !(advance(s, event).1 matches ActionView::Abort(
            ExtractError::Decode(DecodeError::OutOfRange { .. }),
        )),
{
}

/// What is handed out for a frame depends on its planes alone: two batches
/// of one stream that wait for planes, whatever their ranges and however far
/// they have come, hand out the same bytes for the same planes.
pub proof fn lemma_record_depends_on_planes_only(
    a: ExtractionView,
    b: ExtractionView,
    planes: FramePlanes,
)
    requires
        a.phase == Phase::Reading,
        b.phase == Phase::Reading,
        a.params == b.params,
        planes_fit(a.params, planes),
    ensures
        advance(a, Event::Planes(planes)).1 == advance(b, Event::Planes(planes)).1,
        advance(a, Event::Planes(planes)).1 == ActionView::Write(
            frame_record(planes.y@, planes.u@, planes.v@),
        ),
{
}

/// The three steps that take a batch through one frame that decodes and
/// fits.
proof fn lemma_one_frame(s: ExtractionView, frame: DecodedFrame, events: Seq<Event>)
    requires
        s.wf(),
        s.phase == Phase::Writing,
        s.next < s.end <= s.total,
        planes_fit(s.params, frame.planes),
        events.len() >= 3,
        events[0] == Event::Written,
        events[1] == (Event::Decoded { linesize: frame.linesize }),
        events[2] == Event::Planes(frame.planes),
    ensures
        ({
            let written = ExtractionView { next: s.next + 1, phase: Phase::Writing, ..s };
            let (last, later) = run(written, events.skip(3));
            &&& written.wf()
            &&& run(s, events) == (
                last,
                seq![
                    ActionView::Decode(s.next),
                    ActionView::ReadPlanes { linesize: corrected(frame.linesize@) },
                    ActionView::Write(frame.record()),
                ] + later,
            )
        }),
{
    let asked = s.in_phase(Phase::Decoding);
    let reading = s.in_phase(Phase::Reading);
    let written = ExtractionView { next: s.next + 1, phase: Phase::Writing, ..s };
    let first = events.drop_first();
    let second = first.drop_first();
    assert(second.drop_first() =~= events.skip(3));
    assert(first[0] == events[1]);
    assert(second[0] == events[2]);
    let (last, later) = run(written, events.skip(3));
    let read = ActionView::ReadPlanes { linesize: corrected(frame.linesize@) };
    assert(advance(s, events[0]) == (asked, ActionView::Decode(s.next)));
    assert(advance(asked, first[0]) == (reading, read));
    assert(advance(reading, second[0]) == (written, ActionView::Write(frame.record())));
    assert(run(reading, second) == (last, seq![ActionView::Write(frame.record())] + later));
    assert(run(asked, first) == (
        last,
        seq![read] + (seq![ActionView::Write(frame.record())] + later),
    ));
    assert(seq![ActionView::Decode(s.next)] + (seq![read] + (seq![
        ActionView::Write(frame.record()),
    ] + later)) =~= seq![ActionView::Decode(s.next), read, ActionView::Write(frame.record())]
        + later);
}

/// The bytes that a frame's three actions and what follows hand out.
proof fn lemma_bytes_of_one_frame(
    decode: ActionView,
    read: ActionView,
    record: Seq<u8>,
    later: Seq<ActionView>,
)
    requires
        decode is Decode,
        read is ReadPlanes,
    ensures
        bytes_out(seq![decode, read, ActionView::Write(record)] + later) == record + bytes_out(
            later,
        ),
{
    let actions = seq![decode, read, ActionView::Write(record)] + later;
    let first = actions.drop_first();
    let second = first.drop_first();
    assert(first[0] == read);
    assert(second[0] == ActionView::Write(record));
    assert(second.drop_first() =~= later);
    assert(bytes_out(second) == record + bytes_out(later));
    assert(bytes_out(first) == bytes_out(second));
}

/// A batch in which every frame decodes and every write succeeds asks for
/// the frames of its range in ascending order, one at a time, reads each
/// frame's planes with corrected line sizes, hands out one record for each
/// frame in that order, and finishes with their count.
pub proof fn lemma_smooth_run(s: ExtractionView, frames: Seq<DecodedFrame>)
    requires
        s.wf(),
        s.phase == Phase::Writing,
        s.next + frames.len() == s.end,
        s.end <= s.total,
        all_fit(s.params, frames),
    ensures
        run(s, smooth_events(frames)) == (
            ExtractionView { next: s.end, phase: Phase::Finished, ..s },
            smooth_actions(s.next, frames, (s.end - s.start) as nat),
        ),
        bytes_out(smooth_actions(s.next, frames, (s.end - s.start) as nat)) == records(frames),
    decreases frames.len(),
{
    let events = smooth_events(frames);
    let count = (s.end - s.start) as nat;
    let actions = smooth_actions(s.next, frames, count);
    if frames.len() == 0 {
        let done = s.in_phase(Phase::Finished);
        assert(events.drop_first() =~= Seq::<Event>::empty());
        assert(run(done, events.drop_first()) == (done, Seq::<ActionView>::empty()));
        assert(seq![ActionView::Finish { frames: count }] + Seq::<ActionView>::empty() =~= seq![
            ActionView::Finish { frames: count },
        ]);
        assert(actions.drop_first() =~= Seq::<ActionView>::empty());
        assert(bytes_out(actions.drop_first()) =~= Seq::<u8>::empty());
    } else {
        let rest = frames.drop_first();
        let written = ExtractionView { next: s.next + 1, phase: Phase::Writing, ..s };
        assert(planes_fit(s.params, frames[0].planes));
        assert(events.skip(3) =~= smooth_events(rest));
        lemma_one_frame(s, frames[0], events);
        assert(all_fit(s.params, rest)) by {
            assert forall|i: int| 0 <= i < rest.len() implies planes_fit(
                s.params,
                (#[trigger] rest[i]).planes,
            ) by {
                assert(rest[i] == frames[i + 1]);
            }
        }
        lemma_smooth_run(written, rest);
        lemma_bytes_of_one_frame(
            ActionView::Decode(s.next),
            ActionView::ReadPlanes { linesize: corrected(frames[0].linesize@) },
            frames[0].record(),
            smooth_actions(s.next + 1, rest, count),
        );
    }
}

/// A range that is extracted in two parts gives the records of the whole:
/// the records of two runs of frames, one after the other, are the records of
/// the frames taken together.
pub proof fn lemma_records_of_parts(first: Seq<DecodedFrame>, second: Seq<DecodedFrame>)
    ensures
        records(first + second) == records(first) + records(second),
    decreases first.len(),
{
    if first.len() == 0 {
        assert(first + second =~= second);
    } else {
        lemma_records_of_parts(first.drop_first(), second);
        assert((first + second).drop_first() =~= first.drop_first() + second);
    }
}

/// A frame that fails to decode ends the batch at once: the action names the
/// frame, the records of the frames before it have been handed out and
/// nothing more, and whatever is reported afterwards is refused and changes
/// nothing.
pub proof fn lemma_corrupt_frame_aborts(s: ExtractionView, frames: Seq<DecodedFrame>)
    requires
        s.wf(),
        s.phase == Phase::Writing,
        s.next + frames.len() < s.end,
        s.end <= s.total,
        all_fit(s.params, frames),
    ensures
        ({
            let (last, actions) = run(s, events_with_corrupt_frame(frames));
            &&& last == ExtractionView { next: s.next + frames.len(), phase: Phase::Failed, ..s }
            &&& actions.len() == 3 * frames.len() + 2
            &&& actions.last() == ActionView::Abort(
                ExtractError::Decode(
                    DecodeError::CorruptFrame { frame: (s.next + frames.len()) as usize },
                ),
            )
            &&& bytes_out(actions) == records(frames)
            &&& forall|event: Event| #[trigger]
                advance(last, event) == (last, ActionView::Abort(ExtractError::OutOfTurn))
        }),
    decreases frames.len(),
{
    let events = events_with_corrupt_frame(frames);
    if frames.len() == 0 {
        let asked = s.in_phase(Phase::Decoding);
        let tail = events.drop_first();
        let error = ExtractError::Decode(DecodeError::CorruptFrame { frame: s.next as usize });
        let failed = s.in_phase(Phase::Failed);
        assert(advance(s, events[0]) == (asked, ActionView::Decode(s.next)));
        assert(tail[0] == Event::DecodeFailed);
        assert(advance(asked, tail[0]) == (failed, ActionView::Abort(error)));
        assert(tail.drop_first() =~= Seq::<Event>::empty());
        assert(run(failed, tail.drop_first()) == (failed, Seq::<ActionView>::empty()));
        assert(run(asked, tail) == (failed, seq![ActionView::Abort(error)] + Seq::empty()));
        let actions = run(s, events).1;
        assert(actions =~= seq![ActionView::Decode(s.next), ActionView::Abort(error)]);
        assert(actions.drop_first() =~= seq![ActionView::Abort(error)]);
        assert(actions.drop_first().drop_first() =~= Seq::<ActionView>::empty());
        assert(bytes_out(actions.drop_first().drop_first()) =~= Seq::<u8>::empty());
        assert(bytes_out(actions.drop_first()) =~= Seq::<u8>::empty());
    } else {
        let rest = frames.drop_first();
        let written = ExtractionView { next: s.next + 1, phase: Phase::Writing, ..s };
        assert(planes_fit(s.params, frames[0].planes));
        assert(events.skip(3) =~= events_with_corrupt_frame(rest));
        lemma_one_frame(s, frames[0], events);
        assert(all_fit(s.params, rest)) by {
            assert forall|i: int| 0 <= i < rest.len() implies planes_fit(
                s.params,
                (#[trigger] rest[i]).planes,
            ) by {
                assert(rest[i] == frames[i + 1]);
            }
        }
        lemma_corrupt_frame_aborts(written, rest);
        let (last, later) = run(written, events_with_corrupt_frame(rest));
        let actions = run(s, events).1;
        assert(actions.last() == later.last());
        lemma_bytes_of_one_frame(
            ActionView::Decode(s.next),
            ActionView::ReadPlanes { linesize: corrected(frames[0].linesize@) },
            frames[0].record(),
            later,
        );
    }
}

/// The extraction of one range of one stream.
#[derive(Debug)]
pub struct Extraction {
    params: StreamParams,
    start: usize,
    end: usize,
    total_frames: usize,
    next: usize,
    phase: Phase,
}

impl View for Extraction {
    type V = ExtractionView;

    closed spec fn view(&self) -> ExtractionView {
        ExtractionView {
            params: self.params,
            start: self.start as nat,
            end: self.end as nat,
            total: self.total_frames as nat,
            next: self.next as nat,
            phase: self.phase,
        }
    }
}

impl Extraction {
    #[verifier::type_invariant]
    spec fn valid(self) -> bool {
        self@.wf()
    }

    /// Starts the extraction of `range` from a stream of `total_frames`
    /// frames. The first action is to write the stream's header.
    ///
    /// Fails exactly when the header cannot be encoded, that is when the
    /// dimensions are too large.
    pub fn begin(params: StreamParams, range: FrameRange, total_frames: usize) -> (r: Result<
        (Extraction, Action),
        ExtractError,
    >)
        ensures
            match r {
                Ok((batch, action)) => {
                    &&& batch@ == (ExtractionView {
                        params,
                        start: range.spec_start(),
                        end: range.spec_end(),
                        total: total_frames as nat,
                        next: range.spec_start(),
                        phase: Phase::Writing,
                    })
                    &&& batch@.wf()
                    &&& action@ == ActionView::Write(stream_header(params))
                },
                Err(e) => !dims_fit(params) && e == ExtractError::Serialization(
                    SerializationError::Header { reason: ContainerError::DimensionsTooLarge },
                ),
            },
    {
        match encode_header(&params) {
            Ok(header) => {
                let start = range.start();
                let end = range.end();
                let batch = Extraction {
                    params,
                    start,
                    end,
                    total_frames,
                    next: start,
                    phase: Phase::Writing,
                };
                Ok((batch, Action::Write(header)))
            },
            Err(reason) => Err(
                ExtractError::Serialization(SerializationError::Header { reason }),
            ),
        }
    }

    /// Takes what the caller reports and says what to do next.
    pub fn step(&mut self, event: Event) -> (action: Action)
        ensures
            (final(self)@, action@) == advance(old(self)@, event),
            final(self)@.wf(),
    {
        proof {
            use_type_invariant(&*self);
        }
        let mut next: usize = self.next;
        let (phase, action): (Phase, Action) = match self.phase {
            Phase::Writing => match event {
                Event::Written => if self.next >= self.end {
                    (Phase::Finished, Action::Finish { frames: self.end - self.start })
                } else if self.next >= self.total_frames {
                    (
                        Phase::Failed,
                        Action::Abort(
                            ExtractError::Decode(DecodeError::OutOfRange { frame: self.next }),
                        ),
                    )
                } else {
                    (Phase::Decoding, Action::Decode(self.next))
                },
                Event::WriteFailed => (
                    Phase::Failed,
                    Action::Abort(ExtractError::Serialization(SerializationError::Io)),
                ),
                _ => (Phase::Failed, Action::Abort(ExtractError::OutOfTurn)),
            },
            Phase::Decoding => match event {
                Event::Decoded { linesize } => (
                    Phase::Reading,
                    Action::ReadPlanes { linesize: corrected_linesize(linesize) },
                ),
                Event::DecodeFailed => (
                    Phase::Failed,
                    Action::Abort(
                        ExtractError::Decode(DecodeError::CorruptFrame { frame: self.next }),
                    ),
                ),
                _ => (Phase::Failed, Action::Abort(ExtractError::OutOfTurn)),
            },
            Phase::Reading => match event {
                Event::Planes(planes) => match encode_frame(&self.params, &planes) {
                    Ok(record) => {
                        next = next + 1;
                        (Phase::Writing, Action::Write(record))
                    },
                    Err(reason) => (
                        Phase::Failed,
                        Action::Abort(
                            ExtractError::Serialization(
                                SerializationError::Frame { frame: self.next, reason },
                            ),
                        ),
                    ),
                },
                _ => (Phase::Failed, Action::Abort(ExtractError::OutOfTurn)),
            },
            Phase::Finished => (Phase::Finished, Action::Abort(ExtractError::OutOfTurn)),
            Phase::Failed => (Phase::Failed, Action::Abort(ExtractError::OutOfTurn)),
        };
        *self = Extraction {
            params: self.params,
            start: self.start,
            end: self.end,
            total_frames: self.total_frames,
            next,
            phase,
        };
        action
    }

    /// What the machine waits for.
    pub fn phase(&self) -> (phase: Phase)
        ensures
            phase == self@.phase,
    {
        self.phase
    }

    /// How many frames have been handed out for writing.
    pub fn frames_out(&self) -> (n: usize)
        ensures
            n == self@.frames_out(),
    {
        proof {
            use_type_invariant(self);
        }
        self.next - self.start
    }
}

} // verus!
