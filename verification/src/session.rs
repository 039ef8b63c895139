//! A session on one stream: the format is settled once, and range requests
//! are taken one after the other for as long as input comes.

use vstd::prelude::*;
use vstd::string::*;
use crate::container::{dims_fit, stream_header, ContainerError, StreamParams};
use crate::decimal::{decimal_text, push_decimal};
use crate::driver::{
    Action,
    ActionView,
    ExtractError,
    Extraction,
    ExtractionView,
    Phase,
    SerializationError,
};
use crate::format::{
    is_first_match,
    no_match,
    select_output_format,
    FormatCandidate,
    NegotiationError,
    PixelFormat,
    PixelFormatSpec,
};
use crate::naming::{output_path, output_path_of, OutputTarget};
use crate::range::{clamped_end, FrameRange, RangeError};
use crate::request::{parse_request, requested, RequestError};

verus! {

/// What is known of a stream once its first frames are decoded. It holds for
/// as long as the stream is open.
#[derive(Clone, Copy, Debug)]
pub struct VideoProperties {
    /// Width of the pictures as they are encoded.
    pub width: usize,
    /// Height of the pictures as they are encoded.
    pub height: usize,
    /// Width of the pictures as they are to be shown.
    pub scaled_width: i32,
    /// Height of the pictures as they are to be shown.
    pub scaled_height: i32,
    /// Frame rate, numerator.
    pub rate_num: usize,
    /// Frame rate, denominator.
    pub rate_den: usize,
    /// Frames in the video track.
    pub total_frames: usize,
    /// The number under which the decoder reports the format of its frames.
    pub native_format: i32,
}

/// The frame whose decoding tells the size of the pictures: the first.
pub const SIZE_PROBE_FRAME: usize = 0;

/// The frame whose decoding tells the format that frames come in: the second,
/// decoded once the decoder has been told the input format.
pub const FORMAT_PROBE_FRAME: usize = 1;

/// Milliseconds to wait after the decoder has been told the input format and
/// before the next frame is asked of it.
pub const SETTLE_MILLIS: u64 = 100;

/// Why a line of input led to no extraction.
#[derive(Clone, Copy, Debug, PartialEq, Eq, Structural)]
pub enum SessionError {
    Request(RequestError),
    Range(RangeError),
}

impl SessionError {
    /// Whether no further request can follow.
    pub open spec fn spec_ends_session(self) -> bool {
        self == SessionError::Request(RequestError::EndOfInput)
    }

    /// Whether no further request can follow: only the end of the input
    /// closes a session, every other error leaves it open for the next line.
    pub fn ends_session(&self) -> (ends: bool)
        ensures
            ends == self.spec_ends_session(),
    {
        match self {
            SessionError::Request(RequestError::EndOfInput) => true,
            _ => false,
        }
    }
}

/// One extraction that was asked for: its range and where its stream goes.
#[derive(Debug)]
pub struct Job {
    pub range: FrameRange,
    pub path: String,
}

/// The line that tells of a stream: width, height, number of frames, frame
/// rate denominator, frame rate numerator, with a space between each.
pub open spec fn summary_text(p: VideoProperties) -> Seq<char> {
    decimal_text(p.width as nat) + " "@ + decimal_text(p.height as nat) + " "@ + decimal_text(
        p.total_frames as nat,
    ) + " "@ + decimal_text(p.rate_den as nat) + " "@ + decimal_text(p.rate_num as nat)
}

/// The line that tells of a finished extraction: its first frame, a space,
/// and the path of its stream.
pub open spec fn completion_text(start: nat, path: Seq<char>) -> Seq<char> {
    decimal_text(start) + " "@ + path
}

/// The line that tells of a stream.
pub fn summary_line(p: &VideoProperties) -> (line: String)
    ensures
        line@ == summary_text(*p),
{
    let mut line = String::new();
    push_decimal(&mut line, p.width);
    line.append(" ");
    push_decimal(&mut line, p.height);
    line.append(" ");
    push_decimal(&mut line, p.total_frames);
    line.append(" ");
    push_decimal(&mut line, p.rate_den);
    line.append(" ");
    push_decimal(&mut line, p.rate_num);
    line
}

/// The line that tells of a finished extraction.
pub fn completion_line(job: &Job) -> (line: String)
    ensures
        line@ == completion_text(job.range.spec_start(), job.path@),
{
    let mut line = String::new();
    push_decimal(&mut line, job.range.start());
    line.append(" ");
    line.append(job.path.as_str());
    line
}

/// A stream that is open for extraction.
#[derive(Debug)]
pub struct Session {
    properties: VideoProperties,
    format: PixelFormatSpec,
    target: OutputTarget,
}

impl Session {
    /// What is known of the stream.
    pub closed spec fn spec_properties(self) -> VideoProperties {
        self.properties
    }

    /// The format that the stream is written in.
    pub closed spec fn spec_format(self) -> PixelFormat {
        self.format.spec_format()
    }

    /// Where output goes.
    pub closed spec fn spec_target(self) -> OutputTarget {
        self.target
    }

    /// What the header of every stream of the session declares: the encoded
    /// size, the frame rate and the format.
    pub open spec fn spec_params(self) -> StreamParams {
        StreamParams {
            width: self.spec_properties().width,
            height: self.spec_properties().height,
            rate_num: self.spec_properties().rate_num,
            rate_den: self.spec_properties().rate_den,
            format: self.spec_format(),
        }
    }

    /// Opens a session on a stream. The output format is the first of
    /// `accepted` that is the stream's own; a stream in none of them is
    /// refused, and the error names its format.
    pub fn open(
        properties: VideoProperties,
        accepted: &Vec<FormatCandidate>,
        target: OutputTarget,
    ) -> (r: Result<Session, NegotiationError>)
        ensures
            match r {
                Ok(session) => {
                    &&& session.spec_properties() == properties
                    &&& session.spec_target() == target
                    &&& exists|i: int|
                        is_first_match(properties.native_format, accepted@, i)
                            && session.spec_format() == (#[trigger] accepted@[i]).format
                },
                Err(e) => no_match(properties.native_format, accepted@) && e == (
                NegotiationError::Unsupported { format: properties.native_format }),
            },
    {
        match select_output_format(properties.native_format, accepted) {
            Ok(format) => Ok(Session { properties, format, target }),
            Err(e) => Err(e),
        }
    }

    /// What is known of the stream.
    pub fn properties(&self) -> (p: VideoProperties)
        ensures
            p == self.spec_properties(),
    {
        self.properties
    }

    /// The format that the stream is written in.
    pub fn format(&self) -> (f: PixelFormatSpec)
        ensures
            f.spec_format() == self.spec_format(),
    {
        self.format
    }

    /// What the header of every stream of the session declares.
    pub fn stream_params(&self) -> (p: StreamParams)
        ensures
            p == self.spec_params(),
    {
        StreamParams {
            width: self.properties.width,
            height: self.properties.height,
            rate_num: self.properties.rate_num,
            rate_den: self.properties.rate_den,
            format: self.format.format(),
        }
    }

    /// The byte stride of each plane at the stream's width; `None` when the
    /// luma stride does not fit in `usize`.
    pub fn line_sizes(&self) -> (r: Option<[usize; 4]>)
        ensures
            r is Some <==> self.spec_format().luma_stride(self.spec_properties().width as nat)
                <= usize::MAX,
            r matches Some(s) ==> {
                &&& s[0] == self.spec_format().luma_stride(self.spec_properties().width as nat)
                &&& s[1] == self.spec_format().chroma_stride(self.spec_properties().width as nat)
                &&& s[2] == self.spec_format().chroma_stride(self.spec_properties().width as nat)
                &&& s[3] == 0
            },
    {
        self.format.plane_strides(self.properties.width)
    }

    /// Reads one line of input as a request and settles its range and its
    /// output path. The session itself does not change, whatever the line
    /// holds.
    ///
    /// The end of the range is cut to the stream's length. A line that is no
    /// request is refused with the reason, and so is a range whose start is
    /// not below both its end and the stream's length.
    pub fn plan(&self, line: &str) -> (r: Result<Job, SessionError>)
        ensures
            match requested(line.spec_bytes()) {
                Err(e) => r == Err::<Job, SessionError>(SessionError::Request(e)),
                Ok(request) => if request.start >= request.end {
                    r == Err::<Job, SessionError>(
                        SessionError::Range(
                            RangeError::EmptyRange { start: request.start, end: request.end },
                        ),
                    )
                } else if request.start >= self.spec_properties().total_frames {
                    r == Err::<Job, SessionError>(
                        SessionError::Range(
                            RangeError::StartPastEnd {
                                start: request.start,
                                total_frames: self.spec_properties().total_frames,
                            },
                        ),
                    )
                } else {
                    &&& r matches Ok(job)
                    &&& job.range.spec_start() == request.start
                    &&& job.range.spec_end() == clamped_end(
                        request.end as nat,
                        self.spec_properties().total_frames as nat,
                    )
                    &&& job.path@ == output_path_of(
                        self.spec_target(),
                        job.range.spec_start(),
                        job.range.spec_end(),
                    )
                },
            },
    {
        let request = match parse_request(line) {
            Ok(request) => request,
            Err(e) => {
                return Err(SessionError::Request(e));
            },
        };
        match FrameRange::resolve(request.start, request.end, self.properties.total_frames) {
            Ok(range) => {
                let path = output_path(&self.target, range.start(), range.end());
                Ok(Job { range, path })
            },
            Err(e) => Err(SessionError::Range(e)),
        }
    }

    /// Starts the extraction of a job's range. The first action is to write
    /// the stream's header.
    ///
    /// Fails exactly when the header cannot be encoded, that is when the
    /// stream's dimensions are too large.
    pub fn begin(&self, job: &Job) -> (r: Result<(Extraction, Action), ExtractError>)
        ensures
            match r {
                Ok((batch, action)) => {
                    &&& batch@ == (ExtractionView {
                        params: self.spec_params(),
                        start: job.range.spec_start(),
                        end: job.range.spec_end(),
                        total: self.spec_properties().total_frames as nat,
                        next: job.range.spec_start(),
                        phase: Phase::Writing,
                    })
                    &&& batch@.wf()
                    &&& action@ == ActionView::Write(stream_header(self.spec_params()))
                },
                Err(e) => !dims_fit(self.spec_params()) && e == ExtractError::Serialization(
                    SerializationError::Header { reason: ContainerError::DimensionsTooLarge },
                ),
            },
    {
        Extraction::begin(self.stream_params(), job.range, self.properties.total_frames)
    }
}

} // verus!
