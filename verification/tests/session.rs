use frame_extract::driver::{Action, ExtractError, SerializationError};
use frame_extract::container::ContainerError;
use frame_extract::format::{standard_candidates, NegotiationError, PixelFormat};
use frame_extract::naming::OutputTarget;
use frame_extract::range::RangeError;
use frame_extract::request::RequestError;
use frame_extract::session::{
    completion_line, summary_line, Session, SessionError, VideoProperties, FORMAT_PROBE_FRAME,
    SETTLE_MILLIS, SIZE_PROBE_FRAME,
};

fn full_hd(native_format: i32) -> VideoProperties {
    VideoProperties {
        width: 1920,
        height: 1080,
        scaled_width: -1,
        scaled_height: -1,
        rate_num: 24000,
        rate_den: 1001,
        total_frames: 100,
        native_format,
    }
}

fn open(native_format: i32) -> Session {
    let accepted = standard_candidates(0, 62, 4);
    Session::open(full_hd(native_format), &accepted, OutputTarget::Folder(None)).unwrap()
}

#[test]
fn session_settles_the_format_once() {
    let session = open(0);
    assert_eq!(session.format().format(), PixelFormat::Yuv420p);
    let params = session.stream_params();
    assert_eq!((params.width, params.height), (1920, 1080));
    assert_eq!((params.rate_num, params.rate_den), (24000, 1001));
    assert_eq!(params.format, PixelFormat::Yuv420p);
    assert_eq!(session.properties().total_frames, 100);
    assert_eq!(session.line_sizes(), Some([1920, 480, 480, 0]));
    assert_eq!(open(62).line_sizes(), Some([3840, 960, 960, 0]));
    assert_eq!(open(4).line_sizes(), Some([1920, 960, 960, 0]));
}

#[test]
fn session_refuses_a_stream_in_another_format() {
    let accepted = standard_candidates(0, 62, 4);
    let e = Session::open(full_hd(23), &accepted, OutputTarget::Folder(None)).unwrap_err();
    assert_eq!(e, NegotiationError::Unsupported { format: 23 });
    assert_eq!(e.message(), "Unsupported colorspace: 23");
}

#[test]
fn plan_of_a_whole_stream() {
    let job = open(0).plan("0 100\n").unwrap();
    assert_eq!((job.range.start(), job.range.end()), (0, 100));
    assert_eq!(job.path, "./0-100.y4m");
    assert_eq!(completion_line(&job), "0 ./0-100.y4m");
}

#[test]
fn plan_names_the_file_after_the_clamped_end() {
    let accepted = standard_candidates(0, 62, 4);
    let target = OutputTarget::Folder(Some(String::from("out")));
    let session = Session::open(full_hd(0), &accepted, target).unwrap();
    let job = session.plan("50 200\n").unwrap();
    assert_eq!((job.range.start(), job.range.end(), job.range.len()), (50, 100, 50));
    assert_eq!(job.path, "out/50-100.y4m");
    assert_eq!(completion_line(&job), "50 out/50-100.y4m");
}

#[test]
fn plan_writes_every_range_to_the_one_file_that_was_named() {
    let accepted = standard_candidates(0, 62, 4);
    let target = OutputTarget::File(String::from("clip.y4m"));
    let session = Session::open(full_hd(0), &accepted, target).unwrap();
    assert_eq!(session.plan("1 2").unwrap().path, "clip.y4m");
    assert_eq!(session.plan("3 4").unwrap().path, "clip.y4m");
}

#[test]
fn session_goes_on_after_a_request_that_was_refused() {
    let session = open(0);
    let e = session.plan("20 10\n").unwrap_err();
    assert_eq!(e, SessionError::Range(RangeError::EmptyRange { start: 20, end: 10 }));
    assert!(!e.ends_session());
    let e = session.plan("100 200\n").unwrap_err();
    assert_eq!(
        e,
        SessionError::Range(RangeError::StartPastEnd { start: 100, total_frames: 100 })
    );
    assert!(!e.ends_session());
    let e = session.plan("ten twenty\n").unwrap_err();
    assert_eq!(e, SessionError::Request(RequestError::InvalidNumber));
    assert!(!e.ends_session());
    let e = session.plan("10\n").unwrap_err();
    assert_eq!(e, SessionError::Request(RequestError::MissingField));
    assert!(!e.ends_session());
    let job = session.plan("10 20\n").unwrap();
    assert_eq!((job.range.start(), job.range.end()), (10, 20));
    let again = session.plan("10 20\n").unwrap();
    assert_eq!(again.path, job.path);
}

#[test]
fn session_ends_with_the_input() {
    let e = open(0).plan("").unwrap_err();
    assert_eq!(e, SessionError::Request(RequestError::EndOfInput));
    assert!(e.ends_session());
}

#[test]
fn session_starts_a_batch_with_the_header() {
    let session = open(62);
    let job = session.plan("0 100").unwrap();
    let (batch, action) = session.begin(&job).unwrap();
    match action {
        Action::Write(header) => {
            assert_eq!(header, b"YUV4MPEG2 W1920 H1080 F24000:1001 C420p10\n".to_vec())
        }
        other => panic!("expected the header to be written, got {:?}", other),
    }
    assert_eq!(batch.frames_out(), 0);
}

#[test]
fn session_on_a_stream_too_large_starts_no_batch() {
    let mut properties = full_hd(0);
    properties.width = usize::MAX;
    let accepted = standard_candidates(0, 62, 4);
    let session = Session::open(properties, &accepted, OutputTarget::Folder(None)).unwrap();
    let job = session.plan("0 1").unwrap();
    let e = session.begin(&job).unwrap_err();
    assert_eq!(
        e,
        ExtractError::Serialization(SerializationError::Header {
            reason: ContainerError::DimensionsTooLarge
        })
    );
}

#[test]
fn summary_line_lists_denominator_before_numerator() {
    assert_eq!(summary_line(&full_hd(0)), "1920 1080 100 1001 24000");
}

#[test]
fn probing_takes_the_first_two_frames() {
    assert_eq!(SIZE_PROBE_FRAME, 0);
    assert_eq!(FORMAT_PROBE_FRAME, 1);
    assert_eq!(SETTLE_MILLIS, 100);
}
