use frame_extract::container::{encode_frame, encode_header, ContainerError, FramePlanes, StreamParams};
use frame_extract::format::PixelFormat;

fn params(width: usize, height: usize, format: PixelFormat) -> StreamParams {
    StreamParams { width, height, rate_num: 24000, rate_den: 1001, format }
}

#[test]
fn header_of_a_full_hd_stream() {
    let header = encode_header(&params(1920, 1080, PixelFormat::Yuv420p)).unwrap();
    assert_eq!(header, b"YUV4MPEG2 W1920 H1080 F24000:1001 C420\n".to_vec());
}

#[test]
fn header_names_each_colorspace() {
    let ten_bit = encode_header(&params(4, 2, PixelFormat::Yuv420p10le)).unwrap();
    assert_eq!(ten_bit, b"YUV4MPEG2 W4 H2 F24000:1001 C420p10\n".to_vec());
    let four_two_two = encode_header(&params(4, 2, PixelFormat::Yuv422p)).unwrap();
    assert_eq!(four_two_two, b"YUV4MPEG2 W4 H2 F24000:1001 C422\n".to_vec());
}

#[test]
fn header_refuses_dimensions_that_overflow() {
    let r = encode_header(&params(usize::MAX, 2, PixelFormat::Yuv420p));
    assert_eq!(r, Err(ContainerError::DimensionsTooLarge));
    let r = encode_header(&params(usize::MAX / 2, 3, PixelFormat::Yuv420p));
    assert_eq!(r, Err(ContainerError::DimensionsTooLarge));
    let r = encode_header(&params(usize::MAX / 2 + 1, 1, PixelFormat::Yuv420p10le));
    assert_eq!(r, Err(ContainerError::DimensionsTooLarge));
    assert!(encode_header(&params(usize::MAX / 2, 1, PixelFormat::Yuv420p10le)).is_ok());
}

#[test]
fn frame_record_is_the_word_and_the_planes() {
    let planes = FramePlanes { y: vec![1, 2, 3, 4, 5, 6, 7, 8], u: vec![9, 10], v: vec![11, 12] };
    let record = encode_frame(&params(4, 2, PixelFormat::Yuv420p), &planes).unwrap();
    let mut expected = b"FRAME\n".to_vec();
    expected.extend_from_slice(&[1, 2, 3, 4, 5, 6, 7, 8, 9, 10, 11, 12]);
    assert_eq!(record, expected);
}

#[test]
fn frame_record_of_odd_dimensions_rounds_chroma_up() {
    let planes = FramePlanes { y: vec![0; 15], u: vec![1; 6], v: vec![2; 6] };
    let record = encode_frame(&params(5, 3, PixelFormat::Yuv420p), &planes).unwrap();
    assert_eq!(record.len(), 6 + 15 + 6 + 6);
}

#[test]
fn frame_record_of_422_keeps_every_chroma_row() {
    let planes = FramePlanes { y: vec![0; 8], u: vec![1; 4], v: vec![2; 4] };
    let record = encode_frame(&params(4, 2, PixelFormat::Yuv422p), &planes).unwrap();
    assert_eq!(record.len(), 6 + 8 + 4 + 4);
    let halved = FramePlanes { y: vec![0; 8], u: vec![1; 2], v: vec![2; 2] };
    let r = encode_frame(&params(4, 2, PixelFormat::Yuv422p), &halved);
    assert_eq!(r, Err(ContainerError::PlaneSizeMismatch));
}

#[test]
fn frame_record_of_ten_bit_samples_takes_two_bytes_each() {
    let planes = FramePlanes { y: vec![0; 16], u: vec![1; 4], v: vec![2; 4] };
    let record = encode_frame(&params(4, 2, PixelFormat::Yuv420p10le), &planes).unwrap();
    assert_eq!(record.len(), 6 + 16 + 4 + 4);
}

#[test]
fn frame_with_a_wrong_plane_is_refused() {
    let planes = FramePlanes { y: vec![0; 8], u: vec![1; 4], v: vec![2; 2] };
    let r = encode_frame(&params(4, 2, PixelFormat::Yuv420p), &planes);
    assert_eq!(r, Err(ContainerError::PlaneSizeMismatch));
    let r = encode_frame(&params(usize::MAX, 2, PixelFormat::Yuv420p), &planes);
    assert_eq!(r, Err(ContainerError::DimensionsTooLarge));
}
