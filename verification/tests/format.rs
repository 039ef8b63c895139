use frame_extract::format::{
    corrected_linesize, select_output_format, standard_candidates, FormatCandidate,
    NegotiationError, PixelFormat,
};

#[test]
fn names_are_those_of_the_decoder() {
    assert_eq!(PixelFormat::Yuv420p.name(), "yuv420p");
    assert_eq!(PixelFormat::Yuv420p10le.name(), "yuv420p10le");
    assert_eq!(PixelFormat::Yuv422p.name(), "yuv422p");
}

#[test]
fn description_of_each_format() {
    let spec = PixelFormat::Yuv420p.describe();
    assert_eq!(spec.format(), PixelFormat::Yuv420p);
    assert_eq!(spec.plane_count(), 3);
    assert_eq!(spec.chroma_subsampling(), (2, 2));
    assert_eq!(spec.bytes_per_sample(), 1);
    let spec = PixelFormat::Yuv420p10le.describe();
    assert_eq!(spec.format(), PixelFormat::Yuv420p10le);
    assert_eq!(spec.plane_count(), 3);
    assert_eq!(spec.chroma_subsampling(), (2, 2));
    assert_eq!(spec.bytes_per_sample(), 2);
    let spec = PixelFormat::Yuv422p.describe();
    assert_eq!(spec.format(), PixelFormat::Yuv422p);
    assert_eq!(spec.plane_count(), 3);
    assert_eq!(spec.chroma_subsampling(), (2, 1));
    assert_eq!(spec.bytes_per_sample(), 1);
}

#[test]
fn strides_of_a_full_hd_picture() {
    assert_eq!(PixelFormat::Yuv420p.describe().plane_strides(1920), Some([1920, 480, 480, 0]));
    assert_eq!(
        PixelFormat::Yuv420p10le.describe().plane_strides(1920),
        Some([3840, 960, 960, 0])
    );
    assert_eq!(PixelFormat::Yuv422p.describe().plane_strides(1920), Some([1920, 960, 960, 0]));
}

#[test]
fn chroma_stride_of_420_is_a_quarter_of_the_width() {
    for width in [0usize, 1, 2, 3, 4, 5, 7, 8, 640, 1281, 1920, 3840] {
        let strides = PixelFormat::Yuv420p.describe().plane_strides(width).unwrap();
        assert_eq!(strides[1], width / 4);
        assert_eq!(strides[2], width / 4);
        let reported = [width as i32, (width / 2) as i32, (width / 2) as i32, 0];
        assert_eq!(corrected_linesize(reported)[1] as usize, strides[1]);
    }
}

#[test]
fn chroma_stride_rounds_down_before_it_is_scaled() {
    assert_eq!(PixelFormat::Yuv420p10le.describe().plane_strides(7), Some([14, 2, 2, 0]));
    assert_eq!(PixelFormat::Yuv422p.describe().plane_strides(7), Some([7, 3, 3, 0]));
}

#[test]
fn strides_that_do_not_fit_are_none() {
    assert_eq!(PixelFormat::Yuv420p10le.describe().plane_strides(usize::MAX), None);
    assert_eq!(PixelFormat::Yuv420p10le.describe().plane_strides(usize::MAX / 2 + 1), None);
    assert!(PixelFormat::Yuv420p10le.describe().plane_strides(usize::MAX / 2).is_some());
    assert!(PixelFormat::Yuv420p.describe().plane_strides(usize::MAX).is_some());
}

#[test]
fn correction_halves_the_chroma_line_sizes() {
    assert_eq!(corrected_linesize([1920, 960, 960, 0]), [1920, 480, 480, 0]);
    assert_eq!(corrected_linesize([64, 33, 31, 5]), [64, 16, 15, 5]);
    assert_eq!(corrected_linesize([-8, -7, -1, -3]), [-8, -3, 0, -3]);
    assert_eq!(
        corrected_linesize([i32::MIN, i32::MIN, i32::MAX, i32::MAX]),
        [i32::MIN, i32::MIN / 2, i32::MAX / 2, i32::MAX]
    );
}

#[test]
fn standard_candidates_keep_their_order() {
    let list = standard_candidates(0, 62, 4);
    assert_eq!(list.len(), 3);
    assert_eq!(list[0].format, PixelFormat::Yuv420p);
    assert_eq!(list[0].id, 0);
    assert_eq!(list[1].format, PixelFormat::Yuv420p10le);
    assert_eq!(list[1].id, 62);
    assert_eq!(list[2].format, PixelFormat::Yuv422p);
    assert_eq!(list[2].id, 4);
}

#[test]
fn selection_takes_the_format_of_the_stream() {
    let list = standard_candidates(0, 62, 4);
    assert_eq!(select_output_format(0, &list).unwrap().format(), PixelFormat::Yuv420p);
    assert_eq!(select_output_format(62, &list).unwrap().format(), PixelFormat::Yuv420p10le);
    assert_eq!(select_output_format(4, &list).unwrap().format(), PixelFormat::Yuv422p);
}

#[test]
fn selection_takes_the_first_of_two_that_match() {
    let list = vec![
        FormatCandidate { format: PixelFormat::Yuv422p, id: 3 },
        FormatCandidate { format: PixelFormat::Yuv420p10le, id: 9 },
        FormatCandidate { format: PixelFormat::Yuv420p, id: 9 },
    ];
    assert_eq!(select_output_format(9, &list).unwrap().format(), PixelFormat::Yuv420p10le);
    let all_unknown = standard_candidates(-1, -1, -1);
    assert_eq!(select_output_format(-1, &all_unknown).unwrap().format(), PixelFormat::Yuv420p);
}

#[test]
fn selection_refuses_another_format_and_names_it() {
    let list = standard_candidates(0, 62, 4);
    let e = select_output_format(5, &list).unwrap_err();
    assert_eq!(e, NegotiationError::Unsupported { format: 5 });
    assert_eq!(e.message(), "Unsupported colorspace: 5");
    let e = select_output_format(-1, &list).unwrap_err();
    assert_eq!(e.message(), "Unsupported colorspace: -1");
    let e = select_output_format(0, &Vec::new()).unwrap_err();
    assert_eq!(e, NegotiationError::Unsupported { format: 0 });
}
