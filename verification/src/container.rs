//! The Y4M stream: one header, then one record for each frame. The bytes are
//! made by the `y4m` crate; this module says what they are.

use vstd::prelude::*;
use crate::decimal::{ascii, decimal_text};
use crate::format::PixelFormat;

verus! {

/// The error type of the `y4m` crate.
#[verifier::external_type_specification]
#[verifier::external_body]
pub struct ExY4mError(y4m::Error);

/// What the header of a stream declares.
#[derive(Clone, Copy, Debug)]
pub struct StreamParams {
    pub width: usize,
    pub height: usize,
    /// Frame rate, numerator.
    pub rate_num: usize,
    /// Frame rate, denominator.
    pub rate_den: usize,
    pub format: PixelFormat,
}

/// The three planes of one frame.
#[derive(Debug)]
pub struct FramePlanes {
    pub y: Vec<u8>,
    pub u: Vec<u8>,
    pub v: Vec<u8>,
}

/// Why nothing was encoded.
#[derive(Clone, Copy, Debug, PartialEq, Eq, Structural)]
pub enum ContainerError {
    /// Width or height is so large that a plane's size does not fit in
    /// `usize`.
    DimensionsTooLarge,
    /// A plane does not have the size that the stream's header implies.
    PlaneSizeMismatch,
}

/// The colorspace tag that stands for `format` in a header.
pub open spec fn colorspace_text(format: PixelFormat) -> Seq<char> {
    match format {
        PixelFormat::Yuv420p => "C420"@,
        PixelFormat::Yuv420p10le => "C420p10"@,
        PixelFormat::Yuv422p => "C422"@,
    }
}

/// The header of a stream: the magic word, width, height, frame rate as
/// `num:den` and the colorspace tag, closed by a line feed.
pub open spec fn stream_header(p: StreamParams) -> Seq<u8> {
    ascii(
        "YUV4MPEG2 W"@ + decimal_text(p.width as nat) + " H"@ + decimal_text(p.height as nat)
            + " F"@ + decimal_text(p.rate_num as nat) + ":"@ + decimal_text(p.rate_den as nat)
            + " "@ + colorspace_text(p.format),
    ).push(10u8)
}

/// The record of one frame: the word `FRAME`, a line feed, then the three
/// planes, luma first.
pub open spec fn frame_record(y: Seq<u8>, u: Seq<u8>, v: Seq<u8>) -> Seq<u8> {
    ascii("FRAME"@).push(10u8) + y + u + v
}

/// Bytes in the luma plane of a frame of the stream.
pub open spec fn luma_size(p: StreamParams) -> int {
    p.width * p.height * p.format.spec_bytes_per_sample()
}

/// Bytes in each chroma plane of a frame of the stream. Odd widths and
/// heights round up.
pub open spec fn chroma_size(p: StreamParams) -> int {
    match p.format {
        PixelFormat::Yuv422p => ((p.width + 1) / 2) * p.height * p.format.spec_bytes_per_sample(),
        _ => ((p.width + 1) / 2) * ((p.height + 1) / 2) * p.format.spec_bytes_per_sample(),
    }
}

/// Whether the plane sizes of the stream can be computed in `usize`.
pub open spec fn dims_fit(p: StreamParams) -> bool {
    &&& p.width < usize::MAX
    &&& p.height < usize::MAX
    &&& p.width * p.height * p.format.spec_bytes_per_sample() <= usize::MAX
}

/// Whether the three planes have the sizes that the stream asks for.
pub open spec fn planes_fit(p: StreamParams, planes: FramePlanes) -> bool {
    &&& planes.y@.len() == luma_size(p)
    &&& planes.u@.len() == chroma_size(p)
    &&& planes.v@.len() == chroma_size(p)
}

/// Planes whose rows lie at the format's strides have the sizes that the
/// stream asks for: `height` rows of the luma stride make the luma plane, and
/// `height` rows of the chroma stride make a chroma plane. This holds where
/// the width is a multiple of 4 and the height is even.
pub proof fn lemma_strides_fill_planes(p: StreamParams)
    requires
        p.width % 4 == 0,
        p.height % 2 == 0,
    ensures
        p.format.luma_stride(p.width as nat) * p.height == luma_size(p),
        p.format.chroma_stride(p.width as nat) * p.height == chroma_size(p),
{
    let w = p.width as int;
    let h = p.height as int;
    let a = w / 4;
    let b = h / 2;
    assert(w == 4 * a && h == 2 * b);
    assert((w + 1) / 2 == 2 * a && (h + 1) / 2 == b && w / 2 == 2 * a);
    assert(w * h * 1 == w * h && (w * 2) * h == w * h * 2) by (nonlinear_arith);
    assert(a * h == (2 * a) * b * 1 && (a * 2) * h == (2 * a) * b * 2 && (2 * a) * h == (2 * a)
        * h * 1) by (nonlinear_arith)
        requires
            h == 2 * b,
    ;
    match p.format {
        PixelFormat::Yuv420p => {
            assert(chroma_size(p) == (2 * a) * b * 1);
        },
        PixelFormat::Yuv420p10le => {
            assert(chroma_size(p) == (2 * a) * b * 2);
        },
        PixelFormat::Yuv422p => {
            assert(chroma_size(p) == (2 * a) * h * 1);
        },
    }
}

/// Calls `y4m::encode`, `EncoderBuilder::with_colorspace` and
/// `EncoderBuilder::write_header` on an empty vector and hands the vector
/// back. The contract claims that the vector then holds the header as
/// `stream_header` spells it: `YUV4MPEG2 `, `W`, `H` and `F` with their
/// numbers in decimal, the colorspace's name, a line feed; no pixel aspect,
/// which `y4m` leaves out at its default of 1:1. Writing into a vector does
/// not fail, so the call's result holds nothing to report. `y4m` computes the
/// plane sizes on the way, which is why they have to fit.
#[verifier::external_body]
fn y4m_header(p: &StreamParams) -> (out: Vec<u8>)
    requires
        dims_fit(*p),
    ensures
        out@ == stream_header(*p),
{
    let colorspace = match p.format {
        PixelFormat::Yuv420p => y4m::Colorspace::C420,
        PixelFormat::Yuv420p10le => y4m::Colorspace::C420p10,
        PixelFormat::Yuv422p => y4m::Colorspace::C422,
    };
    let mut out: Vec<u8> = Vec::new();
    let _ = y4m::encode(p.width, p.height, y4m::Ratio::new(p.rate_num, p.rate_den))
        .with_colorspace(colorspace)
        .write_header(&mut out);
    out
}

/// Calls `EncoderBuilder::write_header` as `y4m_header` does and then
/// `Encoder::write_frame` with a `y4m::Frame` of the three planes, all on one
/// empty vector. The contract claims of `write_frame` that it refuses the
/// frame exactly when a plane's length differs from the size that `y4m`
/// computes from width, height and colorspace, and that it otherwise appends
/// `FRAME`, a line feed and the planes in order, so that the vector holds a
/// whole stream of one frame.
#[verifier::external_body]
fn y4m_single_frame_stream(p: &StreamParams, planes: &FramePlanes) -> (out: Result<
    Vec<u8>,
    y4m::Error,
>)
    requires
        dims_fit(*p),
    ensures
        out is Ok <==> planes_fit(*p, *planes),
        out matches Ok(bytes) ==> bytes@ == stream_header(*p) + frame_record(
            planes.y@,
            planes.u@,
            planes.v@,
        ),
{
    let colorspace = match p.format {
        PixelFormat::Yuv420p => y4m::Colorspace::C420,
        PixelFormat::Yuv420p10le => y4m::Colorspace::C420p10,
        PixelFormat::Yuv422p => y4m::Colorspace::C422,
    };
    let mut out: Vec<u8> = Vec::new();
    let written = match y4m::encode(p.width, p.height, y4m::Ratio::new(p.rate_num, p.rate_den))
        .with_colorspace(colorspace)
        .write_header(&mut out) {
        Ok(mut encoder) => encoder.write_frame(
            &y4m::Frame::new([&planes.y[..], &planes.u[..], &planes.v[..]], None),
        ),
        Err(e) => Err(e),
    };
    written.and(Ok(out))
}

/// Whether the plane sizes of the stream can be computed in `usize`.
pub fn dimensions_fit(p: &StreamParams) -> (fit: bool)
    ensures
        fit == dims_fit(*p),
{
    if p.width == usize::MAX || p.height == usize::MAX {
        return false;
    }
    let bytes: usize = match p.format {
        PixelFormat::Yuv420p10le => 2,
        _ => 1,
    };
    match p.width.checked_mul(p.height) {
        None => {
            assert(p.width * p.height * bytes >= p.width * p.height) by (nonlinear_arith)
                requires
                    bytes >= 1,
            ;
            false
        },
        Some(area) => area.checked_mul(bytes).is_some(),
    }
}

/// The header of the stream.
///
/// Fails exactly when the dimensions are too large for the plane sizes to be
/// computed.
pub fn encode_header(p: &StreamParams) -> (r: Result<Vec<u8>, ContainerError>)
    ensures
        match r {
            Ok(bytes) => dims_fit(*p) && bytes@ == stream_header(*p),
            Err(e) => !dims_fit(*p) && e == ContainerError::DimensionsTooLarge,
        },
{
    if !dimensions_fit(p) {
        return Err(ContainerError::DimensionsTooLarge);
    }
    Ok(y4m_header(p))
}

/// The record of one frame of the stream.
///
/// `y4m` hands out a record only behind the header it has written, so a
/// stream of one frame is encoded and the header taken off its front.
///
/// Fails with `DimensionsTooLarge` exactly when the dimensions are too large
/// for the plane sizes to be computed, and with `PlaneSizeMismatch` exactly
/// when they are not and a plane has another size than the stream asks for.
pub fn encode_frame(p: &StreamParams, planes: &FramePlanes) -> (r: Result<
    Vec<u8>,
    ContainerError,
>)
    ensures
        match r {
            Ok(bytes) => dims_fit(*p) && planes_fit(*p, *planes) && bytes@ == frame_record(
                planes.y@,
                planes.u@,
                planes.v@,
            ),
            Err(ContainerError::DimensionsTooLarge) => !dims_fit(*p),
            Err(ContainerError::PlaneSizeMismatch) => dims_fit(*p) && !planes_fit(*p, *planes),
        },
{
    if !dimensions_fit(p) {
        return Err(ContainerError::DimensionsTooLarge);
    }
    let header = y4m_header(p);
    match y4m_single_frame_stream(p, planes) {
        Ok(mut stream) => {
            let record = stream.split_off(header.len());
            assert(record@ =~= frame_record(planes.y@, planes.u@, planes.v@));
            Ok(record)
        },
        Err(_) => Err(ContainerError::PlaneSizeMismatch),
    }
}

} // verus!
