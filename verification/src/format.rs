//! Pixel formats: which output format a decoded stream maps to, and how many
//! bytes lie between two rows of each plane.

use vstd::prelude::*;
use vstd::string::*;
use crate::decimal::{push_signed, signed_text};

verus! {

/// The planar formats that can be written out.
#[derive(Clone, Copy, Debug, PartialEq, Eq, Structural)]
pub enum PixelFormat {
    /// Planar 4:2:0, 8 bits per sample.
    Yuv420p,
    /// Planar 4:2:0, 10 bits per sample, little-endian.
    Yuv420p10le,
    /// Planar 4:2:2, 8 bits per sample.
    Yuv422p,
}

impl PixelFormat {
    /// The name under which a decoder knows the format.
    pub open spec fn spec_name(self) -> Seq<char> {
        match self {
            PixelFormat::Yuv420p => "yuv420p"@,
            PixelFormat::Yuv420p10le => "yuv420p10le"@,
            PixelFormat::Yuv422p => "yuv422p"@,
        }
    }

    /// Bytes that one sample takes.
    pub open spec fn spec_bytes_per_sample(self) -> nat {
        match self {
            PixelFormat::Yuv420p => 1,
            PixelFormat::Yuv420p10le => 2,
            PixelFormat::Yuv422p => 1,
        }
    }

    /// By how much chroma is subsampled across a row.
    pub open spec fn spec_chroma_horizontal(self) -> nat {
        2
    }

    /// By how much chroma is subsampled from row to row.
    pub open spec fn spec_chroma_vertical(self) -> nat {
        match self {
            PixelFormat::Yuv420p => 2,
            PixelFormat::Yuv420p10le => 2,
            PixelFormat::Yuv422p => 1,
        }
    }

    /// The factor between a luma row and a chroma row: 4 for 4:2:0, 2 for
    /// 4:2:2.
    pub open spec fn spec_stride_divisor(self) -> nat {
        match self {
            PixelFormat::Yuv420p => 4,
            PixelFormat::Yuv420p10le => 4,
            PixelFormat::Yuv422p => 2,
        }
    }

    /// Bytes between two rows of the luma plane of a picture `width` wide:
    /// the width times the bytes of a sample.
    pub open spec fn luma_stride(self, width: nat) -> nat {
        match self {
            PixelFormat::Yuv420p => width,
            PixelFormat::Yuv420p10le => width * 2,
            PixelFormat::Yuv422p => width,
        }
    }

    /// Bytes between two rows of a chroma plane of a picture `width` wide:
    /// the width over the format's divisor, rounded down, times the bytes of a
    /// sample.
    pub open spec fn chroma_stride(self, width: nat) -> nat {
        match self {
            PixelFormat::Yuv420p => width / 4,
            PixelFormat::Yuv420p10le => (width / 4) * 2,
            PixelFormat::Yuv422p => width / 2,
        }
    }

    /// The stride of each of the four plane slots; the fourth is unused.
    pub open spec fn strides(self, width: nat) -> Seq<nat> {
        seq![self.luma_stride(width), self.chroma_stride(width), self.chroma_stride(width), 0]
    }

    /// The name under which a decoder knows the format.
    pub fn name(self) -> (s: &'static str)
        ensures
            s@ == self.spec_name(),
    {
        match self {
            PixelFormat::Yuv420p => "yuv420p",
            PixelFormat::Yuv420p10le => "yuv420p10le",
            PixelFormat::Yuv422p => "yuv422p",
        }
    }

    /// The full description of the format.
    pub fn describe(self) -> (spec: PixelFormatSpec)
        ensures
            spec.spec_format() == self,
    {
        let (vertical, bytes): (usize, usize) = match self {
            PixelFormat::Yuv420p => (2, 1),
            PixelFormat::Yuv420p10le => (2, 2),
            PixelFormat::Yuv422p => (1, 1),
        };
        PixelFormatSpec {
            format: self,
            planes: 3,
            chroma_horizontal: 2,
            chroma_vertical: vertical,
            bytes_per_sample: bytes,
        }
    }
}

/// A pixel format with its layout: how many planes, how chroma is
/// subsampled, how wide a sample is. The numbers always belong to the format.
#[derive(Clone, Copy, Debug)]
pub struct PixelFormatSpec {
    format: PixelFormat,
    planes: usize,
    chroma_horizontal: usize,
    chroma_vertical: usize,
    bytes_per_sample: usize,
}

impl PixelFormatSpec {
    #[verifier::type_invariant]
    spec fn consistent(self) -> bool {
        &&& self.planes == 3
        &&& self.chroma_horizontal == self.format.spec_chroma_horizontal()
        &&& self.chroma_vertical == self.format.spec_chroma_vertical()
        &&& self.bytes_per_sample == self.format.spec_bytes_per_sample()
    }

    /// The format that is described.
    pub closed spec fn spec_format(self) -> PixelFormat {
        self.format
    }

    /// The format that is described.
    pub fn format(&self) -> (f: PixelFormat)
        ensures
            f == self.spec_format(),
    {
        self.format
    }

    /// Number of planes: always three.
    pub fn plane_count(&self) -> (n: usize)
        ensures
            n == 3,
    {
        proof {
            use_type_invariant(self);
        }
        self.planes
    }

    /// Chroma subsampling across a row and from row to row.
    pub fn chroma_subsampling(&self) -> (f: (usize, usize))
        ensures
            f.0 == self.spec_format().spec_chroma_horizontal(),
            f.1 == self.spec_format().spec_chroma_vertical(),
    {
        proof {
            use_type_invariant(self);
        }
        (self.chroma_horizontal, self.chroma_vertical)
    }

    /// Bytes that one sample takes.
    pub fn bytes_per_sample(&self) -> (n: usize)
        ensures
            n == self.spec_format().spec_bytes_per_sample(),
    {
        proof {
            use_type_invariant(self);
        }
        self.bytes_per_sample
    }

    /// The byte stride of each plane slot for a picture `width` wide: luma is
    /// `width` samples, chroma `width` over the format's divisor (4 for 4:2:0,
    /// 2 for 4:2:2), the fourth slot 0. `None` when the luma stride does not
    /// fit in `usize`.
    pub fn plane_strides(&self, width: usize) -> (r: Option<[usize; 4]>)
        ensures
            r is Some <==> self.spec_format().luma_stride(width as nat) <= usize::MAX,
            r matches Some(s) ==> {
                &&& s[0] == self.spec_format().luma_stride(width as nat)
                &&& s[1] == self.spec_format().chroma_stride(width as nat)
                &&& s[2] == self.spec_format().chroma_stride(width as nat)
                &&& s[3] == 0
            },
    {
        proof {
            use_type_invariant(self);
        }
        let divisor: usize = self.chroma_horizontal * self.chroma_vertical;
        let bytes: usize = self.bytes_per_sample;
        match width.checked_mul(bytes) {
            None => None,
            Some(luma) => {
                let chroma: usize = (width / divisor) * bytes;
                Some([luma, chroma, chroma, 0])
            },
        }
    }
}

/// One format that the caller accepts, with the number under which the
/// decoder reports it.
#[derive(Clone, Copy, Debug)]
pub struct FormatCandidate {
    pub format: PixelFormat,
    pub id: i32,
}

/// Why no output format was found.
#[derive(Clone, Copy, Debug, PartialEq, Eq, Structural)]
pub enum NegotiationError {
    /// The decoder's format is none of the accepted ones.
    Unsupported { format: i32 },
}

impl NegotiationError {
    /// The text of the error: it names the format that was refused.
    pub open spec fn spec_message(self) -> Seq<char> {
        match self {
            NegotiationError::Unsupported { format } => "Unsupported colorspace: "@ + signed_text(
                format as int,
            ),
        }
    }

    /// The text of the error: it names the format that was refused.
    pub fn message(&self) -> (s: String)
        ensures
            s@ == self.spec_message(),
    {
        match self {
            NegotiationError::Unsupported { format } => {
                let mut s = String::from_str("Unsupported colorspace: ");
                push_signed(&mut s, *format);
                s
            },
        }
    }
}

/// Whether entry `i` of `requested` is the first that the decoder's format
/// `native` satisfies.
pub open spec fn is_first_match(native: i32, requested: Seq<FormatCandidate>, i: int) -> bool {
    &&& 0 <= i < requested.len()
    &&& requested[i].id == native
    &&& forall|j: int| 0 <= j < i ==> (#[trigger] requested[j]).id != native
}

/// Whether the decoder's format `native` satisfies no entry of `requested`.
pub open spec fn no_match(native: i32, requested: Seq<FormatCandidate>) -> bool {
    forall|j: int| 0 <= j < requested.len() ==> (#[trigger] requested[j]).id != native
}

/// The accepted formats in their usual order of preference: 4:2:0 8-bit,
/// 4:2:0 10-bit, 4:2:2 8-bit, each with the number the decoder gave for its
/// name.
pub fn standard_candidates(yuv420p: i32, yuv420p10le: i32, yuv422p: i32) -> (list: Vec<
    FormatCandidate,
>)
    ensures
        list@ == seq![
            (FormatCandidate { format: PixelFormat::Yuv420p, id: yuv420p }),
            (FormatCandidate { format: PixelFormat::Yuv420p10le, id: yuv420p10le }),
            (FormatCandidate { format: PixelFormat::Yuv422p, id: yuv422p }),
        ],
{
    let mut list: Vec<FormatCandidate> = Vec::new();
    list.push(FormatCandidate { format: PixelFormat::Yuv420p, id: yuv420p });
    list.push(FormatCandidate { format: PixelFormat::Yuv420p10le, id: yuv420p10le });
    list.push(FormatCandidate { format: PixelFormat::Yuv422p, id: yuv422p });
    list
}

/// Picks the output format: the first entry of `requested` whose number is
/// the decoder's `native` format. With no such entry the format is refused,
/// and the error names it.
pub fn select_output_format(native: i32, requested: &Vec<FormatCandidate>) -> (r: Result<
    PixelFormatSpec,
    NegotiationError,
>)
    ensures
        match r {
            Ok(spec) => exists|i: int|
                is_first_match(native, requested@, i) && spec.spec_format()
                    == (#[trigger] requested@[i]).format,
            Err(e) => no_match(native, requested@) && e == (NegotiationError::Unsupported {
                format: native,
            }),
        },
{
    let mut i: usize = 0;
    while i < requested.len()
        invariant
            i <= requested.len(),
            forall|j: int| 0 <= j < i ==> (#[trigger] requested@[j]).id != native,
        decreases requested.len() - i,
    {
        if requested[i].id == native {
            return Ok(requested[i].format.describe());
        }
        i = i + 1;
    }
    Err(NegotiationError::Unsupported { format: native })
}

/// Half of a reported line size, rounded towards zero.
pub open spec fn halved(x: int) -> int {
    if x >= 0 {
        x / 2
    } else {
        -((-x) / 2)
    }
}

/// The line sizes to read a frame's planes with, given those that the decoder
/// reports: the two chroma planes come back with twice the line size that
/// their data is to be read with, so both are halved; the luma plane and the
/// fourth slot stay.
pub open spec fn corrected(reported: Seq<i32>) -> Seq<i32> {
    seq![
        reported[0],
        halved(reported[1] as int) as i32,
        halved(reported[2] as int) as i32,
        reported[3],
    ]
}

/// Puts right the line sizes that a decoder reports: halves those of the two
/// chroma planes.
pub fn corrected_linesize(reported: [i32; 4]) -> (r: [i32; 4])
    ensures
        r@ == corrected(reported@),
{
    let r: [i32; 4] = [reported[0], reported[1] / 2, reported[2] / 2, reported[3]];
    r
}

/// The strides of every format follow one rule: a luma row takes the width
/// times the bytes of a sample, a chroma row the width over the product of
/// the two subsampling factors, rounded down, times the bytes of a sample.
pub proof fn lemma_stride_rule(format: PixelFormat, width: nat)
    ensures
        format.spec_stride_divisor() == format.spec_chroma_horizontal()
            * format.spec_chroma_vertical(),
        format.luma_stride(width) == width * format.spec_bytes_per_sample(),
        format.chroma_stride(width) == (width / format.spec_stride_divisor())
            * format.spec_bytes_per_sample(),
{
}

/// For 4:2:0 at 8 bits the chroma stride of a picture `width` wide is
/// `width / 4`, and that is what the correction leaves of a reported chroma
/// line size of `width / 2`.
pub proof fn lemma_chroma_stride_420(width: nat)
    ensures
        PixelFormat::Yuv420p.chroma_stride(width) == width / 4,
        PixelFormat::Yuv420p.strides(width)[1] == width / 4,
        PixelFormat::Yuv420p.strides(width)[2] == width / 4,
        halved((width / 2) as int) == width / 4,
        width / 2 <= i32::MAX ==> corrected(
            seq![width as i32, (width / 2) as i32, (width / 2) as i32, 0i32],
        )[1] == width / 4,
        width >= 2 ==> PixelFormat::Yuv420p.chroma_stride(width) != width / 2,
{
}

} // verus!
