//! The JPEG stage: the encoder's settings, what it hands to the compressor
//! for a frame, and what it accepts back.
//!
//! The compressor itself runs outside this library. The encoder decides the
//! quality, checks that a frame is large enough for the compressor to read,
//! and accepts compressed bytes only if they begin with the JPEG start
//! marker.

use crate::frame::DecodedFrame;
use vstd::prelude::*;

verus! {

/// The quality that the encoder uses for a requested quality: the request
/// clamped into `1..=100`.
pub open spec fn clamp_quality(quality: u8) -> int {
    if quality < 1 {
        1
    } else if quality > 100 {
        100
    } else {
        quality as int
    }
}

/// The quality in use always lies in `1..=100`; a request in that range is
/// taken as it is, a request below becomes 1 and a request above becomes 100.
pub proof fn lemma_clamp_quality(quality: u8)
    ensures
        1 <= clamp_quality(quality) <= 100,
        1 <= quality <= 100 ==> clamp_quality(quality) == quality,
        quality < 1 ==> clamp_quality(quality) == 1,
        quality > 100 ==> clamp_quality(quality) == 100,
{
}

/// `n` rounded up to an even number.
pub open spec fn even_up(n: int) -> int {
    n + n % 2
}

/// The number of bytes the compressor reads for a 4:2:0 image with rows
/// aligned to one byte: planes of the dimensions rounded up to even numbers.
pub open spec fn yuv_buffer_len(width: int, height: int) -> int {
    even_up(width) * even_up(height) + 2 * ((even_up(width) / 2) * (even_up(height) / 2))
}

/// A frame can be handed to the compressor: its dimensions are positive and
/// fit a signed 32-bit integer, and the payload holds at least the bytes the
/// compressor reads.
pub open spec fn encodable(frame: &DecodedFrame) -> bool {
    &&& 1 <= frame.width <= i32::MAX
    &&& 1 <= frame.height <= i32::MAX
    &&& frame.data@.len() >= yuv_buffer_len(frame.width as int, frame.height as int)
}

/// Bytes begin with the JPEG start-of-image marker `FF D8`.
pub open spec fn starts_with_soi(bytes: Seq<u8>) -> bool {
    bytes.len() >= 2 && bytes[0] == 0xFF && bytes[1] == 0xD8
}

/// A well-formed frame with even dimensions needs exactly its own payload.
pub proof fn lemma_packed_frame_encodable(frame: &DecodedFrame)
    requires
        frame.wf(),
        frame.even_dimensions(),
        1 <= frame.width,
        1 <= frame.height,
        frame.height <= i32::MAX,
    ensures
        encodable(frame),
        yuv_buffer_len(frame.width as int, frame.height as int) == frame.data@.len(),
{
}

/// How the chroma planes are sampled relative to the luma plane.
#[derive(Debug, Clone, Copy, PartialEq, Eq, Structural)]
pub enum Subsampling {
    /// 4:4:4, chroma at full resolution.
    Sub1x1,
    /// 4:2:2, chroma at half the width.
    Sub2x1,
    /// 4:2:0, chroma at half the width and half the height.
    Sub2x2,
}

/// What the compressor is given for one frame, besides the payload.
#[derive(Debug, Clone, Copy, PartialEq, Eq, Structural)]
pub struct EncodeJob {
    pub width: usize,
    pub height: usize,
    /// Row alignment of the planes in bytes.
    pub align: usize,
    pub subsampling: Subsampling,
    /// Quality in `1..=100`.
    pub quality: i32,
}

/// Why a frame was not encoded.
#[derive(Debug, Clone, PartialEq, Eq)]
pub enum EncodeError {
    /// The frame is too small for its dimensions, or its dimensions are zero
    /// or too large.
    InvalidFrame,
    /// The compressor failed; holds its message.
    Compressor(String),
    /// The compressor's output does not begin with the JPEG start marker.
    NotJpeg,
}

/// The mathematical value of an [`EncodeError`].
pub enum EncodeErrorView {
    InvalidFrame,
    Compressor(Seq<char>),
    NotJpeg,
}

impl View for EncodeError {
    type V = EncodeErrorView;

    open spec fn view(&self) -> EncodeErrorView {
        match self {
            EncodeError::InvalidFrame => EncodeErrorView::InvalidFrame,
            EncodeError::Compressor(text) => EncodeErrorView::Compressor(text@),
            EncodeError::NotJpeg => EncodeErrorView::NotJpeg,
        }
    }
}

impl EncodeErrorView {
    /// The error in words.
    pub open spec fn text(self) -> Seq<char> {
        match self {
            EncodeErrorView::InvalidFrame => "JPEG compression failed: frame does not match its dimensions"@,
            EncodeErrorView::Compressor(text) => "JPEG compression failed: "@ + text,
            EncodeErrorView::NotJpeg => "JPEG compression failed: output is not a JPEG image"@,
        }
    }
}

impl EncodeError {
    /// The error in words.
    pub fn message(&self) -> (text: String)
        ensures
            text@ == self@.text(),
    {
        match self {
            EncodeError::InvalidFrame => {
                "JPEG compression failed: frame does not match its dimensions".to_string()
            },
            EncodeError::Compressor(text) => {
                let mut out = "JPEG compression failed: ".to_string();
                out.append(text.as_str());
                out
            },
            EncodeError::NotJpeg => "JPEG compression failed: output is not a JPEG image".to_string(),
        }
    }
}

/// The settings of a JPEG encoder.
#[derive(Debug)]
pub struct JpegEncoder {
    quality: i32,
}

impl JpegEncoder {
    #[verifier::type_invariant]
    spec fn quality_in_range(self) -> bool {
        1 <= self.quality <= 100
    }

    /// The quality in use.
    pub closed spec fn quality_spec(&self) -> int {
        self.quality as int
    }

    /// An encoder with the requested quality clamped into `1..=100`.
    pub fn new(quality: u8) -> (made: Result<Self, EncodeError>)
        ensures
            made matches Ok(encoder) && encoder.quality_spec() == clamp_quality(quality),
    {
        let clamped: u8 = if quality < 1 {
            1
        } else if quality > 100 {
            100
        } else {
            quality
        };
        Ok(JpegEncoder { quality: clamped as i32 })
    }

    /// Replaces the quality by the requested one clamped into `1..=100`.
    pub fn set_quality(&mut self, quality: u8) -> (done: Result<(), EncodeError>)
        ensures
            done is Ok,
            final(self).quality_spec() == clamp_quality(quality),
    {
        let clamped: u8 = if quality < 1 {
            1
        } else if quality > 100 {
            100
        } else {
            quality
        };
        self.quality = clamped as i32;
        Ok(())
    }

    /// The quality in use.
    pub fn quality(&self) -> (quality: u8)
        ensures
            quality == self.quality_spec(),
            1 <= quality <= 100,
    {
        proof {
            use_type_invariant(self);
        }
        self.quality as u8
    }

    /// What to hand to the compressor for `frame`: its dimensions, rows
    /// aligned to one byte, 4:2:0 sampling and the encoder's quality.
    /// Refuses a frame that the compressor could not read.
    pub fn job(&self, frame: &DecodedFrame) -> (planned: Result<EncodeJob, EncodeError>)
        ensures
            planned is Ok <==> encodable(frame),
            planned matches Ok(job) ==> {
                &&& job.width == frame.width
                &&& job.height == frame.height
                &&& job.align == 1
                &&& job.subsampling == Subsampling::Sub2x2
                &&& job.quality == self.quality_spec()
            },
            planned matches Err(error) ==> error == EncodeError::InvalidFrame,
    {
        if frame.width < 1 || frame.width > 0x7fff_ffff || frame.height < 1 || frame.height
            > 0x7fff_ffff {
            return Err(EncodeError::InvalidFrame);
        }
        let padded_width: u64 = frame.width as u64 + (frame.width % 2) as u64;
        let padded_height: u64 = frame.height as u64 + (frame.height % 2) as u64;
        proof {
            assert(padded_width * padded_height <= 0x8000_0000 * 0x8000_0000)
                by (nonlinear_arith)
                requires
                    0 <= padded_width <= 0x8000_0000,
                    0 <= padded_height <= 0x8000_0000,
            ;
            assert(0 <= (padded_width / 2) * (padded_height / 2) <= 0x4000_0000 * 0x4000_0000)
                by (nonlinear_arith)
                requires
                    0 <= padded_width / 2 <= 0x4000_0000,
                    0 <= padded_height / 2 <= 0x4000_0000,
            ;
        }
        let luma: u64 = padded_width * padded_height;
        let chroma: u64 = (padded_width / 2) * (padded_height / 2);
        let needed: u64 = luma + 2 * chroma;
        if (frame.data.len() as u64) < needed {
            return Err(EncodeError::InvalidFrame);
        }
        Ok(
            EncodeJob {
                width: frame.width as usize,
                height: frame.height as usize,
                align: 1,
                subsampling: Subsampling::Sub2x2,
                quality: self.quality,
            },
        )
    }

    /// Accepts what the compressor returned. Compressed bytes pass unchanged
    /// if they begin with the JPEG start marker; a failure of the compressor
    /// is reported with its message.
    pub fn finish(&self, compressed: Result<Vec<u8>, String>) -> (jpeg: Result<
        Vec<u8>,
        EncodeError,
    >)
        ensures
            match compressed {
                Ok(bytes) => if starts_with_soi(bytes@) {
                    jpeg == Ok::<Vec<u8>, EncodeError>(bytes)
                } else {
                    jpeg == Err::<Vec<u8>, EncodeError>(EncodeError::NotJpeg)
                },
                Err(message) => jpeg matches Err(error) && error@ == EncodeErrorView::Compressor(
                    message@,
                ),
            },
            jpeg matches Ok(bytes) ==> starts_with_soi(bytes@),
    {
        match compressed {
            Ok(bytes) => {
                if bytes.len() >= 2 && bytes[0] == 0xFF && bytes[1] == 0xD8 {
                    Ok(bytes)
                } else {
                    Err(EncodeError::NotJpeg)
                }
            },
            Err(message) => Err(EncodeError::Compressor(message)),
        }
    }
}

} // verus!
