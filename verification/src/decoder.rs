//! The decode engine: setting a decoder up from what probing a container
//! found, and producing the frame at a byte offset.
//!
//! The codec runs outside this library. The engine decides: which stream is
//! decoded, which probing outcome is which error, and, for one request, what
//! the codec is asked to do next and which decoded picture is the answer. A
//! driver performs each [`DecodeAction`] and reports what came of it as a
//! [`DecodeEvent`].

use crate::avio::{AvioError, AvioErrorView};
use crate::frame::{pack_planes, packed_frame, DecodedFrame, FrameView, Plane};
use crate::json::{decimal, push_decimal, push_signed_decimal, signed_decimal};
use vstd::prelude::*;

verus! {

/// Why a decoder could not be set up or a frame could not be decoded.
#[derive(Debug, Clone, PartialEq, Eq)]
pub enum DecoderError {
    /// The codec library could not be initialised.
    FfmpegInit,
    /// The bytes could not be opened as a container.
    Avio(AvioError),
    /// The container holds no video stream.
    NoVideoStream,
    /// No HEVC decoder is available.
    DecoderNotFound,
    /// The decoder refused the stream's parameters or could not be opened.
    DecoderOpen(String),
    /// The converter to planar YUV 4:2:0 could not be created.
    ScalerInit,
    /// No packet at the requested byte offset yielded a frame.
    FrameNotFound { offset: u64 },
    /// Fewer frames were decoded than the requested index needs.
    FrameIndexNotFound { index: u32, total: u32 },
    /// A decoded picture could not be converted.
    DecodeError(String),
    /// The codec refused a packet.
    SendPacket(String),
    /// The codec failed to hand out a frame.
    ReceiveFrame(String),
    /// The container could not be read.
    FormatContext(String),
}

/// The mathematical value of a [`DecoderError`].
pub enum DecoderErrorView {
    FfmpegInit,
    Avio(AvioErrorView),
    NoVideoStream,
    DecoderNotFound,
    DecoderOpen(Seq<char>),
    ScalerInit,
    FrameNotFound { offset: u64 },
    FrameIndexNotFound { index: u32, total: u32 },
    DecodeError(Seq<char>),
    SendPacket(Seq<char>),
    ReceiveFrame(Seq<char>),
    FormatContext(Seq<char>),
}

impl View for DecoderError {
    type V = DecoderErrorView;

    open spec fn view(&self) -> DecoderErrorView {
        match self {
            DecoderError::FfmpegInit => DecoderErrorView::FfmpegInit,
            DecoderError::Avio(error) => DecoderErrorView::Avio(error@),
            DecoderError::NoVideoStream => DecoderErrorView::NoVideoStream,
            DecoderError::DecoderNotFound => DecoderErrorView::DecoderNotFound,
            DecoderError::DecoderOpen(text) => DecoderErrorView::DecoderOpen(text@),
            DecoderError::ScalerInit => DecoderErrorView::ScalerInit,
            DecoderError::FrameNotFound { offset } => DecoderErrorView::FrameNotFound {
                offset: *offset,
            },
            DecoderError::FrameIndexNotFound { index, total } => {
                DecoderErrorView::FrameIndexNotFound { index: *index, total: *total }
            },
            DecoderError::DecodeError(text) => DecoderErrorView::DecodeError(text@),
            DecoderError::SendPacket(text) => DecoderErrorView::SendPacket(text@),
            DecoderError::ReceiveFrame(text) => DecoderErrorView::ReceiveFrame(text@),
            DecoderError::FormatContext(text) => DecoderErrorView::FormatContext(text@),
        }
    }
}

impl DecoderErrorView {
    /// The error in words.
    pub open spec fn text(self) -> Seq<char> {
        match self {
            DecoderErrorView::FfmpegInit => "FFmpeg initialization failed"@,
            DecoderErrorView::Avio(error) => "AVIO error: "@ + error.text(),
            DecoderErrorView::NoVideoStream => "No video stream found in container"@,
            DecoderErrorView::DecoderNotFound => "HEVC/H.265 decoder not available"@,
            DecoderErrorView::DecoderOpen(text) => "Failed to open decoder: "@ + text,
            DecoderErrorView::ScalerInit => "Failed to initialize scaler"@,
            DecoderErrorView::FrameNotFound { offset } => "FrameNotFound: no frame at byte offset "@
                + decimal(offset as nat),
            DecoderErrorView::FrameIndexNotFound { index, total } => "Frame index "@ + decimal(
                index as nat,
            ) + " not found (GOP contains "@ + decimal(total as nat) + " frames)"@,
            DecoderErrorView::DecodeError(text) => "Decode failed: "@ + text,
            DecoderErrorView::SendPacket(text) => "Send packet failed: "@ + text,
            DecoderErrorView::ReceiveFrame(text) => "Receive frame failed: "@ + text,
            DecoderErrorView::FormatContext(text) => "Format context error: "@ + text,
        }
    }
}

/// `prefix` followed by `text`.
fn prefixed(prefix: &str, text: &str) -> (out: String)
    ensures
        out@ == prefix@ + text@,
{
    let mut out = prefix.to_string();
    out.append(text);
    out
}

impl DecoderError {
    /// The error in words.
    pub fn message(&self) -> (text: String)
        ensures
            text@ == self@.text(),
    {
        match self {
            DecoderError::FfmpegInit => "FFmpeg initialization failed".to_string(),
            DecoderError::Avio(error) => {
                let inner = error.message();
                prefixed("AVIO error: ", inner.as_str())
            },
            DecoderError::NoVideoStream => "No video stream found in container".to_string(),
            DecoderError::DecoderNotFound => "HEVC/H.265 decoder not available".to_string(),
            DecoderError::DecoderOpen(text) => prefixed("Failed to open decoder: ", text.as_str()),
            DecoderError::ScalerInit => "Failed to initialize scaler".to_string(),
            DecoderError::FrameNotFound { offset } => {
                let mut out = "FrameNotFound: no frame at byte offset ".to_string();
                push_decimal(&mut out, *offset);
                out
            },
            DecoderError::FrameIndexNotFound { index, total } => {
                let mut out = "Frame index ".to_string();
                push_decimal(&mut out, *index as u64);
                out.append(" not found (GOP contains ");
                push_decimal(&mut out, *total as u64);
                out.append(" frames)");
                proof {
                    assert(out@ =~= self@.text());
                }
                out
            },
            DecoderError::DecodeError(text) => prefixed("Decode failed: ", text.as_str()),
            DecoderError::SendPacket(text) => prefixed("Send packet failed: ", text.as_str()),
            DecoderError::ReceiveFrame(text) => prefixed("Receive frame failed: ", text.as_str()),
            DecoderError::FormatContext(text) => prefixed(
                "Format context error: ",
                text.as_str(),
            ),
        }
    }
}

// ---------------------------------------------------------------------------
// Setting a decoder up
// ---------------------------------------------------------------------------
/// What a stream of a container carries.
#[derive(Debug, Clone, Copy, PartialEq, Eq, Structural)]
pub enum StreamKind {
    Video,
    Audio,
    Other,
}

/// How far setting up the codec for the video stream got.
#[derive(Debug, Clone, PartialEq, Eq)]
pub enum CodecSetup {
    /// No HEVC decoder could be found.
    DecoderMissing,
    /// The decoder refused the stream's parameters; holds the codec's code.
    ParametersRejected(i32),
    /// The decoder could not be opened; holds the codec's message.
    OpenFailed(String),
    /// The decoder is open on pictures of the given size; `scaler_ready`
    /// tells whether the converter to planar YUV 4:2:0 could be created.
    Opened { width: u32, height: u32, scaler_ready: bool },
}

/// What probing the first bytes of a video found.
#[derive(Debug, Clone, PartialEq, Eq)]
pub enum Probe {
    /// The codec library could not be initialised.
    LibraryFailed,
    /// The bytes could not be opened as a container.
    InputFailed(AvioError),
    /// The container's streams in order, and how far setting up the codec
    /// for the first video stream got. Without a video stream `codec` is not
    /// looked at.
    Container { streams: Vec<StreamKind>, codec: CodecSetup },
}

/// The index of the first video stream.
pub open spec fn first_video(streams: Seq<StreamKind>) -> Option<int>
    decreases streams.len(),
{
    if streams.len() == 0 {
        None
    } else {
        match first_video(streams.drop_last()) {
            Some(i) => Some(i),
            None => if streams.last() == StreamKind::Video {
                Some(streams.len() - 1)
            } else {
                None
            },
        }
    }
}

/// The first video stream is a video stream with none before it; there is
/// none exactly when the container has no video stream at all.
pub proof fn lemma_first_video(streams: Seq<StreamKind>)
    ensures
        match first_video(streams) {
            Some(i) => 0 <= i < streams.len() && streams[i] == StreamKind::Video && forall|j: int|
                0 <= j < i ==> streams[j] != StreamKind::Video,
            None => forall|j: int| 0 <= j < streams.len() ==> streams[j] != StreamKind::Video,
        },
    decreases streams.len(),
{
    if streams.len() > 0 {
        let front = streams.drop_last();
        lemma_first_video(front);
        assert forall|j: int| 0 <= j < front.len() implies front[j] == streams[j] by {}
        match first_video(front) {
            Some(i) => {
                assert(streams[i] == front[i]);
                assert forall|j: int| 0 <= j < i implies streams[j] != StreamKind::Video by {
                    assert(streams[j] == front[j]);
                }
            },
            None => {
                assert forall|j: int| 0 <= j < front.len() implies streams[j]
                    != StreamKind::Video by {
                    assert(streams[j] == front[j]);
                }
                assert(streams.last() == streams[streams.len() - 1]);
            },
        }
    }
}

/// Finds the first video stream of a container.
pub fn find_video_stream(streams: &Vec<StreamKind>) -> (found: Result<usize, DecoderError>)
    ensures
        match found {
            Ok(index) => first_video(streams@) == Some(index as int),
            Err(error) => first_video(streams@) is None && error == DecoderError::NoVideoStream,
        },
{
    let mut i: usize = 0;
    while i < streams.len()
        invariant
            0 <= i <= streams.len(),
            first_video(streams@.subrange(0, i as int)) is None,
        decreases streams.len() - i,
    {
        proof {
            assert(streams@.subrange(0, i as int + 1).drop_last() =~= streams@.subrange(
                0,
                i as int,
            ));
        }
        if streams[i] == StreamKind::Video {
            proof {
                lemma_first_video_prefix(streams@, i as int + 1);
            }
            return Ok(i);
        }
        i = i + 1;
    }
    proof {
        assert(streams@.subrange(0, i as int) =~= streams@);
    }
    Err(DecoderError::NoVideoStream)
}

/// A video stream found in a prefix is the first video stream of the whole.
pub proof fn lemma_first_video_prefix(streams: Seq<StreamKind>, n: int)
    requires
        0 <= n <= streams.len(),
        first_video(streams.subrange(0, n)) is Some,
    ensures
        first_video(streams) == first_video(streams.subrange(0, n)),
    decreases streams.len() - n,
{
    if n == streams.len() {
        assert(streams.subrange(0, n) =~= streams);
    } else {
        assert(streams.subrange(0, n + 1).drop_last() =~= streams.subrange(0, n));
        lemma_first_video_prefix(streams, n + 1);
    }
}

/// The mathematical value of a [`CodecSetup`].
pub enum CodecSetupView {
    DecoderMissing,
    ParametersRejected(i32),
    OpenFailed(Seq<char>),
    Opened { width: u32, height: u32, scaler_ready: bool },
}

impl View for CodecSetup {
    type V = CodecSetupView;

    open spec fn view(&self) -> CodecSetupView {
        match self {
            CodecSetup::DecoderMissing => CodecSetupView::DecoderMissing,
            CodecSetup::ParametersRejected(code) => CodecSetupView::ParametersRejected(*code),
            CodecSetup::OpenFailed(text) => CodecSetupView::OpenFailed(text@),
            CodecSetup::Opened { width, height, scaler_ready } => CodecSetupView::Opened {
                width: *width,
                height: *height,
                scaler_ready: *scaler_ready,
            },
        }
    }
}

/// The mathematical value of a [`Probe`].
pub enum ProbeView {
    LibraryFailed,
    InputFailed(AvioErrorView),
    Container { streams: Seq<StreamKind>, codec: CodecSetupView },
}

impl View for Probe {
    type V = ProbeView;

    open spec fn view(&self) -> ProbeView {
        match self {
            Probe::LibraryFailed => ProbeView::LibraryFailed,
            Probe::InputFailed(error) => ProbeView::InputFailed(error@),
            Probe::Container { streams, codec } => ProbeView::Container {
                streams: streams@,
                codec: codec@,
            },
        }
    }
}

/// What a decoder is made of: the stream it decodes and the size of its
/// pictures.
pub struct DecoderView {
    pub video_stream_index: usize,
    pub width: u32,
    pub height: u32,
}

/// The decoder that a probe yields, or the error that it amounts to.
///
/// Failures are reported in the order in which setting up meets them: the
/// library, the container, the video stream, the decoder, the stream's
/// parameters, opening the decoder, the picture size, which must be even in
/// both directions, and last the converter.
pub open spec fn decoder_of(probe: ProbeView) -> Result<DecoderView, DecoderErrorView> {
    match probe {
        ProbeView::LibraryFailed => Err(DecoderErrorView::FfmpegInit),
        ProbeView::InputFailed(error) => Err(DecoderErrorView::Avio(error)),
        ProbeView::Container { streams, codec } => match first_video(streams) {
            None => Err(DecoderErrorView::NoVideoStream),
            Some(index) => match codec {
                CodecSetupView::DecoderMissing => Err(DecoderErrorView::DecoderNotFound),
                CodecSetupView::ParametersRejected(code) => Err(
                    DecoderErrorView::DecoderOpen(
                        "avcodec_parameters_to_context failed: "@ + signed_decimal(code as int),
                    ),
                ),
                CodecSetupView::OpenFailed(text) => Err(DecoderErrorView::DecoderOpen(text)),
                CodecSetupView::Opened { width, height, scaler_ready } => if width % 2 != 0
                    || height % 2 != 0 {
                    Err(DecoderErrorView::DecoderOpen("picture dimensions must be even"@))
                } else if !scaler_ready {
                    Err(DecoderErrorView::ScalerInit)
                } else {
                    Ok(DecoderView { video_stream_index: index as usize, width, height })
                },
            },
        },
    }
}

/// A decoder that is set up: the stream it decodes and the size of its
/// pictures, which is even in both directions.
#[derive(Debug, Clone, Copy)]
pub struct Decoder {
    video_stream_index: usize,
    width: u32,
    height: u32,
}

impl View for Decoder {
    type V = DecoderView;

    closed spec fn view(&self) -> DecoderView {
        DecoderView {
            video_stream_index: self.video_stream_index,
            width: self.width,
            height: self.height,
        }
    }
}

impl Decoder {
    #[verifier::type_invariant]
    spec fn even_pictures(self) -> bool {
        self.width % 2 == 0 && self.height % 2 == 0
    }

    /// Sets a decoder up from what probing found.
    pub fn new(probe: Probe) -> (made: Result<Decoder, DecoderError>)
        ensures
            match made {
                Ok(decoder) => decoder_of(probe@) == Ok::<DecoderView, DecoderErrorView>(
                    decoder@,
                ) && decoder@.width % 2 == 0 && decoder@.height % 2 == 0,
                Err(error) => decoder_of(probe@) == Err::<DecoderView, DecoderErrorView>(error@),
            },
    {
        match probe {
            Probe::LibraryFailed => Err(DecoderError::FfmpegInit),
            Probe::InputFailed(error) => Err(DecoderError::Avio(error)),
            Probe::Container { streams, codec } => {
                let index = match find_video_stream(&streams) {
                    Ok(index) => index,
                    Err(error) => {
                        return Err(error);
                    },
                };
                match codec {
                    CodecSetup::DecoderMissing => Err(DecoderError::DecoderNotFound),
                    CodecSetup::ParametersRejected(code) => {
                        let mut text = "avcodec_parameters_to_context failed: ".to_string();
                        push_signed_decimal(&mut text, code as i64);
                        Err(DecoderError::DecoderOpen(text))
                    },
                    CodecSetup::OpenFailed(text) => Err(DecoderError::DecoderOpen(text)),
                    CodecSetup::Opened { width, height, scaler_ready } => {
                        if width % 2 != 0 || height % 2 != 0 {
                            Err(
                                DecoderError::DecoderOpen(
                                    "picture dimensions must be even".to_string(),
                                ),
                            )
                        } else if !scaler_ready {
                            Err(DecoderError::ScalerInit)
                        } else {
                            Ok(Decoder { video_stream_index: index, width, height })
                        }
                    },
                }
            },
        }
    }

    /// Index of the decoded stream in its container.
    pub fn video_stream_index(&self) -> (index: usize)
        ensures
            index == self@.video_stream_index,
    {
        self.video_stream_index
    }

    /// Width of the pictures in pixels.
    pub fn width(&self) -> (width: u32)
        ensures
            width == self@.width,
            width % 2 == 0,
    {
        proof {
            use_type_invariant(self);
        }
        self.width
    }

    /// Height of the pictures in pixels.
    pub fn height(&self) -> (height: u32)
        ensures
            height == self@.height,
            height % 2 == 0,
    {
        proof {
            use_type_invariant(self);
        }
        self.height
    }

    /// Packs the planes of a converted picture into a frame of the decoder's
    /// size. Fails exactly when a plane is too small for that size.
    pub fn convert_frame(&self, pts: Option<i64>, y: &Plane, u: &Plane, v: &Plane) -> (converted:
        Result<DecodedFrame, DecoderError>)
        ensures
            match converted {
                Ok(frame) => frame.wf() && frame.even_dimensions() && packed_frame(
                    self@.width,
                    self@.height,
                    pts,
                    *y,
                    *u,
                    *v,
                ) == Some(frame@),
                Err(error) => packed_frame(self@.width, self@.height, pts, *y, *u, *v) is None
                    && error@ == DecoderErrorView::DecodeError(
                    "picture is smaller than the decoder's size"@,
                ),
            },
    {
        proof {
            use_type_invariant(self);
        }
        match pack_planes(self.width, self.height, pts, y, u, v) {
            Some(frame) => Ok(frame),
            None => Err(
                DecoderError::DecodeError("picture is smaller than the decoder's size".to_string()),
            ),
        }
    }

    /// Starts the decoding of the frame at `target_offset`. The first thing
    /// asked of the codec is always a flush, whatever was decoded before.
    pub fn begin(&self, target_offset: u64) -> (started: (DecodeRun, DecodeAction))
        ensures
            started.0@ == start_of(self@, target_offset),
            started.1@ == DecodeActionView::Flush,
    {
        (
            DecodeRun {
                target_offset,
                video_stream_index: self.video_stream_index,
                width: self.width,
                height: self.height,
                phase: DecodePhase::Flushing,
                current_is_target: false,
                previous_is_target: false,
                captured: None,
            },
            DecodeAction::Flush,
        )
    }
}

// ---------------------------------------------------------------------------
// Decoding the frame at an offset
// ---------------------------------------------------------------------------
/// Where one decode run stands.
#[derive(Debug, Clone, Copy, PartialEq, Eq, Structural)]
pub enum DecodePhase {
    /// The codec is being flushed.
    Flushing,
    /// The container is being opened over the video bytes.
    Opening,
    /// The next packet is being read.
    Reading,
    /// A video packet is being handed to the codec.
    Sending,
    /// The codec is asked for the frames it has after a packet.
    Draining,
    /// The end of the stream is being signalled to the codec.
    Ending,
    /// The codec is asked for the frames it still holds.
    Finishing,
    /// The run has produced its result.
    Done,
}

/// What the driver must do next.
#[derive(Debug)]
pub enum DecodeAction {
    /// Flush the codec.
    Flush,
    /// Open the container over the video bytes, from their first byte.
    OpenInput,
    /// Read the next packet.
    ReadPacket,
    /// Hand the packet just read to the codec.
    SendPacket,
    /// Ask the codec for a frame and convert it to planar YUV 4:2:0.
    ReceiveFrame,
    /// Signal the end of the stream to the codec.
    SendEof,
    /// Close the container; the run is over with this result.
    Finish(Result<DecodedFrame, DecoderError>),
}

/// The mathematical value of a [`DecodeAction`].
pub enum DecodeActionView {
    Flush,
    OpenInput,
    ReadPacket,
    SendPacket,
    ReceiveFrame,
    SendEof,
    Finish(Result<FrameView, DecoderErrorView>),
}

impl View for DecodeAction {
    type V = DecodeActionView;

    open spec fn view(&self) -> DecodeActionView {
        match self {
            DecodeAction::Flush => DecodeActionView::Flush,
            DecodeAction::OpenInput => DecodeActionView::OpenInput,
            DecodeAction::ReadPacket => DecodeActionView::ReadPacket,
            DecodeAction::SendPacket => DecodeActionView::SendPacket,
            DecodeAction::ReceiveFrame => DecodeActionView::ReceiveFrame,
            DecodeAction::SendEof => DecodeActionView::SendEof,
            DecodeAction::Finish(Ok(frame)) => DecodeActionView::Finish(Ok(frame@)),
            DecodeAction::Finish(Err(error)) => DecodeActionView::Finish(Err(error@)),
        }
    }
}

/// What came of the action asked for.
pub enum DecodeEvent<'a> {
    /// The codec was flushed.
    Flushed,
    /// The container is open.
    Opened,
    /// The container could not be opened.
    OpenFailed(AvioError),
    /// A packet was read: the stream it belongs to and its byte position in
    /// the container, negative where the container does not know it.
    Packet { stream: usize, position: i64 },
    /// There are no more packets.
    EndOfInput,
    /// The codec took the packet, or the end-of-stream signal.
    Sent,
    /// The codec refused the packet, or the end-of-stream signal.
    SendFailed(String),
    /// The codec handed out a frame, here converted to planar YUV 4:2:0.
    Picture { pts: Option<i64>, y: Plane<'a>, u: Plane<'a>, v: Plane<'a> },
    /// The codec handed out a frame that could not be converted.
    ConvertFailed(String),
    /// The codec has no frame for now.
    NoFrame,
}

/// The mathematical value of a [`DecodeEvent`]; a picture by the frame that
/// packing it yields.
pub enum DecodeEventView {
    Flushed,
    Opened,
    OpenFailed(AvioErrorView),
    Packet { stream: usize, position: i64 },
    EndOfInput,
    Sent,
    SendFailed(Seq<char>),
    Picture(Option<FrameView>),
    ConvertFailed(Seq<char>),
    NoFrame,
}

/// The value of an event for a run on pictures of the given size.
pub open spec fn event_view(event: DecodeEvent, width: u32, height: u32) -> DecodeEventView {
    match event {
        DecodeEvent::Flushed => DecodeEventView::Flushed,
        DecodeEvent::Opened => DecodeEventView::Opened,
        DecodeEvent::OpenFailed(error) => DecodeEventView::OpenFailed(error@),
        DecodeEvent::Packet { stream, position } => DecodeEventView::Packet { stream, position },
        DecodeEvent::EndOfInput => DecodeEventView::EndOfInput,
        DecodeEvent::Sent => DecodeEventView::Sent,
        DecodeEvent::SendFailed(text) => DecodeEventView::SendFailed(text@),
        DecodeEvent::Picture { pts, y, u, v } => DecodeEventView::Picture(
            packed_frame(width, height, pts, y, u, v),
        ),
        DecodeEvent::ConvertFailed(text) => DecodeEventView::ConvertFailed(text@),
        DecodeEvent::NoFrame => DecodeEventView::NoFrame,
    }
}

/// One decode run: the request, where the run stands, and what it has found.
#[derive(Debug)]
pub struct DecodeRun {
    /// Byte offset of the packet whose frame is wanted.
    pub target_offset: u64,
    /// The stream that is decoded.
    pub video_stream_index: usize,
    /// Width of the pictures.
    pub width: u32,
    /// Height of the pictures.
    pub height: u32,
    pub phase: DecodePhase,
    /// The video packet sent last sits at the wanted offset.
    pub current_is_target: bool,
    /// The video packet sent before that one sits at the wanted offset.
    pub previous_is_target: bool,
    /// The frame retained so far.
    pub captured: Option<DecodedFrame>,
}

/// The mathematical value of a [`DecodeRun`].
pub struct DecodeRunView {
    pub target_offset: u64,
    pub video_stream_index: usize,
    pub width: u32,
    pub height: u32,
    pub phase: DecodePhase,
    pub current_is_target: bool,
    pub previous_is_target: bool,
    pub captured: Option<FrameView>,
}

impl View for DecodeRun {
    type V = DecodeRunView;

    open spec fn view(&self) -> DecodeRunView {
        DecodeRunView {
            target_offset: self.target_offset,
            video_stream_index: self.video_stream_index,
            width: self.width,
            height: self.height,
            phase: self.phase,
            current_is_target: self.current_is_target,
            previous_is_target: self.previous_is_target,
            captured: match self.captured {
                Some(frame) => Some(frame@),
                None => None,
            },
        }
    }
}

/// The state in which every run for `target_offset` starts. It depends on
/// the decoder and the request alone, not on earlier runs.
pub open spec fn start_of(decoder: DecoderView, target_offset: u64) -> DecodeRunView {
    DecodeRunView {
        target_offset,
        video_stream_index: decoder.video_stream_index,
        width: decoder.width,
        height: decoder.height,
        phase: DecodePhase::Flushing,
        current_is_target: false,
        previous_is_target: false,
        captured: None,
    }
}

/// A packet sits at the wanted offset. An unknown position, reported as a
/// negative number, never does.
pub open spec fn at_target(position: i64, target_offset: u64) -> bool {
    position >= 0 && position as int == target_offset as int
}

impl DecodeRunView {
    /// The run is over with `result`.
    pub open spec fn finished(self, result: Result<FrameView, DecoderErrorView>) -> (
        DecodeRunView,
        DecodeActionView,
    ) {
        (
            DecodeRunView { phase: DecodePhase::Done, captured: None, ..self },
            DecodeActionView::Finish(result),
        )
    }

    /// The run goes on in `phase` with `action`.
    pub open spec fn go(self, phase: DecodePhase, action: DecodeActionView) -> (
        DecodeRunView,
        DecodeActionView,
    ) {
        (DecodeRunView { phase, ..self }, action)
    }

    /// The run after the codec handed out a picture. A picture that could
    /// not be packed ends the run. Otherwise the frame replaces the retained
    /// one if `keep` holds, and the codec is asked for the next frame.
    pub open spec fn with_picture(self, packed: Option<FrameView>, keep: bool) -> (
        DecodeRunView,
        DecodeActionView,
    ) {
        match packed {
            None => self.finished(
                Err(
                    DecoderErrorView::DecodeError("picture is smaller than the decoder's size"@),
                ),
            ),
            Some(frame) => (
                DecodeRunView {
                    captured: if keep {
                        Some(frame)
                    } else {
                        self.captured
                    },
                    ..self
                },
                DecodeActionView::ReceiveFrame,
            ),
        }
    }

    /// The state after an event, and what the driver must do next.
    ///
    /// * The codec is flushed, then the container is opened, then packets are
    ///   read one by one.
    /// * A packet of another stream is skipped. A packet of the video stream
    ///   is sent to the codec, and the codec is asked for frames until it has
    ///   none.
    /// * A frame handed out after a packet is retained if that packet, or the
    ///   video packet sent before it, sits at the wanted offset.
    /// * When the codec has no more frames after a packet and a frame is
    ///   retained, the run ends with that frame; otherwise the next packet is
    ///   read.
    /// * At the end of the input the end of the stream is signalled and the
    ///   codec is asked for the frames it still holds; one is retained if the
    ///   video packet sent last sits at the wanted offset. Then the run ends
    ///   with the retained frame, or with `FrameNotFound` if there is none.
    /// * A failure ends the run with the error of its kind. An event that
    ///   does not answer the action asked for ends the run with a decode
    ///   error.
    pub open spec fn next(self, event: DecodeEventView) -> (DecodeRunView, DecodeActionView) {
        match (self.phase, event) {
            (DecodePhase::Flushing, DecodeEventView::Flushed) => self.go(
                DecodePhase::Opening,
                DecodeActionView::OpenInput,
            ),
            (DecodePhase::Opening, DecodeEventView::Opened) => self.go(
                DecodePhase::Reading,
                DecodeActionView::ReadPacket,
            ),
            (DecodePhase::Opening, DecodeEventView::OpenFailed(error)) => self.finished(
                Err(DecoderErrorView::Avio(error)),
            ),
            (DecodePhase::Reading, DecodeEventView::Packet { stream, position }) => if stream
                != self.video_stream_index {
                self.go(DecodePhase::Reading, DecodeActionView::ReadPacket)
            } else {
                (
                    DecodeRunView {
                        phase: DecodePhase::Sending,
                        previous_is_target: self.current_is_target,
                        current_is_target: at_target(position, self.target_offset),
                        ..self
                    },
                    DecodeActionView::SendPacket,
                )
            },
            (DecodePhase::Reading, DecodeEventView::EndOfInput) => self.go(
                DecodePhase::Ending,
                DecodeActionView::SendEof,
            ),
            (DecodePhase::Sending, DecodeEventView::Sent) => self.go(
                DecodePhase::Draining,
                DecodeActionView::ReceiveFrame,
            ),
            (DecodePhase::Sending, DecodeEventView::SendFailed(text)) => self.finished(
                Err(DecoderErrorView::SendPacket(text)),
            ),
            (DecodePhase::Draining, DecodeEventView::Picture(packed)) => self.with_picture(
                packed,
                self.current_is_target || self.previous_is_target,
            ),
            (DecodePhase::Draining, DecodeEventView::ConvertFailed(text)) => self.finished(
                Err(DecoderErrorView::DecodeError(text)),
            ),
            (DecodePhase::Draining, DecodeEventView::NoFrame) => match self.captured {
                Some(frame) => self.finished(Ok(frame)),
                None => self.go(DecodePhase::Reading, DecodeActionView::ReadPacket),
            },
            (DecodePhase::Ending, DecodeEventView::Sent) => self.go(
                DecodePhase::Finishing,
                DecodeActionView::ReceiveFrame,
            ),
            (DecodePhase::Ending, DecodeEventView::SendFailed(text)) => self.finished(
                Err(DecoderErrorView::SendPacket(text)),
            ),
            (DecodePhase::Finishing, DecodeEventView::Picture(packed)) => self.with_picture(
                packed,
                self.current_is_target,
            ),
            (DecodePhase::Finishing, DecodeEventView::ConvertFailed(text)) => self.finished(
                Err(DecoderErrorView::DecodeError(text)),
            ),
            (DecodePhase::Finishing, DecodeEventView::NoFrame) => match self.captured {
                Some(frame) => self.finished(Ok(frame)),
                None => self.finished(
                    Err(DecoderErrorView::FrameNotFound { offset: self.target_offset }),
                ),
            },
            _ => self.finished(Err(DecoderErrorView::DecodeError("unexpected event"@))),
        }
    }

    /// What holds of every state a run passes through: a retained frame is
    /// well formed and has the run's size.
    pub open spec fn consistent(self) -> bool {
        self.captured matches Some(frame) ==> frame.wf() && frame.width == self.width
            && frame.height == self.height
    }
}

impl DecodeRun {
    /// Ends the run with `result`.
    fn finish(&mut self, result: Result<DecodedFrame, DecoderError>) -> (action: DecodeAction)
        ensures
            (final(self)@, action@) == old(self)@.finished(
                match result {
                    Ok(frame) => Ok(frame@),
                    Err(error) => Err(error@),
                },
            ),
    {
        self.phase = DecodePhase::Done;
        self.captured = None;
        DecodeAction::Finish(result)
    }

    /// Ends the run because the event does not answer the action asked for.
    fn unexpected(&mut self) -> (action: DecodeAction)
        ensures
            (final(self)@, action@) == old(self)@.finished(
                Err(DecoderErrorView::DecodeError("unexpected event"@)),
            ),
    {
        self.finish(Err(DecoderError::DecodeError("unexpected event".to_string())))
    }

    /// Takes a picture handed out by the codec.
    fn take_picture(
        &mut self,
        pts: Option<i64>,
        y: &Plane,
        u: &Plane,
        v: &Plane,
        keep: bool,
    ) -> (action: DecodeAction)
        ensures
            (final(self)@, action@) == old(self)@.with_picture(
                packed_frame(old(self).width, old(self).height, pts, *y, *u, *v),
                keep,
            ),
    {
        match pack_planes(self.width, self.height, pts, y, u, v) {
            None => self.finish(
                Err(
                    DecoderError::DecodeError(
                        "picture is smaller than the decoder's size".to_string(),
                    ),
                ),
            ),
            Some(frame) => {
                if keep {
                    self.captured = Some(frame);
                }
                DecodeAction::ReceiveFrame
            },
        }
    }

    /// Ends the run with the retained frame, if there is one.
    fn finish_with_captured(&mut self) -> (action: Option<DecodeAction>)
        ensures
            match old(self)@.captured {
                Some(frame) => action matches Some(done) && (final(self)@, done@) == old(
                    self,
                )@.finished(Ok(frame)),
                None => action is None && *final(self) == *old(self),
            },
    {
        match self.captured.take() {
            Some(frame) => Some(self.finish(Ok(frame))),
            None => None,
        }
    }

    /// Takes what came of the last action and says what to do next.
    pub fn step(&mut self, event: DecodeEvent) -> (action: DecodeAction)
        ensures
            (final(self)@, action@) == old(self)@.next(
                event_view(event, old(self).width, old(self).height),
            ),
    {
        match self.phase {
            DecodePhase::Flushing => match event {
                DecodeEvent::Flushed => {
                    self.phase = DecodePhase::Opening;
                    DecodeAction::OpenInput
                },
                _ => self.unexpected(),
            },
            DecodePhase::Opening => match event {
                DecodeEvent::Opened => {
                    self.phase = DecodePhase::Reading;
                    DecodeAction::ReadPacket
                },
                DecodeEvent::OpenFailed(error) => self.finish(Err(DecoderError::Avio(error))),
                _ => self.unexpected(),
            },
            DecodePhase::Reading => match event {
                DecodeEvent::Packet { stream, position } => {
                    if stream != self.video_stream_index {
                        DecodeAction::ReadPacket
                    } else {
                        self.previous_is_target = self.current_is_target;
                        self.current_is_target = position >= 0 && position as u64
                            == self.target_offset;
                        self.phase = DecodePhase::Sending;
                        DecodeAction::SendPacket
                    }
                },
                DecodeEvent::EndOfInput => {
                    self.phase = DecodePhase::Ending;
                    DecodeAction::SendEof
                },
                _ => self.unexpected(),
            },
            DecodePhase::Sending => match event {
                DecodeEvent::Sent => {
                    self.phase = DecodePhase::Draining;
                    DecodeAction::ReceiveFrame
                },
                DecodeEvent::SendFailed(text) => self.finish(Err(DecoderError::SendPacket(text))),
                _ => self.unexpected(),
            },
            DecodePhase::Draining => match event {
                DecodeEvent::Picture { pts, y, u, v } => {
                    let keep = self.current_is_target || self.previous_is_target;
                    self.take_picture(pts, &y, &u, &v, keep)
                },
                DecodeEvent::ConvertFailed(text) => self.finish(
                    Err(DecoderError::DecodeError(text)),
                ),
                DecodeEvent::NoFrame => match self.finish_with_captured() {
                    Some(done) => done,
                    None => {
                        self.phase = DecodePhase::Reading;
                        DecodeAction::ReadPacket
                    },
                },
                _ => self.unexpected(),
            },
            DecodePhase::Ending => match event {
                DecodeEvent::Sent => {
                    self.phase = DecodePhase::Finishing;
                    DecodeAction::ReceiveFrame
                },
                DecodeEvent::SendFailed(text) => self.finish(Err(DecoderError::SendPacket(text))),
                _ => self.unexpected(),
            },
            DecodePhase::Finishing => match event {
                DecodeEvent::Picture { pts, y, u, v } => {
                    let keep = self.current_is_target;
                    self.take_picture(pts, &y, &u, &v, keep)
                },
                DecodeEvent::ConvertFailed(text) => self.finish(
                    Err(DecoderError::DecodeError(text)),
                ),
                DecodeEvent::NoFrame => match self.finish_with_captured() {
                    Some(done) => done,
                    None => {
                        let offset = self.target_offset;
                        self.finish(Err(DecoderError::FrameNotFound { offset }))
                    },
                },
                _ => self.unexpected(),
            },
            DecodePhase::Done => self.unexpected(),
        }
    }

    /// Whether the run has produced its result.
    pub fn is_done(&self) -> (done: bool)
        ensures
            done == (self@.phase == DecodePhase::Done),
    {
        match self.phase {
            DecodePhase::Done => true,
            _ => false,
        }
    }
}

/// The state after a sequence of events, and the actions asked for on the
/// way.
pub open spec fn run_through(run: DecodeRunView, events: Seq<DecodeEventView>) -> (
    DecodeRunView,
    Seq<DecodeActionView>,
)
    decreases events.len(),
{
    if events.len() == 0 {
        (run, Seq::<DecodeActionView>::empty())
    } else {
        let (before, actions) = run_through(run, events.drop_last());
        let (after, action) = before.next(events.last());
        (after, actions.push(action))
    }
}

/// A frame that packing yields is well formed and has the size asked for.
pub proof fn lemma_packed_frame_wf(
    width: u32,
    height: u32,
    pts: Option<i64>,
    y: Plane,
    u: Plane,
    v: Plane,
)
    ensures
        packed_frame(width, height, pts, y, u, v) matches Some(frame) ==> frame.wf() && frame.width
            == width && frame.height == height,
{
    if let Some(frame) = packed_frame(width, height, pts, y, u, v) {
        crate::frame::lemma_packed_rows(y, width as int, height as int);
        crate::frame::lemma_packed_rows(u, width as int / 2, height as int / 2);
        crate::frame::lemma_packed_rows(v, width as int / 2, height as int / 2);
        assert(height as int * width as int == width as int * height as int) by (nonlinear_arith);
        assert((height as int / 2) * (width as int / 2) == (width as int / 2) * (height as int
            / 2)) by (nonlinear_arith);
    }
}

/// One step keeps a run consistent, and a frame that a run ends with is
/// well formed and has the run's size.
pub proof fn lemma_step_keeps_frames_well_formed(run: DecodeRunView, event: DecodeEventView)
    requires
        run.consistent(),
        event matches DecodeEventView::Picture(Some(frame)) ==> frame.wf() && frame.width
            == run.width && frame.height == run.height,
    ensures
        run.next(event).0.consistent(),
        run.next(event).1 matches DecodeActionView::Finish(Ok(frame)) ==> frame.wf()
            && frame.width == run.width && frame.height == run.height,
{
}

/// A run reports that no frame was found only for its own offset, only when
/// the codec has nothing left after the end of the input, and only if no
/// frame was retained.
pub proof fn lemma_frame_not_found(run: DecodeRunView, event: DecodeEventView)
    ensures
        run.next(event).1 matches DecodeActionView::Finish(
            Err(DecoderErrorView::FrameNotFound { offset }),
        ) ==> offset == run.target_offset && run.phase == DecodePhase::Finishing && event
            == DecodeEventView::NoFrame && run.captured is None,
{
}

/// A packet whose position is unknown never makes a run retain a frame: after
/// it, and until the next video packet, the packet sent last does not count
/// as sitting at the wanted offset.
pub proof fn lemma_unknown_position_never_matches(
    run: DecodeRunView,
    stream: usize,
    position: i64,
)
    requires
        run.phase == DecodePhase::Reading,
        stream == run.video_stream_index,
        position < 0,
    ensures
        !run.next(DecodeEventView::Packet { stream, position }).0.current_is_target,
{
}

/// A run that has ended retains nothing: whatever it decoded cannot reach a
/// later run, which starts from [`start_of`].
pub proof fn lemma_finished_run_retains_nothing(run: DecodeRunView, event: DecodeEventView)
    ensures
        run.next(event).1 is Finish ==> run.next(event).0.phase == DecodePhase::Done
            && run.next(event).0.captured is None,
        run.next(event).0.target_offset == run.target_offset,
        run.next(event).0.video_stream_index == run.video_stream_index,
        run.next(event).0.width == run.width,
        run.next(event).0.height == run.height,
{
}

/// Events handled one after the other: handling `first + second` is handling
/// `first` and then `second`.
pub proof fn lemma_run_through_joins(
    run: DecodeRunView,
    first: Seq<DecodeEventView>,
    second: Seq<DecodeEventView>,
)
    ensures
        run_through(run, first + second).0 == run_through(run_through(run, first).0, second).0,
        run_through(run, first + second).1 == run_through(run, first).1 + run_through(
            run_through(run, first).0,
            second,
        ).1,
    decreases second.len(),
{
    if second.len() == 0 {
        assert(first + second =~= first);
        assert(run_through(run, first).1 + Seq::<DecodeActionView>::empty() =~= run_through(
            run,
            first,
        ).1);
    } else {
        let all = first + second;
        assert(all.drop_last() =~= first + second.drop_last());
        assert(all.last() == second.last());
        lemma_run_through_joins(run, first, second.drop_last());
        let middle = run_through(run, first);
        let before = run_through(middle.0, second.drop_last());
        let action = before.0.next(second.last()).1;
        assert((middle.1 + before.1).push(action) =~= middle.1 + before.1.push(action));
    }
}

/// What a run sees of one video packet when the codec hands out the
/// packet's frame right after the packet: the packet, its acceptance, the
/// frame, and then nothing more.
pub open spec fn packet_events(stream: usize, position: i64, frame: FrameView) -> Seq<
    DecodeEventView,
> {
    seq![
        DecodeEventView::Packet { stream, position },
        DecodeEventView::Sent,
        DecodeEventView::Picture(Some(frame)),
        DecodeEventView::NoFrame,
    ]
}

/// What a run sees of the first `n` video packets, each followed by its
/// frame.
pub open spec fn stream_events(
    stream: usize,
    positions: Seq<i64>,
    frames: Seq<FrameView>,
    n: int,
) -> Seq<DecodeEventView>
    decreases n,
{
    if n <= 0 {
        Seq::<DecodeEventView>::empty()
    } else {
        stream_events(stream, positions, frames, n - 1) + packet_events(
            stream,
            positions[n - 1],
            frames[n - 1],
        )
    }
}

/// A run that reads packets and has seen no packet at the wanted offset.
pub open spec fn searching(run: DecodeRunView) -> bool {
    run.phase == DecodePhase::Reading && !run.current_is_target && !run.previous_is_target
        && run.captured is None
}

/// A video packet that does not sit at the wanted offset, followed by its
/// frame, leaves a searching run as it was.
pub proof fn lemma_other_packet_is_passed(run: DecodeRunView, position: i64, frame: FrameView)
    requires
        searching(run),
        !at_target(position, run.target_offset),
    ensures
        run_through(run, packet_events(run.video_stream_index, position, frame)).0 == run,
{
    let events = packet_events(run.video_stream_index, position, frame);
    reveal_with_fuel(run_through, 5);
    assert(events.drop_last() =~= seq![events[0], events[1], events[2]]);
    assert(events.drop_last().drop_last() =~= seq![events[0], events[1]]);
    assert(events.drop_last().drop_last().drop_last() =~= seq![events[0]]);
    assert(events.drop_last().drop_last().drop_last().drop_last() =~= Seq::<
        DecodeEventView,
    >::empty());
}

/// The video packet at the wanted offset, followed by its frame, ends a
/// searching run with that frame.
pub proof fn lemma_target_packet_is_answered(run: DecodeRunView, position: i64, frame: FrameView)
    requires
        searching(run),
        at_target(position, run.target_offset),
    ensures
        run_through(run, packet_events(run.video_stream_index, position, frame)).1.len() == 4,
        run_through(run, packet_events(run.video_stream_index, position, frame)).1.last()
            == DecodeActionView::Finish(Ok(frame)),
{
    let events = packet_events(run.video_stream_index, position, frame);
    reveal_with_fuel(run_through, 5);
    assert(events.drop_last() =~= seq![events[0], events[1], events[2]]);
    assert(events.drop_last().drop_last() =~= seq![events[0], events[1]]);
    assert(events.drop_last().drop_last().drop_last() =~= seq![events[0]]);
    assert(events.drop_last().drop_last().drop_last().drop_last() =~= Seq::<
        DecodeEventView,
    >::empty());
}

/// With a codec that hands out the frame of every packet right after the
/// packet, the run for the offset of packet `k` ends with the frame of
/// packet `k`, provided no earlier packet sits at that offset. The frames
/// of the packets before it are decoded and dropped.
pub proof fn lemma_frame_at_offset_is_found(
    run: DecodeRunView,
    positions: Seq<i64>,
    frames: Seq<FrameView>,
    k: int,
)
    requires
        searching(run),
        0 <= k < positions.len(),
        positions.len() == frames.len(),
        at_target(positions[k], run.target_offset),
        forall|j: int| 0 <= j < k ==> !at_target(#[trigger] positions[j], run.target_offset),
    ensures
        run_through(run, stream_events(run.video_stream_index, positions, frames, k + 1)).1.last()
            == DecodeActionView::Finish(Ok(frames[k])),
{
    lemma_search_goes_on(run, positions, frames, k);
    let before = stream_events(run.video_stream_index, positions, frames, k);
    let last = packet_events(run.video_stream_index, positions[k], frames[k]);
    lemma_run_through_joins(run, before, last);
    lemma_target_packet_is_answered(run, positions[k], frames[k]);
    let first = run_through(run, before).1;
    let second = run_through(run, last).1;
    assert((first + second).last() == second.last());
}

/// What a run sees at the end of the input when the codec holds nothing
/// more: the end, the acceptance of the end-of-stream signal, and no frame.
pub open spec fn end_events() -> Seq<DecodeEventView> {
    seq![DecodeEventView::EndOfInput, DecodeEventView::Sent, DecodeEventView::NoFrame]
}

/// A searching run that meets the end of the input reports that no frame
/// was found at the wanted offset.
pub proof fn lemma_end_of_search(run: DecodeRunView)
    requires
        searching(run),
    ensures
        run_through(run, end_events()).1.len() == 3,
        run_through(run, end_events()).1.last() == DecodeActionView::Finish(
            Err(DecoderErrorView::FrameNotFound { offset: run.target_offset }),
        ),
{
    let end = end_events();
    reveal_with_fuel(run_through, 4);
    assert(end.drop_last() =~= seq![end[0], end[1]]);
    assert(end.drop_last().drop_last() =~= seq![end[0]]);
    assert(end.drop_last().drop_last().drop_last() =~= Seq::<DecodeEventView>::empty());
}

/// When no packet sits at the wanted offset, the run reads to the end of the
/// input, finds that the codec holds nothing more, and reports that no
/// frame was found at that offset.
pub proof fn lemma_missing_offset_is_reported(
    run: DecodeRunView,
    positions: Seq<i64>,
    frames: Seq<FrameView>,
)
    requires
        searching(run),
        positions.len() == frames.len(),
        forall|j: int|
            0 <= j < positions.len() ==> !at_target(#[trigger] positions[j], run.target_offset),
    ensures
        run_through(
            run,
            stream_events(run.video_stream_index, positions, frames, positions.len() as int)
                + end_events(),
        ).1.last() == DecodeActionView::Finish(
            Err(DecoderErrorView::FrameNotFound { offset: run.target_offset }),
        ),
{
    let n = positions.len() as int;
    lemma_search_goes_on(run, positions, frames, n);
    let before = stream_events(run.video_stream_index, positions, frames, n);
    lemma_run_through_joins(run, before, end_events());
    lemma_end_of_search(run);
    let first = run_through(run, before).1;
    let second = run_through(run, end_events()).1;
    assert((first + second).last() == second.last());
}

/// As long as no packet sits at the wanted offset, a searching run goes on
/// searching.
pub proof fn lemma_search_goes_on(
    run: DecodeRunView,
    positions: Seq<i64>,
    frames: Seq<FrameView>,
    n: int,
)
    requires
        searching(run),
        0 <= n <= positions.len(),
        positions.len() == frames.len(),
        forall|j: int| 0 <= j < n ==> !at_target(#[trigger] positions[j], run.target_offset),
    ensures
        run_through(run, stream_events(run.video_stream_index, positions, frames, n)).0 == run,
    decreases n,
{
    if n > 0 {
        lemma_search_goes_on(run, positions, frames, n - 1);
        let before = stream_events(run.video_stream_index, positions, frames, n - 1);
        let last = packet_events(run.video_stream_index, positions[n - 1], frames[n - 1]);
        lemma_run_through_joins(run, before, last);
        lemma_other_packet_is_passed(run, positions[n - 1], frames[n - 1]);
    }
}

// ---------------------------------------------------------------------------
// Picking frames by index
// ---------------------------------------------------------------------------
/// The largest of the indices; zero where there is none.
pub open spec fn max_index(indices: Seq<u32>) -> u32
    decreases indices.len(),
{
    if indices.len() == 0 {
        0
    } else {
        let rest = max_index(indices.drop_last());
        if indices.last() > rest {
            indices.last()
        } else {
            rest
        }
    }
}

/// The largest index bounds every index and, where there is one, is one of
/// them.
pub proof fn lemma_max_index(indices: Seq<u32>)
    ensures
        forall|i: int| 0 <= i < indices.len() ==> indices[i] <= max_index(indices),
        indices.len() > 0 ==> exists|i: int| 0 <= i < indices.len() && indices[i] == max_index(
            indices,
        ),
    decreases indices.len(),
{
    if indices.len() > 0 {
        let front = indices.drop_last();
        lemma_max_index(front);
        if front.len() > 0 {
            let i = choose|i: int| 0 <= i < front.len() && front[i] == max_index(front);
            assert(indices[i] == front[i]);
        }
        assert(indices[indices.len() - 1] == indices.last());
        assert forall|i: int| 0 <= i < indices.len() implies indices[i] <= max_index(indices) by {
            if i < front.len() {
                assert(indices[i] == front[i]);
            }
        }
    }
}

/// The number of frames that must be decoded to serve the indices: one more
/// than the largest index, none where no index is asked for.
pub fn frames_needed(frame_indices: &Vec<u32>) -> (needed: u64)
    ensures
        needed == if frame_indices@.len() == 0 {
            0
        } else {
            max_index(frame_indices@) as int + 1
        },
{
    if frame_indices.len() == 0 {
        return 0;
    }
    let mut largest: u32 = 0;
    let mut i: usize = 0;
    while i < frame_indices.len()
        invariant
            0 <= i <= frame_indices.len(),
            largest == max_index(frame_indices@.subrange(0, i as int)),
        decreases frame_indices.len() - i,
    {
        proof {
            assert(frame_indices@.subrange(0, i as int + 1).drop_last() =~= frame_indices@.subrange(
                0,
                i as int,
            ));
        }
        if frame_indices[i] > largest {
            largest = frame_indices[i];
        }
        i = i + 1;
    }
    proof {
        assert(frame_indices@.subrange(0, i as int) =~= frame_indices@);
    }
    largest as u64 + 1
}

/// The first index that no decoded frame answers.
pub open spec fn first_missing(indices: Seq<u32>, total: int) -> Option<int>
    decreases indices.len(),
{
    if indices.len() == 0 {
        None
    } else {
        match first_missing(indices.drop_last(), total) {
            Some(i) => Some(i),
            None => if indices.last() as int >= total {
                Some(indices.len() - 1)
            } else {
                None
            },
        }
    }
}

/// Each of the first `n` picked frames is the decoded frame at its index.
pub open spec fn picked(
    frames: Seq<DecodedFrame>,
    all_frames: Seq<DecodedFrame>,
    indices: Seq<u32>,
    n: int,
) -> bool {
    &&& forall|j: int| 0 <= j < n ==> (#[trigger] indices[j]) < all_frames.len()
    &&& forall|j: int| 0 <= j < n ==> (#[trigger] frames[j])@ == all_frames[indices[j] as int]@
}

/// Picks, for each index in order, the decoded frame at that index.
///
/// Succeeds exactly when every index is below the number of decoded frames.
/// Otherwise the error names the first index that is not, and the number of
/// decoded frames saturated at the largest 32-bit value.
pub fn select_frames(all_frames: &Vec<DecodedFrame>, frame_indices: &Vec<u32>) -> (selected:
    Result<Vec<DecodedFrame>, DecoderError>)
    ensures
        match selected {
            Ok(frames) => {
                &&& first_missing(frame_indices@, all_frames@.len() as int) is None
                &&& frames@.len() == frame_indices@.len()
                &&& picked(frames@, all_frames@, frame_indices@, frames@.len() as int)
            },
            Err(error) => {
                &&& first_missing(frame_indices@, all_frames@.len() as int) matches Some(at)
                &&& error == DecoderError::FrameIndexNotFound {
                    index: frame_indices@[at],
                    total: if all_frames@.len() > u32::MAX {
                        u32::MAX
                    } else {
                        all_frames@.len() as u32
                    },
                }
            },
        },
{
    let total: usize = all_frames.len();
    let mut frames: Vec<DecodedFrame> = Vec::new();
    let mut i: usize = 0;
    while i < frame_indices.len()
        invariant
            0 <= i <= frame_indices.len(),
            total == all_frames@.len(),
            first_missing(frame_indices@.subrange(0, i as int), total as int) is None,
            frames@.len() == i,
            picked(frames@, all_frames@, frame_indices@, i as int),
        decreases frame_indices.len() - i,
    {
        proof {
            assert(frame_indices@.subrange(0, i as int + 1).drop_last() =~= frame_indices@.subrange(
                0,
                i as int,
            ));
        }
        let index: u32 = frame_indices[i];
        if index as usize >= total {
            proof {
                lemma_first_missing_prefix(frame_indices@, total as int, i as int + 1);
            }
            let reported: u32 = if total > 0xffff_ffff {
                0xffff_ffff
            } else {
                total as u32
            };
            return Err(DecoderError::FrameIndexNotFound { index, total: reported });
        }
        let frame = copy_frame(&all_frames[index as usize]);
        let ghost before = frames@;
        frames.push(frame);
        proof {
            assert forall|j: int| 0 <= j < i + 1 implies (#[trigger] frames@[j])@
                == all_frames@[frame_indices@[j] as int]@ by {
                if j < i {
                    assert(frames@[j] == before[j]);
                } else {
                    assert(frames@[j] == frame);
                }
            }
            assert(picked(frames@, all_frames@, frame_indices@, i as int + 1));
        }
        i = i + 1;
    }
    proof {
        assert(frame_indices@.subrange(0, i as int) =~= frame_indices@);
    }
    Ok(frames)
}

/// A missing index found in a prefix is the first missing index of the whole.
pub proof fn lemma_first_missing_prefix(indices: Seq<u32>, total: int, n: int)
    requires
        0 <= n <= indices.len(),
        first_missing(indices.subrange(0, n), total) is Some,
    ensures
        first_missing(indices, total) == first_missing(indices.subrange(0, n), total),
    decreases indices.len() - n,
{
    if n == indices.len() {
        assert(indices.subrange(0, n) =~= indices);
    } else {
        assert(indices.subrange(0, n + 1).drop_last() =~= indices.subrange(0, n));
        lemma_first_missing_prefix(indices, total, n + 1);
    }
}

/// A copy of a frame.
fn copy_frame(frame: &DecodedFrame) -> (copy: DecodedFrame)
    ensures
        copy@ == frame@,
{
    let mut data: Vec<u8> = Vec::new();
    data.extend_from_slice(frame.data.as_slice());
    proof {
        assert(data@ =~= frame.data@);
    }
    DecodedFrame {
        width: frame.width,
        height: frame.height,
        pts: frame.pts,
        data,
        linesize: frame.linesize,
    }
}

} // verus!
