//! The session of one connection: which video it serves, which frames are
//! waiting, and what is sent in answer to what.
//!
//! Everything that waits on the outside world — the transport, the object
//! store, the codec — is done by a driver. After each thing it did, the
//! driver hands the session a [`SessionEvent`] and gets a [`Step`] back: the
//! frames to send, in order, and the one thing to do next. If a frame cannot
//! be sent, the driver sends none of the later ones and reports
//! `SendFailed`, on which the session closes.
//!
//! A driver starts by doing [`Command::Receive`].

use crate::decoder::{decoder_of, Decoder, DecoderError, DecoderView, Probe, ProbeView};
use crate::encoder::{clamp_quality, EncodeError, JpegEncoder};
use crate::protocol::{
    read_client, ClientMessage, ClientMessageView, FrameRequest, ServerMessage, ServerMessageView,
};
use std::collections::VecDeque;
use std::sync::Arc;
use vstd::prelude::*;

verus! {

/// A frame that arrived on the connection.
#[derive(Debug, Clone, PartialEq, Eq)]
pub enum Inbound {
    Text(String),
    Binary(Vec<u8>),
    Ping(Vec<u8>),
    Pong(Vec<u8>),
    Close,
}

/// A frame to send on the connection.
#[derive(Debug, Clone, PartialEq, Eq)]
pub enum Outbound {
    /// A text frame holding the message's wire text.
    Text(ServerMessage),
    /// A binary frame holding a JPEG image.
    Binary(Vec<u8>),
    /// The answer to a ping, with the ping's payload.
    Pong(Vec<u8>),
}

/// What the driver did, and what came of it.
#[derive(Debug)]
pub enum SessionEvent {
    /// A frame arrived.
    Received(Inbound),
    /// The transport failed or ended.
    ReceiveFailed,
    /// The store answered whether the object exists, or failed with a
    /// message.
    Exists(Result<bool, String>),
    /// The store handed out the whole object, or failed with a message.
    Fetched(Result<Vec<u8>, String>),
    /// The fetched bytes were probed.
    Probed(Probe),
    /// A worker produced the JPEG of the requested frame, or failed with a
    /// message.
    Rendered(Result<Vec<u8>, String>),
    /// The worker on the requested frame was lost.
    WorkerLost,
    /// A frame of the last step could not be sent.
    SendFailed,
}

/// The one thing the driver must do next.
#[derive(Debug, Clone, PartialEq, Eq)]
pub enum Command {
    /// Wait for the next frame from the connection.
    Receive,
    /// Ask the store whether the object exists.
    CheckExists { path: String },
    /// Fetch the whole object from the store.
    Fetch { path: String },
    /// Probe the bytes just fetched, which the session holds as pending.
    ProbeVideo,
    /// Decode the requested frame from the session's video and encode it at
    /// the given quality, on a blocking worker.
    Render { request: FrameRequest, quality: u8 },
    /// Close the connection and drop the session.
    Close,
}

/// What a session answers to an event.
#[derive(Debug)]
pub struct Step {
    /// Frames to send, in this order and with nothing in between.
    pub send: Vec<Outbound>,
    /// What to do once they are sent.
    pub next: Command,
}

/// The outcome of processing one request.
#[derive(Debug)]
pub struct ProcessResult {
    /// The request that was processed.
    pub request: FrameRequest,
    /// The JPEG image, or why there is none.
    pub result: Result<Vec<u8>, String>,
}

// ---------------------------------------------------------------------------
// Mathematical values
// ---------------------------------------------------------------------------
pub enum InboundView {
    Text(Seq<char>),
    Binary(Seq<u8>),
    Ping(Seq<u8>),
    Pong(Seq<u8>),
    Close,
}

pub enum OutboundView {
    Text(ServerMessageView),
    Binary(Seq<u8>),
    Pong(Seq<u8>),
}

pub enum SessionEventView {
    Received(InboundView),
    ReceiveFailed,
    Exists(Result<bool, Seq<char>>),
    Fetched(Result<Seq<u8>, Seq<char>>),
    Probed(ProbeView),
    Rendered(Result<Seq<u8>, Seq<char>>),
    WorkerLost,
    SendFailed,
}

pub enum CommandView {
    Receive,
    CheckExists { path: Seq<char> },
    Fetch { path: Seq<char> },
    ProbeVideo,
    Render { request: FrameRequest, quality: u8 },
    Close,
}

impl View for Inbound {
    type V = InboundView;

    open spec fn view(&self) -> InboundView {
        match self {
            Inbound::Text(text) => InboundView::Text(text@),
            Inbound::Binary(bytes) => InboundView::Binary(bytes@),
            Inbound::Ping(bytes) => InboundView::Ping(bytes@),
            Inbound::Pong(bytes) => InboundView::Pong(bytes@),
            Inbound::Close => InboundView::Close,
        }
    }
}

impl View for Outbound {
    type V = OutboundView;

    open spec fn view(&self) -> OutboundView {
        match self {
            Outbound::Text(message) => OutboundView::Text(message@),
            Outbound::Binary(bytes) => OutboundView::Binary(bytes@),
            Outbound::Pong(bytes) => OutboundView::Pong(bytes@),
        }
    }
}

impl View for SessionEvent {
    type V = SessionEventView;

    open spec fn view(&self) -> SessionEventView {
        match self {
            SessionEvent::Received(frame) => SessionEventView::Received(frame@),
            SessionEvent::ReceiveFailed => SessionEventView::ReceiveFailed,
            SessionEvent::Exists(Ok(found)) => SessionEventView::Exists(Ok(*found)),
            SessionEvent::Exists(Err(text)) => SessionEventView::Exists(Err(text@)),
            SessionEvent::Fetched(Ok(bytes)) => SessionEventView::Fetched(Ok(bytes@)),
            SessionEvent::Fetched(Err(text)) => SessionEventView::Fetched(Err(text@)),
            SessionEvent::Probed(probe) => SessionEventView::Probed(probe@),
            SessionEvent::Rendered(Ok(bytes)) => SessionEventView::Rendered(Ok(bytes@)),
            SessionEvent::Rendered(Err(text)) => SessionEventView::Rendered(Err(text@)),
            SessionEvent::WorkerLost => SessionEventView::WorkerLost,
            SessionEvent::SendFailed => SessionEventView::SendFailed,
        }
    }
}

impl View for Command {
    type V = CommandView;

    open spec fn view(&self) -> CommandView {
        match self {
            Command::Receive => CommandView::Receive,
            Command::CheckExists { path } => CommandView::CheckExists { path: path@ },
            Command::Fetch { path } => CommandView::Fetch { path: path@ },
            Command::ProbeVideo => CommandView::ProbeVideo,
            Command::Render { request, quality } => CommandView::Render {
                request: *request,
                quality: *quality,
            },
            Command::Close => CommandView::Close,
        }
    }
}

/// The values of frames to send, in order.
pub open spec fn outbound_views(frames: Seq<Outbound>) -> Seq<OutboundView> {
    Seq::new(frames.len(), |i: int| frames[i]@)
}

/// What a step amounts to: the frames to send and the command.
pub struct StepView {
    pub send: Seq<OutboundView>,
    pub next: CommandView,
}

impl View for Step {
    type V = StepView;

    open spec fn view(&self) -> StepView {
        StepView { send: outbound_views(self.send@), next: self.next@ }
    }
}

/// The video a session serves: its path, its bytes and the decoder set up
/// for it. A session has all three or none.
pub struct VideoView {
    pub path: Seq<char>,
    pub data: Seq<u8>,
    pub decoder: DecoderView,
}

/// What a session waits for.
pub enum StageView {
    /// A frame from the connection.
    Listening,
    /// The store's answer on whether the object at `path` exists.
    Checking { path: Seq<char> },
    /// The bytes of the object at `path`.
    Fetching { path: Seq<char> },
    /// The outcome of probing the bytes fetched from `path`.
    Probing { path: Seq<char>, data: Seq<u8> },
    /// The JPEG of the requested frame.
    Rendering { request: FrameRequest },
    /// Nothing: the connection is to be closed.
    Closed,
}

/// The mathematical value of a [`Session`].
pub struct SessionView {
    /// The video served, once one was set.
    pub video: Option<VideoView>,
    /// JPEG quality, in `1..=100`.
    pub quality: int,
    /// Requests waiting to be rendered, oldest first.
    pub queue: Seq<FrameRequest>,
    pub stage: StageView,
}

/// The `size` member of a frame header for a JPEG of `len` bytes: `len` as an
/// unsigned 32-bit number.
pub open spec fn wire_size(len: nat) -> u32 {
    len as u32
}

/// The frames that answer one processed request: a header and the image, in
/// this order, for a JPEG; one error message without an image otherwise.
/// Index and offset are those of the request.
pub open spec fn response(request: FrameRequest, result: Result<Seq<u8>, Seq<char>>) -> Seq<
    OutboundView,
> {
    match result {
        Ok(jpeg) => seq![
            OutboundView::Text(
                ServerMessageView::Frame {
                    index: request.index,
                    offset: request.offset,
                    size: wire_size(jpeg.len()),
                },
            ),
            OutboundView::Binary(jpeg),
        ],
        Err(text) => seq![
            OutboundView::Text(
                ServerMessageView::FrameError {
                    index: request.index,
                    offset: request.offset,
                    error: text,
                },
            ),
        ],
    }
}

/// One error message.
pub open spec fn error_reply(text: Seq<char>) -> Seq<OutboundView> {
    seq![OutboundView::Text(ServerMessageView::Error { message: text })]
}

impl SessionView {
    /// A session that serves no video yet and has nothing queued.
    pub open spec fn fresh(quality: int) -> SessionView {
        SessionView {
            video: None,
            quality,
            queue: Seq::<FrameRequest>::empty(),
            stage: StageView::Listening,
        }
    }

    /// The session goes back to listening and sends `send`.
    pub open spec fn listen(self, send: Seq<OutboundView>) -> (SessionView, StepView) {
        (
            SessionView { stage: StageView::Listening, ..self },
            StepView { send, next: CommandView::Receive },
        )
    }

    /// The session closes.
    pub open spec fn close(self) -> (SessionView, StepView) {
        (
            SessionView { stage: StageView::Closed, ..self },
            StepView { send: Seq::<OutboundView>::empty(), next: CommandView::Close },
        )
    }

    /// The session sends `send` and turns to the oldest waiting request; with
    /// none waiting it goes back to listening.
    pub open spec fn advance(self, send: Seq<OutboundView>) -> (SessionView, StepView) {
        if self.queue.len() == 0 {
            self.listen(send)
        } else {
            (
                SessionView {
                    stage: StageView::Rendering { request: self.queue[0] },
                    queue: self.queue.subrange(1, self.queue.len() as int),
                    ..self
                },
                StepView {
                    send,
                    next: CommandView::Render {
                        request: self.queue[0],
                        quality: self.quality as u8,
                    },
                },
            )
        }
    }

    /// What a listening session does with a text frame.
    ///
    /// * A text that is no message is answered by an error that begins with
    ///   `Invalid message: `.
    /// * `SetVideo` makes the session ask the store whether the object
    ///   exists.
    /// * `RequestFrames` without a video is answered by an error. With a
    ///   video, the requests join the queue in the order given and the
    ///   session turns to the oldest waiting request.
    pub open spec fn on_text(self, text: Seq<char>) -> (SessionView, StepView) {
        match read_client(text) {
            Err(error) => self.listen(error_reply("Invalid message: "@ + error.text())),
            Ok(ClientMessageView::SetVideo { path }) => (
                SessionView { stage: StageView::Checking { path }, ..self },
                StepView {
                    send: Seq::<OutboundView>::empty(),
                    next: CommandView::CheckExists { path },
                },
            ),
            Ok(ClientMessageView::RequestFrames { frames }) => if self.video is None {
                self.listen(error_reply("No video set. Send SetVideo first."@))
            } else {
                SessionView { queue: self.queue + frames, ..self }.advance(
                    Seq::<OutboundView>::empty(),
                )
            },
        }
    }

    /// The state after an event, the frames to send and what to do next.
    ///
    /// * Listening: a text frame is handled as [`Self::on_text`] says; a ping
    ///   is answered by a pong with the same payload; pongs and binary frames
    ///   are ignored; a close frame or a failed transport closes the session.
    /// * Setting a video: if the object does not exist, the answer is
    ///   `VideoSet` with `ok` false. If it exists it is fetched and probed,
    ///   and a decoder is set up; then path, bytes and decoder replace the
    ///   video served, the queue is emptied and the answer is `VideoSet` with
    ///   `ok` true. A failure of the store or of setting the decoder up is
    ///   answered by an error. Whenever no new video is set, the video
    ///   served before stays.
    /// * Rendering: the outcome is answered as [`response`] says, then the
    ///   session turns to the next waiting request. A lost worker is answered
    ///   by a frame error that says `join failure`.
    /// * A frame that could not be sent closes the session, and so does an
    ///   event that does not answer what was asked for.
    pub open spec fn next(self, event: SessionEventView) -> (SessionView, StepView) {
        match (self.stage, event) {
            (StageView::Closed, _) => self.close(),
            (_, SessionEventView::SendFailed) => self.close(),
            (StageView::Listening, SessionEventView::Received(InboundView::Text(text))) =>
                self.on_text(text),
            (StageView::Listening, SessionEventView::Received(InboundView::Ping(payload))) =>
                self.listen(seq![OutboundView::Pong(payload)]),
            (StageView::Listening, SessionEventView::Received(InboundView::Pong(_))) =>
                self.listen(Seq::<OutboundView>::empty()),
            (StageView::Listening, SessionEventView::Received(InboundView::Binary(_))) =>
                self.listen(Seq::<OutboundView>::empty()),
            (StageView::Listening, SessionEventView::Received(InboundView::Close)) => self.close(),
            (StageView::Listening, SessionEventView::ReceiveFailed) => self.close(),
            (StageView::Checking { path }, SessionEventView::Exists(Ok(found))) => if found {
                (
                    SessionView { stage: StageView::Fetching { path }, ..self },
                    StepView {
                        send: Seq::<OutboundView>::empty(),
                        next: CommandView::Fetch { path },
                    },
                )
            } else {
                self.listen(
                    seq![OutboundView::Text(ServerMessageView::VideoSet { path, ok: false })],
                )
            },
            (StageView::Checking { path }, SessionEventView::Exists(Err(text))) => self.listen(
                error_reply(text),
            ),
            (StageView::Fetching { path }, SessionEventView::Fetched(Ok(data))) => (
                SessionView { stage: StageView::Probing { path, data }, ..self },
                StepView { send: Seq::<OutboundView>::empty(), next: CommandView::ProbeVideo },
            ),
            (StageView::Fetching { path }, SessionEventView::Fetched(Err(text))) => self.listen(
                error_reply(text),
            ),
            (StageView::Probing { path, data }, SessionEventView::Probed(probe)) => match decoder_of(
                probe,
            ) {
                Ok(decoder) => SessionView {
                    video: Some(VideoView { path, data, decoder }),
                    queue: Seq::<FrameRequest>::empty(),
                    ..self
                }.listen(seq![OutboundView::Text(ServerMessageView::VideoSet { path, ok: true })]),
                Err(error) => self.listen(error_reply(error.text())),
            },
            (StageView::Rendering { request }, SessionEventView::Rendered(result)) => self.advance(
                response(request, result),
            ),
            (StageView::Rendering { request }, SessionEventView::WorkerLost) => self.advance(
                response(request, Err("join failure"@)),
            ),
            _ => self.close(),
        }
    }
}

/// The state after a sequence of events, and everything sent on the way, in
/// order.
pub open spec fn run_through(session: SessionView, events: Seq<SessionEventView>) -> (
    SessionView,
    Seq<OutboundView>,
)
    decreases events.len(),
{
    if events.len() == 0 {
        (session, Seq::<OutboundView>::empty())
    } else {
        let (before, sent) = run_through(session, events.drop_last());
        let (after, step) = before.next(events.last());
        (after, sent + step.send)
    }
}

// ---------------------------------------------------------------------------
// The pairing of headers and images
// ---------------------------------------------------------------------------
/// A frame is the header of an image.
pub open spec fn is_header(frame: OutboundView) -> bool {
    frame matches OutboundView::Text(ServerMessageView::Frame { .. })
}

/// Headers and images are paired: every header is directly followed by a
/// binary frame, and every binary frame directly follows a header.
pub open spec fn well_paired(sent: Seq<OutboundView>) -> bool {
    &&& forall|i: int|
        0 <= i < sent.len() && is_header(#[trigger] sent[i]) ==> i + 1 < sent.len() && sent[i
            + 1] is Binary
    &&& forall|i: int|
        0 <= i < sent.len() && (#[trigger] sent[i]) is Binary ==> i > 0 && is_header(sent[i - 1])
}

/// Every header announces the size of the image that follows it.
pub open spec fn sizes_match(sent: Seq<OutboundView>) -> bool {
    forall|i: int|
        0 <= i && i + 1 < sent.len() && is_header(#[trigger] sent[i]) && sent[i + 1] is Binary
            ==> sent[i]->Text_0->Frame_size as int == sent[i + 1]->Binary_0.len()
}

/// No JPEG handed to the session is 2^32 bytes long or longer.
pub open spec fn images_fit(events: Seq<SessionEventView>) -> bool {
    forall|i: int|
        0 <= i < events.len() ==> (#[trigger] events[i] matches SessionEventView::Rendered(Ok(jpeg))
            ==> jpeg.len() <= u32::MAX)
}

/// What one step sends is paired.
pub proof fn lemma_step_is_paired(session: SessionView, event: SessionEventView)
    ensures
        well_paired(session.next(event).1.send),
        (event matches SessionEventView::Rendered(Ok(jpeg)) ==> jpeg.len() <= u32::MAX)
            ==> sizes_match(session.next(event).1.send),
{
    let sent = session.next(event).1.send;
    assert(sent.len() <= 2);
    if sent.len() == 2 {
        assert(is_header(sent[0]));
        assert(sent[1] is Binary);
    }
}

/// Paired sequences sent one after the other are paired.
pub proof fn lemma_pairing_joins(first: Seq<OutboundView>, second: Seq<OutboundView>)
    requires
        well_paired(first),
        well_paired(second),
    ensures
        well_paired(first + second),
        sizes_match(first) && sizes_match(second) ==> sizes_match(first + second),
{
    let all = first + second;
    assert forall|i: int| 0 <= i < all.len() && is_header(#[trigger] all[i]) implies i + 1
        < all.len() && all[i + 1] is Binary by {
        if i < first.len() {
            assert(all[i] == first[i]);
            assert(all[i + 1] == first[i + 1]);
        } else {
            assert(all[i] == second[i - first.len()]);
            assert(all[i + 1] == second[i + 1 - first.len()]);
        }
    }
    assert forall|i: int| 0 <= i < all.len() && (#[trigger] all[i]) is Binary implies i > 0
        && is_header(all[i - 1]) by {
        if i < first.len() {
            assert(all[i] == first[i]);
            assert(all[i - 1] == first[i - 1]);
        } else {
            assert(all[i] == second[i - first.len()]);
            assert(all[i - 1] == second[i - 1 - first.len()]);
        }
    }
    if sizes_match(first) && sizes_match(second) {
        assert forall|i: int|
            0 <= i && i + 1 < all.len() && is_header(#[trigger] all[i]) && all[i
                + 1] is Binary implies all[i]->Text_0->Frame_size as int == all[i
            + 1]->Binary_0.len() by {
            if i < first.len() {
                assert(all[i] == first[i]);
                assert(all[i + 1] == first[i + 1]);
            } else {
                assert(all[i] == second[i - first.len()]);
                assert(all[i + 1] == second[i + 1 - first.len()]);
            }
        }
    }
}

/// Whatever happens to a session, what it has sent is paired: every header is
/// directly followed by a binary frame, and no binary frame is sent that
/// does not directly follow a header. In particular no binary frame follows
/// a frame error before the next header. If every image is shorter than
/// 2^32 bytes, the binary frame has exactly the size its header announces.
pub proof fn lemma_session_output_is_paired(session: SessionView, events: Seq<SessionEventView>)
    ensures
        well_paired(run_through(session, events).1),
        images_fit(events) ==> sizes_match(run_through(session, events).1),
    decreases events.len(),
{
    if events.len() > 0 {
        let front = events.drop_last();
        lemma_session_output_is_paired(session, front);
        let (before, sent) = run_through(session, front);
        lemma_step_is_paired(before, events.last());
        lemma_pairing_joins(sent, before.next(events.last()).1.send);
        if images_fit(events) {
            assert forall|i: int| 0 <= i < front.len() implies (#[trigger] front[i] matches SessionEventView::Rendered(
                Ok(jpeg),
            ) ==> jpeg.len() <= u32::MAX) by {
                assert(front[i] == events[i]);
            }
            assert(events.last() == events[events.len() - 1]);
        }
    }
}

/// The answer to a request carries the request's index and offset, whether
/// the frame was produced or not.
pub proof fn lemma_response_echoes_request(
    request: FrameRequest,
    result: Result<Seq<u8>, Seq<char>>,
)
    ensures
        match response(request, result)[0] {
            OutboundView::Text(ServerMessageView::Frame { index, offset, .. }) => result is Ok
                && index == request.index && offset == request.offset,
            OutboundView::Text(ServerMessageView::FrameError { index, offset, .. }) => result is Err
                && index == request.index && offset == request.offset,
            _ => false,
        },
{
}

/// A session renders the requests of a batch in the order given: the request
/// it turns to is the oldest one waiting, and the others keep their order.
pub proof fn lemma_requests_keep_their_order(session: SessionView, send: Seq<OutboundView>)
    requires
        session.queue.len() > 0,
    ensures
        session.advance(send).1.next == (CommandView::Render {
            request: session.queue[0],
            quality: session.quality as u8,
        }),
        session.advance(send).0.stage == (StageView::Rendering { request: session.queue[0] }),
        session.advance(send).0.queue == session.queue.subrange(1, session.queue.len() as int),
{
}

/// The answers to the first requests of a batch, one after the other.
pub open spec fn responses(
    frames: Seq<FrameRequest>,
    results: Seq<Result<Seq<u8>, Seq<char>>>,
) -> Seq<OutboundView>
    decreases results.len(),
{
    if results.len() == 0 || results.len() > frames.len() {
        Seq::<OutboundView>::empty()
    } else {
        responses(frames, results.drop_last()) + response(
            frames[results.len() - 1],
            results.last(),
        )
    }
}

/// The events of a worker that reports these results, in order.
pub open spec fn rendered(results: Seq<Result<Seq<u8>, Seq<char>>>) -> Seq<SessionEventView> {
    Seq::new(results.len(), |i: int| SessionEventView::Rendered(results[i]))
}

/// The session in the middle of a batch: `done` requests are answered, the
/// next one is being rendered and the others wait in their order. With all
/// requests answered the session listens again.
pub open spec fn in_batch(session: SessionView, frames: Seq<FrameRequest>, done: int) -> SessionView {
    if done < frames.len() {
        SessionView {
            stage: StageView::Rendering { request: frames[done] },
            queue: frames.subrange(done + 1, frames.len() as int),
            ..session
        }
    } else {
        SessionView {
            stage: StageView::Listening,
            queue: Seq::<FrameRequest>::empty(),
            ..session
        }
    }
}

/// Events handled one after the other: handling `first + second` is handling
/// `first` and then `second`.
pub proof fn lemma_run_through_joins(
    session: SessionView,
    first: Seq<SessionEventView>,
    second: Seq<SessionEventView>,
)
    ensures
        run_through(session, first + second).0 == run_through(
            run_through(session, first).0,
            second,
        ).0,
        run_through(session, first + second).1 == run_through(session, first).1 + run_through(
            run_through(session, first).0,
            second,
        ).1,
    decreases second.len(),
{
    if second.len() == 0 {
        assert(first + second =~= first);
        assert(run_through(session, first).1 + Seq::<OutboundView>::empty() =~= run_through(
            session,
            first,
        ).1);
    } else {
        let all = first + second;
        assert(all.drop_last() =~= first + second.drop_last());
        assert(all.last() == second.last());
        lemma_run_through_joins(session, first, second.drop_last());
        let middle = run_through(session, first);
        let before = run_through(middle.0, second.drop_last());
        let step = before.0.next(second.last()).1;
        assert((middle.1 + before.1) + step.send =~= middle.1 + (before.1 + step.send));
    }
}

/// Within a batch the requests are answered in the order given: after the
/// worker has reported `results`, exactly the answers to the first requests
/// have been sent, each with its request's index and offset, and the
/// session is rendering the next request.
pub proof fn lemma_batch_in_order(
    session: SessionView,
    frames: Seq<FrameRequest>,
    results: Seq<Result<Seq<u8>, Seq<char>>>,
)
    requires
        frames.len() > 0,
        results.len() <= frames.len(),
    ensures
        run_through(in_batch(session, frames, 0), rendered(results)).0 == in_batch(
            session,
            frames,
            results.len() as int,
        ),
        run_through(in_batch(session, frames, 0), rendered(results)).1 == responses(
            frames,
            results,
        ),
    decreases results.len(),
{
    let start = in_batch(session, frames, 0);
    if results.len() == 0 {
        assert(rendered(results) =~= Seq::<SessionEventView>::empty());
    } else {
        let k = results.len() - 1;
        let front = results.drop_last();
        lemma_batch_in_order(session, frames, front);
        assert(rendered(results).drop_last() =~= rendered(front));
        assert(rendered(results).last() == SessionEventView::Rendered(results.last()));
        let before = in_batch(session, frames, k);
        let after = before.next(SessionEventView::Rendered(results.last()));
        if k + 1 < frames.len() {
            assert(before.queue[0] == frames[k + 1]);
            assert(before.queue.subrange(1, before.queue.len() as int) =~= frames.subrange(
                k + 2,
                frames.len() as int,
            ));
        } else {
            assert(before.queue =~= Seq::<FrameRequest>::empty());
        }
        assert(after.0 == in_batch(session, frames, k + 1));
    }
}

/// A batch sent to a session that serves a video and has nothing waiting is
/// answered request by request, in the order given, and then the session
/// listens again.
pub proof fn lemma_batch_is_answered_in_order(
    session: SessionView,
    text: Seq<char>,
    frames: Seq<FrameRequest>,
    results: Seq<Result<Seq<u8>, Seq<char>>>,
)
    requires
        session.stage is Listening,
        session.video is Some,
        session.queue.len() == 0,
        read_client(text) == Ok::<ClientMessageView, crate::protocol::ProtocolErrorView>(
            ClientMessageView::RequestFrames { frames },
        ),
        results.len() == frames.len(),
    ensures
        run_through(
            session,
            seq![SessionEventView::Received(InboundView::Text(text))] + rendered(results),
        ).1 == responses(frames, results),
        run_through(
            session,
            seq![SessionEventView::Received(InboundView::Text(text))] + rendered(results),
        ).0.stage is Listening,
        run_through(
            session,
            seq![SessionEventView::Received(InboundView::Text(text))] + rendered(results),
        ).0.video == session.video,
{
    let asked = seq![SessionEventView::Received(InboundView::Text(text))];
    lemma_run_through_joins(session, asked, rendered(results));
    assert(asked.drop_last() =~= Seq::<SessionEventView>::empty());
    assert(asked.last() == SessionEventView::Received(InboundView::Text(text)));
    assert(run_through(session, asked.drop_last()) == (session, Seq::<OutboundView>::empty()));
    let first = run_through(session, asked);
    let step = session.next(asked.last());
    assert(first.0 == step.0);
    assert(first.1 =~= step.1.send);
    assert(step == session.on_text(text));
    assert(session.queue + frames =~= frames);
    assert(Seq::<OutboundView>::empty() + Seq::<OutboundView>::empty() =~= Seq::<
        OutboundView,
    >::empty());
    if frames.len() == 0 {
        assert(rendered(results) =~= Seq::<SessionEventView>::empty());
        assert(first.0.queue =~= Seq::<FrameRequest>::empty());
    } else {
        let base = SessionView { queue: Seq::<FrameRequest>::empty(), ..session };
        assert(first.0 == in_batch(base, frames, 0));
        lemma_batch_in_order(base, frames, results);
        assert(first.1 + responses(frames, results) =~= responses(frames, results));
    }
}

/// Only a successful `SetVideo` changes the video served.
pub proof fn lemma_video_survives(session: SessionView, event: SessionEventView)
    ensures
        session.next(event).0.video != session.video ==> session.stage is Probing && event
            is Probed && decoder_of(event->Probed_0) is Ok,
        session.next(event).0.quality == session.quality,
{
}

// ---------------------------------------------------------------------------
// The session
// ---------------------------------------------------------------------------
/// The video a session serves.
#[derive(Debug)]
struct Video {
    path: String,
    data: Arc<Vec<u8>>,
    decoder: Decoder,
}

/// What a session waits for.
#[derive(Debug)]
enum Stage {
    Listening,
    Checking { path: String },
    Fetching { path: String },
    Probing { path: String, data: Arc<Vec<u8>> },
    Rendering { request: FrameRequest },
    Closed,
}

/// The state of one connection.
#[derive(Debug)]
pub struct Session {
    video: Option<Video>,
    encoder: JpegEncoder,
    frame_queue: VecDeque<FrameRequest>,
    stage: Stage,
}

impl View for Session {
    type V = SessionView;

    closed spec fn view(&self) -> SessionView {
        SessionView {
            video: match self.video {
                Some(video) => Some(
                    VideoView { path: video.path@, data: video.data@, decoder: video.decoder@ },
                ),
                None => None,
            },
            quality: self.encoder.quality_spec(),
            queue: self.frame_queue@,
            stage: match self.stage {
                Stage::Listening => StageView::Listening,
                Stage::Checking { path } => StageView::Checking { path: path@ },
                Stage::Fetching { path } => StageView::Fetching { path: path@ },
                Stage::Probing { path, data } => StageView::Probing { path: path@, data: data@ },
                Stage::Rendering { request } => StageView::Rendering { request },
                Stage::Closed => StageView::Closed,
            },
        }
    }
}

/// No frames.
fn send_nothing() -> (frames: Vec<Outbound>)
    ensures
        outbound_views(frames@) == Seq::<OutboundView>::empty(),
{
    let frames: Vec<Outbound> = Vec::new();
    proof {
        assert(outbound_views(frames@) =~= Seq::<OutboundView>::empty());
    }
    frames
}

/// One frame.
fn send_one(frame: Outbound) -> (frames: Vec<Outbound>)
    ensures
        outbound_views(frames@) == seq![frame@],
{
    let mut frames: Vec<Outbound> = Vec::new();
    frames.push(frame);
    proof {
        assert(outbound_views(frames@) =~= seq![frame@]);
    }
    frames
}

/// One error message.
fn send_error(text: String) -> (frames: Vec<Outbound>)
    ensures
        outbound_views(frames@) == error_reply(text@),
{
    send_one(Outbound::Text(ServerMessage::Error { message: text }))
}

impl ProcessResult {
    /// The frames that answer the request.
    pub fn respond(self) -> (frames: Vec<Outbound>)
        ensures
            outbound_views(frames@) == response(
                self.request,
                match self.result {
                    Ok(jpeg) => Ok(jpeg@),
                    Err(text) => Err(text@),
                },
            ),
    {
        let request = self.request;
        match self.result {
            Ok(jpeg) => {
                let size: u32 = #[verifier::truncate]
                (jpeg.len() as u32);
                let header = Outbound::Text(
                    ServerMessage::Frame { index: request.index, offset: request.offset, size },
                );
                let image = Outbound::Binary(jpeg);
                let mut frames: Vec<Outbound> = Vec::new();
                frames.push(header);
                frames.push(image);
                proof {
                    assert(outbound_views(frames@) =~= seq![header@, image@]);
                }
                frames
            },
            Err(text) => send_one(
                Outbound::Text(
                    ServerMessage::FrameError {
                        index: request.index,
                        offset: request.offset,
                        error: text,
                    },
                ),
            ),
        }
    }
}

impl Session {
    /// A session that serves no video yet, with the JPEG quality clamped
    /// into `1..=100`.
    pub fn new(jpeg_quality: u8) -> (made: Result<Self, EncodeError>)
        ensures
            made matches Ok(session) && session@ == SessionView::fresh(clamp_quality(jpeg_quality)),
    {
        match JpegEncoder::new(jpeg_quality) {
            Ok(encoder) => {
                let session = Session {
                    video: None,
                    encoder,
                    frame_queue: VecDeque::new(),
                    stage: Stage::Listening,
                };
                proof {
                    assert(session@.queue =~= Seq::<FrameRequest>::empty());
                }
                Ok(session)
            },
            Err(error) => Err(error),
        }
    }

    /// Path of the video served.
    pub fn video_path(&self) -> (path: Option<&String>)
        ensures
            match path {
                Some(text) => self@.video matches Some(video) && video.path == text@,
                None => self@.video is None,
            },
    {
        match &self.video {
            Some(video) => Some(&video.path),
            None => None,
        }
    }

    /// Bytes of the video served.
    pub fn video_data(&self) -> (data: Option<&Arc<Vec<u8>>>)
        ensures
            match data {
                Some(bytes) => self@.video matches Some(video) && video.data == bytes@,
                None => self@.video is None,
            },
    {
        match &self.video {
            Some(video) => Some(&video.data),
            None => None,
        }
    }

    /// Decoder of the video served.
    pub fn decoder(&self) -> (decoder: Option<&Decoder>)
        ensures
            match decoder {
                Some(found) => self@.video matches Some(video) && video.decoder == found@,
                None => self@.video is None,
            },
    {
        match &self.video {
            Some(video) => Some(&video.decoder),
            None => None,
        }
    }

    /// The encoder's settings.
    pub fn encoder(&self) -> (encoder: &JpegEncoder)
        ensures
            encoder.quality_spec() == self@.quality,
    {
        &self.encoder
    }

    /// The bytes fetched for a video that is being set, while they wait to be
    /// probed.
    pub fn pending_data(&self) -> (data: Option<&Arc<Vec<u8>>>)
        ensures
            match data {
                Some(bytes) => self@.stage matches StageView::Probing { data: pending, .. }
                    && pending == bytes@,
                None => !(self@.stage is Probing),
            },
    {
        match &self.stage {
            Stage::Probing { data, .. } => Some(data),
            _ => None,
        }
    }

    /// Makes `data`, found at `path` and probed, the video served. On
    /// success the waiting requests are dropped; on failure nothing changes.
    pub fn set_video(&mut self, path: String, data: Vec<u8>, probe: Probe) -> (set: Result<
        (),
        DecoderError,
    >)
        ensures
            match set {
                Ok(()) => decoder_of(probe@) matches Ok(decoder) && final(self)@ == (SessionView {
                    video: Some(VideoView { path: path@, data: data@, decoder }),
                    queue: Seq::<FrameRequest>::empty(),
                    ..old(self)@
                }),
                Err(error) => decoder_of(probe@) == Err::<DecoderView, _>(error@) && final(self)@
                    == old(self)@,
            },
    {
        match Decoder::new(probe) {
            Ok(decoder) => {
                self.video = Some(Video { path, data: Arc::new(data), decoder });
                self.frame_queue.clear();
                proof {
                    assert(final(self)@.queue =~= Seq::<FrameRequest>::empty());
                }
                Ok(())
            },
            Err(error) => Err(error),
        }
    }

    /// Adds requests to the queue, behind those waiting, in the order given.
    pub fn queue_frames(&mut self, frames: Vec<FrameRequest>)
        ensures
            final(self)@ == (SessionView { queue: old(self)@.queue + frames@, ..old(self)@ }),
    {
        let mut i: usize = 0;
        while i < frames.len()
            invariant
                0 <= i <= frames.len(),
                self@ == (SessionView {
                    queue: old(self)@.queue + frames@.subrange(0, i as int),
                    ..old(self)@
                }),
            decreases frames.len() - i,
        {
            self.frame_queue.push_back(frames[i]);
            proof {
                assert(self@.queue =~= old(self)@.queue + frames@.subrange(0, i as int + 1));
            }
            i = i + 1;
        }
        proof {
            assert(frames@.subrange(0, i as int) =~= frames@);
        }
    }

    /// Takes the oldest waiting request out of the queue.
    pub fn process_next(&mut self) -> (request: Option<FrameRequest>)
        ensures
            match request {
                Some(oldest) => old(self)@.queue.len() > 0 && oldest == old(self)@.queue[0]
                    && final(self)@ == (SessionView {
                    queue: old(self)@.queue.subrange(1, old(self)@.queue.len() as int),
                    ..old(self)@
                }),
                None => old(self)@.queue.len() == 0 && final(self)@ == old(self)@,
            },
    {
        self.frame_queue.pop_front()
    }

    /// Whether requests are waiting.
    pub fn has_pending_frames(&self) -> (pending: bool)
        ensures
            pending == (self@.queue.len() > 0),
    {
        self.frame_queue.len() > 0
    }

    /// Drops the waiting requests.
    pub fn clear_queue(&mut self)
        ensures
            final(self)@ == (SessionView { queue: Seq::<FrameRequest>::empty(), ..old(self)@ }),
    {
        self.frame_queue.clear();
        proof {
            assert(final(self)@.queue =~= Seq::<FrameRequest>::empty());
        }
    }

    /// Whether the session has closed.
    pub fn is_closed(&self) -> (closed: bool)
        ensures
            closed == (self@.stage is Closed),
    {
        match self.stage {
            Stage::Closed => true,
            _ => false,
        }
    }

    /// Goes back to listening and sends `send`.
    fn listen(&mut self, send: Vec<Outbound>) -> (step: Step)
        ensures
            (final(self)@, step@) == old(self)@.listen(outbound_views(send@)),
    {
        self.stage = Stage::Listening;
        Step { send, next: Command::Receive }
    }

    /// Closes the session.
    fn close(&mut self) -> (step: Step)
        ensures
            (final(self)@, step@) == old(self)@.close(),
    {
        self.stage = Stage::Closed;
        Step { send: send_nothing(), next: Command::Close }
    }

    /// Sends `send` and turns to the oldest waiting request.
    fn advance(&mut self, send: Vec<Outbound>) -> (step: Step)
        ensures
            (final(self)@, step@) == old(self)@.advance(outbound_views(send@)),
    {
        match self.frame_queue.pop_front() {
            None => self.listen(send),
            Some(request) => {
                let quality = self.encoder.quality();
                self.stage = Stage::Rendering { request };
                Step { send, next: Command::Render { request, quality } }
            },
        }
    }

    /// Handles a text frame received while listening.
    fn on_text(&mut self, text: String) -> (step: Step)
        ensures
            (final(self)@, step@) == old(self)@.on_text(text@),
    {
        match ClientMessage::from_json(text.as_str()) {
            Err(error) => {
                let mut message = "Invalid message: ".to_string();
                let detail = error.message();
                message.append(detail.as_str());
                self.listen(send_error(message))
            },
            Ok(ClientMessage::SetVideo { path }) => {
                let asked = path.clone();
                self.stage = Stage::Checking { path };
                Step { send: send_nothing(), next: Command::CheckExists { path: asked } }
            },
            Ok(ClientMessage::RequestFrames { frames }) => {
                if self.video.is_none() {
                    self.listen(send_error("No video set. Send SetVideo first.".to_string()))
                } else {
                    self.queue_frames(frames);
                    self.advance(send_nothing())
                }
            },
        }
    }

    /// Takes what the driver did and says what to send and what to do next.
    pub fn handle(&mut self, event: SessionEvent) -> (step: Step)
        ensures
            (final(self)@, step@) == old(self)@.next(event@),
    {
        if self.is_closed() {
            return self.close();
        }
        if let SessionEvent::SendFailed = event {
            return self.close();
        }
        let mut stage = Stage::Closed;
        std::mem::swap(&mut self.stage, &mut stage);
        match (stage, event) {
            (Stage::Listening, SessionEvent::Received(Inbound::Text(text))) => {
                self.stage = Stage::Listening;
                self.on_text(text)
            },
            (Stage::Listening, SessionEvent::Received(Inbound::Ping(payload))) => self.listen(
                send_one(Outbound::Pong(payload)),
            ),
            (Stage::Listening, SessionEvent::Received(Inbound::Pong(_))) => self.listen(
                send_nothing(),
            ),
            (Stage::Listening, SessionEvent::Received(Inbound::Binary(_))) => self.listen(
                send_nothing(),
            ),
            (Stage::Checking { path }, SessionEvent::Exists(Ok(found))) => {
                if found {
                    let asked = path.clone();
                    self.stage = Stage::Fetching { path };
                    Step { send: send_nothing(), next: Command::Fetch { path: asked } }
                } else {
                    self.listen(
                        send_one(Outbound::Text(ServerMessage::VideoSet { path, ok: false })),
                    )
                }
            },
            (Stage::Checking { .. }, SessionEvent::Exists(Err(text))) => self.listen(
                send_error(text),
            ),
            (Stage::Fetching { path }, SessionEvent::Fetched(Ok(data))) => {
                self.stage = Stage::Probing { path, data: Arc::new(data) };
                Step { send: send_nothing(), next: Command::ProbeVideo }
            },
            (Stage::Fetching { .. }, SessionEvent::Fetched(Err(text))) => self.listen(
                send_error(text),
            ),
            (Stage::Probing { path, data }, SessionEvent::Probed(probe)) => {
                match Decoder::new(probe) {
                    Ok(decoder) => {
                        let answer = Outbound::Text(
                            ServerMessage::VideoSet { path: path.clone(), ok: true },
                        );
                        self.video = Some(Video { path, data, decoder });
                        self.frame_queue.clear();
                        proof {
                            assert(self@.queue =~= Seq::<FrameRequest>::empty());
                        }
                        self.listen(send_one(answer))
                    },
                    Err(error) => self.listen(send_error(error.message())),
                }
            },
            (Stage::Rendering { request }, SessionEvent::Rendered(result)) => {
                let answer = ProcessResult { request, result }.respond();
                self.advance(answer)
            },
            (Stage::Rendering { request }, SessionEvent::WorkerLost) => {
                let answer = ProcessResult {
                    request,
                    result: Err("join failure".to_string()),
                }.respond();
                self.advance(answer)
            },
            _ => self.close(),
        }
    }
}

} // verus!
