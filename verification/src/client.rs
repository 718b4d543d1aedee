//! The client side of the connection: what a client makes of the server's
//! answers while it waits for the frames of a batch.
//!
//! A client keeps the headers it has received in a queue. Every binary frame
//! is the image of the oldest header in the queue.

use crate::json::{decimal, push_decimal};
use crate::protocol::{ServerMessage, ServerMessageView};
use std::collections::VecDeque;
use vstd::prelude::*;

verus! {

/// What the first answer to `SetVideo` means: nothing to complain about, or
/// the reason to give up.
pub open spec fn video_set_check(reply: ServerMessageView) -> Result<(), Seq<char>> {
    match reply {
        ServerMessageView::VideoSet { path, ok } => if ok {
            Ok(())
        } else {
            Err("Video not found: "@ + path)
        },
        ServerMessageView::Error { message } => Err("Server error: "@ + message),
        _ => Err("Unexpected response to SetVideo"@),
    }
}

/// Checks the answer to `SetVideo`.
pub fn check_video_set(reply: &ServerMessage) -> (outcome: Result<(), String>)
    ensures
        match outcome {
            Ok(()) => video_set_check(reply@) == Ok::<(), Seq<char>>(()),
            Err(text) => video_set_check(reply@) == Err::<(), Seq<char>>(text@),
        },
{
    match reply {
        ServerMessage::VideoSet { path, ok } => {
            if *ok {
                Ok(())
            } else {
                let mut text = "Video not found: ".to_string();
                text.append(path.as_str());
                Err(text)
            }
        },
        ServerMessage::Error { message } => {
            let mut text = "Server error: ".to_string();
            text.append(message.as_str());
            Err(text)
        },
        _ => Err("Unexpected response to SetVideo".to_string()),
    }
}

/// What a client does after a frame from the server.
#[derive(Debug, Clone, PartialEq, Eq)]
pub enum ClientAction {
    /// Nothing; wait for the next frame.
    Continue,
    /// The binary frame is the image of this request; store it.
    Save { index: u32, offset: u64 },
    /// The server could not produce this frame.
    Report { index: u32, offset: u64, error: String },
    /// Give up with this message.
    Fail(String),
}

/// The mathematical value of a [`ClientAction`].
pub enum ClientActionView {
    Continue,
    Save { index: u32, offset: u64 },
    Report { index: u32, offset: u64, error: Seq<char> },
    Fail(Seq<char>),
}

impl View for ClientAction {
    type V = ClientActionView;

    open spec fn view(&self) -> ClientActionView {
        match self {
            ClientAction::Continue => ClientActionView::Continue,
            ClientAction::Save { index, offset } => ClientActionView::Save {
                index: *index,
                offset: *offset,
            },
            ClientAction::Report { index, offset, error } => ClientActionView::Report {
                index: *index,
                offset: *offset,
                error: error@,
            },
            ClientAction::Fail(text) => ClientActionView::Fail(text@),
        }
    }
}

/// How far a client has come with its requests.
#[derive(Debug)]
pub struct Progress {
    /// Requests of the current batch that are not answered yet.
    pub pending: usize,
    /// Index and offset of the headers whose image has not arrived, oldest
    /// first.
    pub awaiting: VecDeque<(u32, u64)>,
    /// Images received.
    pub received: u32,
    /// Frame errors received.
    pub errored: u32,
    /// Sum of the sizes that the headers announced.
    pub total_bytes: u64,
}

/// The mathematical value of [`Progress`].
pub struct ProgressView {
    pub pending: usize,
    pub awaiting: Seq<(u32, u64)>,
    pub received: u32,
    pub errored: u32,
    pub total_bytes: u64,
}

impl View for Progress {
    type V = ProgressView;

    open spec fn view(&self) -> ProgressView {
        ProgressView {
            pending: self.pending,
            awaiting: self.awaiting@,
            received: self.received,
            errored: self.errored,
            total_bytes: self.total_bytes,
        }
    }
}

/// One more, but no more than the largest 32-bit number.
pub open spec fn one_more(n: u32) -> u32 {
    if n < u32::MAX {
        (n + 1) as u32
    } else {
        n
    }
}

/// One less, but not less than zero.
pub open spec fn one_less(n: usize) -> usize {
    if n > 0 {
        (n - 1) as usize
    } else {
        n
    }
}

/// The sum, but no more than the largest 64-bit number.
pub open spec fn capped_sum(total: u64, size: u32) -> u64 {
    if total + size <= u64::MAX {
        (total + size) as u64
    } else {
        u64::MAX
    }
}

impl ProgressView {
    /// The state after a text frame, and what to do.
    ///
    /// A header joins the queue and its size is added to the bytes expected.
    /// A frame error answers one request. An error of the server makes the
    /// client give up. Anything else is ignored.
    pub open spec fn after_text(self, message: ServerMessageView) -> (
        ProgressView,
        ClientActionView,
    ) {
        match message {
            ServerMessageView::Frame { index, offset, size } => (
                ProgressView {
                    awaiting: self.awaiting.push((index, offset)),
                    total_bytes: capped_sum(self.total_bytes, size),
                    ..self
                },
                ClientActionView::Continue,
            ),
            ServerMessageView::FrameError { index, offset, error } => (
                ProgressView {
                    errored: one_more(self.errored),
                    pending: one_less(self.pending),
                    ..self
                },
                ClientActionView::Report { index, offset, error },
            ),
            ServerMessageView::Error { message } => (
                self,
                ClientActionView::Fail("Server error: "@ + message),
            ),
            ServerMessageView::VideoSet { .. } => (self, ClientActionView::Continue),
        }
    }

    /// The state after a binary frame, and what to do: the frame is the image
    /// of the oldest header in the queue and answers one request. Without a
    /// header it is ignored.
    pub open spec fn after_binary(self) -> (ProgressView, ClientActionView) {
        if self.awaiting.len() == 0 {
            (self, ClientActionView::Continue)
        } else {
            (
                ProgressView {
                    awaiting: self.awaiting.subrange(1, self.awaiting.len() as int),
                    received: one_more(self.received),
                    pending: one_less(self.pending),
                    ..self
                },
                ClientActionView::Save { index: self.awaiting[0].0, offset: self.awaiting[0].1 },
            )
        }
    }
}

impl Progress {
    /// A client that has asked for nothing yet.
    pub fn new() -> (progress: Progress)
        ensures
            progress@ == (ProgressView {
                pending: 0,
                awaiting: Seq::<(u32, u64)>::empty(),
                received: 0,
                errored: 0,
                total_bytes: 0,
            }),
    {
        Progress {
            pending: 0,
            awaiting: VecDeque::new(),
            received: 0,
            errored: 0,
            total_bytes: 0,
        }
    }

    /// Starts a batch of `requests` requests. Headers left over from the
    /// batch before are forgotten.
    pub fn start_batch(&mut self, requests: usize)
        ensures
            final(self)@ == (ProgressView {
                pending: requests,
                awaiting: Seq::<(u32, u64)>::empty(),
                ..old(self)@
            }),
    {
        self.pending = requests;
        self.awaiting.clear();
    }

    /// Whether the batch has been answered in full.
    pub fn batch_done(&self) -> (done: bool)
        ensures
            done == (self@.pending == 0),
    {
        self.pending == 0
    }

    /// Takes a text frame.
    pub fn on_text(&mut self, message: ServerMessage) -> (action: ClientAction)
        ensures
            (final(self)@, action@) == old(self)@.after_text(message@),
    {
        match message {
            ServerMessage::Frame { index, offset, size } => {
                self.awaiting.push_back((index, offset));
                self.total_bytes = if (size as u64) <= u64::MAX - self.total_bytes {
                    self.total_bytes + size as u64
                } else {
                    u64::MAX
                };
                ClientAction::Continue
            },
            ServerMessage::FrameError { index, offset, error } => {
                if self.errored < u32::MAX {
                    self.errored = self.errored + 1;
                }
                if self.pending > 0 {
                    self.pending = self.pending - 1;
                }
                ClientAction::Report { index, offset, error }
            },
            ServerMessage::Error { message } => {
                let mut text = "Server error: ".to_string();
                text.append(message.as_str());
                ClientAction::Fail(text)
            },
            ServerMessage::VideoSet { .. } => ClientAction::Continue,
        }
    }

    /// Takes a binary frame.
    pub fn on_binary(&mut self) -> (action: ClientAction)
        ensures
            (final(self)@, action@) == old(self)@.after_binary(),
    {
        match self.awaiting.pop_front() {
            None => ClientAction::Continue,
            Some((index, offset)) => {
                if self.received < u32::MAX {
                    self.received = self.received + 1;
                }
                if self.pending > 0 {
                    self.pending = self.pending - 1;
                }
                ClientAction::Save { index, offset }
            },
        }
    }
}

/// Images are matched to headers in the order in which the headers arrived:
/// after a header and so many binary frames as headers were waiting before
/// it, the next binary frame is saved under that header's index and offset.
pub proof fn lemma_images_follow_headers(progress: ProgressView, index: u32, offset: u64, size: u32)
    requires
        progress.awaiting.len() == 0,
    ensures
        progress.after_text(ServerMessageView::Frame { index, offset, size }).0.after_binary().1
            == (ClientActionView::Save { index, offset }),
        progress.after_text(
            ServerMessageView::Frame { index, offset, size },
        ).0.after_binary().0.awaiting.len() == 0,
{
}

/// `count` zeros.
pub open spec fn zeros(count: int) -> Seq<char> {
    Seq::new(
        if count > 0 {
            count as nat
        } else {
            0
        },
        |i: int| '0',
    )
}

/// The decimal digits of `n`, with zeros in front where there are fewer than
/// six.
pub open spec fn padded6(n: nat) -> Seq<char> {
    zeros(6 - decimal(n).len()) + decimal(n)
}

/// The name of the file that holds the image of a frame.
pub open spec fn file_name_of(index: u32, offset: u64) -> Seq<char> {
    "frame_"@ + padded6(index as nat) + "_"@ + decimal(offset as nat) + ".jpg"@
}

/// The name of the file that holds the image of a frame: `frame_`, the index
/// in at least six digits, `_`, the offset, and `.jpg`.
pub fn frame_file_name(index: u32, offset: u64) -> (name: String)
    ensures
        name@ == file_name_of(index, offset),
{
    let mut digits = String::new();
    push_decimal(&mut digits, index as u64);
    proof {
        assert(digits@ =~= decimal(index as nat));
    }
    let width: usize = digits.as_str().unicode_len();
    let mut name = "frame_".to_string();
    let ghost head = name@;
    let mut written: usize = width;
    while written < 6
        invariant
            width <= written,
            width < 6 ==> written <= 6,
            width >= 6 ==> written == width,
            width == decimal(index as nat).len(),
            name@ == head + zeros(written - width),
        decreases 6 - written,
    {
        name.push('0');
        proof {
            assert(name@ =~= head + zeros(written + 1 - width));
        }
        written = written + 1;
    }
    name.append(digits.as_str());
    name.append("_");
    push_decimal(&mut name, offset);
    name.append(".jpg");
    proof {
        assert(zeros(written - width) =~= zeros(6 - decimal(index as nat).len()));
        assert(name@ =~= file_name_of(index, offset));
    }
    name
}

} // verus!
