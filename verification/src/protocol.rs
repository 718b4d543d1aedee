//! The text messages of the frame-serving connection: their shapes, their
//! JSON wire form and the decoding of received documents.
//!
//! Every message is a JSON object whose `type` member names the message. The
//! members are written in a fixed order, `type` first; a reader accepts them
//! in any order and ignores members it does not know.

use crate::json::{decimal, json_parse, json_quote, push_decimal, push_quoted, JsonModel, JsonValue};
use vstd::prelude::*;

verus! {

/// One requested frame.
#[derive(Debug, Clone, Copy, PartialEq, Eq, Structural)]
pub struct FrameRequest {
    /// Byte offset of the frame's packet in the video.
    pub offset: u64,
    /// Byte offset of the keyframe that decoding starts from.
    pub irap_offset: u64,
    /// Chosen by the client and echoed in the response.
    pub index: u32,
}

/// Messages a client sends.
#[derive(Debug, Clone, PartialEq, Eq)]
pub enum ClientMessage {
    /// Selects the video of the session.
    SetVideo { path: String },
    /// Asks for frames, to be answered in the order given.
    RequestFrames { frames: Vec<FrameRequest> },
}

/// Messages the server sends as text.
#[derive(Debug, Clone, PartialEq, Eq)]
pub enum ServerMessage {
    /// Answer to `SetVideo`.
    VideoSet { path: String, ok: bool },
    /// Header of one frame; the JPEG follows as the next binary frame.
    Frame { index: u32, offset: u64, size: u32 },
    /// One frame could not be produced; no binary frame follows.
    FrameError { index: u32, offset: u64, error: String },
    /// A request could not be understood or served.
    Error { message: String },
}

/// The mathematical value of a [`ClientMessage`].
pub enum ClientMessageView {
    SetVideo { path: Seq<char> },
    RequestFrames { frames: Seq<FrameRequest> },
}

/// The mathematical value of a [`ServerMessage`].
pub enum ServerMessageView {
    VideoSet { path: Seq<char>, ok: bool },
    Frame { index: u32, offset: u64, size: u32 },
    FrameError { index: u32, offset: u64, error: Seq<char> },
    Error { message: Seq<char> },
}

impl View for ClientMessage {
    type V = ClientMessageView;

    open spec fn view(&self) -> ClientMessageView {
        match self {
            ClientMessage::SetVideo { path } => ClientMessageView::SetVideo { path: path@ },
            ClientMessage::RequestFrames { frames } => ClientMessageView::RequestFrames {
                frames: frames@,
            },
        }
    }
}

impl View for ServerMessage {
    type V = ServerMessageView;

    open spec fn view(&self) -> ServerMessageView {
        match self {
            ServerMessage::VideoSet { path, ok } => ServerMessageView::VideoSet {
                path: path@,
                ok: *ok,
            },
            ServerMessage::Frame { index, offset, size } => ServerMessageView::Frame {
                index: *index,
                offset: *offset,
                size: *size,
            },
            ServerMessage::FrameError { index, offset, error } => ServerMessageView::FrameError {
                index: *index,
                offset: *offset,
                error: error@,
            },
            ServerMessage::Error { message } => ServerMessageView::Error { message: message@ },
        }
    }
}

/// The members that the wire formats name.
#[derive(Debug, Clone, Copy, PartialEq, Eq, Structural)]
pub enum Field {
    Type,
    Path,
    Frames,
    Offset,
    IrapOffset,
    Index,
    OkFlag,
    Size,
    Error,
    Message,
    VideoUrl,
}

impl Field {
    /// The member's key in a JSON object.
    pub open spec fn key(self) -> Seq<char> {
        match self {
            Field::Type => "type"@,
            Field::Path => "path"@,
            Field::Frames => "frames"@,
            Field::Offset => "offset"@,
            Field::IrapOffset => "irap_offset"@,
            Field::Index => "index"@,
            Field::OkFlag => "ok"@,
            Field::Size => "size"@,
            Field::Error => "error"@,
            Field::Message => "message"@,
            Field::VideoUrl => "video_url"@,
        }
    }

    /// The member's key in a JSON object.
    pub fn name(self) -> (name: &'static str)
        ensures
            name@ == self.key(),
    {
        match self {
            Field::Type => "type",
            Field::Path => "path",
            Field::Frames => "frames",
            Field::Offset => "offset",
            Field::IrapOffset => "irap_offset",
            Field::Index => "index",
            Field::OkFlag => "ok",
            Field::Size => "size",
            Field::Error => "error",
            Field::Message => "message",
            Field::VideoUrl => "video_url",
        }
    }
}

/// Why a received text is no message.
#[derive(Debug, Clone, PartialEq, Eq)]
pub enum ProtocolError {
    /// The text is not JSON; holds the reader's message.
    Syntax(String),
    /// The document, or an element that should be one, is not an object.
    NotAnObject,
    /// The object lacks a member.
    MissingField(Field),
    /// A member holds the wrong kind of value, or a number out of range.
    InvalidField(Field),
    /// The `type` member names no message of this direction.
    UnknownType(String),
}

/// The mathematical value of a [`ProtocolError`].
pub enum ProtocolErrorView {
    Syntax(Seq<char>),
    NotAnObject,
    MissingField(Field),
    InvalidField(Field),
    UnknownType(Seq<char>),
}

impl View for ProtocolError {
    type V = ProtocolErrorView;

    open spec fn view(&self) -> ProtocolErrorView {
        match self {
            ProtocolError::Syntax(text) => ProtocolErrorView::Syntax(text@),
            ProtocolError::NotAnObject => ProtocolErrorView::NotAnObject,
            ProtocolError::MissingField(field) => ProtocolErrorView::MissingField(*field),
            ProtocolError::InvalidField(field) => ProtocolErrorView::InvalidField(*field),
            ProtocolError::UnknownType(name) => ProtocolErrorView::UnknownType(name@),
        }
    }
}

impl ProtocolErrorView {
    /// The error in words.
    pub open spec fn text(self) -> Seq<char> {
        match self {
            ProtocolErrorView::Syntax(text) => text,
            ProtocolErrorView::NotAnObject => "expected a JSON object"@,
            ProtocolErrorView::MissingField(field) => "missing field `"@ + field.key() + "`"@,
            ProtocolErrorView::InvalidField(field) => "invalid value for field `"@ + field.key()
                + "`"@,
            ProtocolErrorView::UnknownType(name) => "unknown message type `"@ + name + "`"@,
        }
    }
}

impl ProtocolError {
    /// The error in words.
    pub fn message(&self) -> (text: String)
        ensures
            text@ == self@.text(),
    {
        match self {
            ProtocolError::Syntax(text) => text.clone(),
            ProtocolError::NotAnObject => "expected a JSON object".to_string(),
            ProtocolError::MissingField(field) => {
                let mut out = "missing field `".to_string();
                out.append(field.name());
                out.append("`");
                out
            },
            ProtocolError::InvalidField(field) => {
                let mut out = "invalid value for field `".to_string();
                out.append(field.name());
                out.append("`");
                out
            },
            ProtocolError::UnknownType(name) => {
                let mut out = "unknown message type `".to_string();
                out.append(name.as_str());
                out.append("`");
                out
            },
        }
    }
}

/// The outcome of decoding, with the message and the error by their views.
pub open spec fn outcome_view<T: View>(outcome: Result<T, ProtocolError>) -> Result<
    T::V,
    ProtocolErrorView,
> {
    match outcome {
        Ok(value) => Ok(value@),
        Err(error) => Err(error@),
    }
}

// ---------------------------------------------------------------------------
// Writing
// ---------------------------------------------------------------------------
/// The wire text of one frame request.
pub open spec fn request_text(request: FrameRequest) -> Seq<char> {
    "{\"offset\":"@ + decimal(request.offset as nat) + ",\"irap_offset\":"@ + decimal(
        request.irap_offset as nat,
    ) + ",\"index\":"@ + decimal(request.index as nat) + "}"@
}

/// The wire texts of frame requests, separated by commas.
pub open spec fn requests_text(requests: Seq<FrameRequest>) -> Seq<char>
    decreases requests.len(),
{
    if requests.len() == 0 {
        Seq::<char>::empty()
    } else if requests.len() == 1 {
        request_text(requests[0])
    } else {
        requests_text(requests.drop_last()) + ","@ + request_text(requests.last())
    }
}

impl ClientMessageView {
    /// The wire text of a client message.
    pub open spec fn wire_text(self) -> Seq<char> {
        match self {
            ClientMessageView::SetVideo { path } => "{\"type\":\"SetVideo\",\"path\":"@
                + json_quote(path) + "}"@,
            ClientMessageView::RequestFrames { frames } =>
                "{\"type\":\"RequestFrames\",\"frames\":["@ + requests_text(frames) + "]}"@,
        }
    }
}

impl ServerMessageView {
    /// The wire text of a server message.
    pub open spec fn wire_text(self) -> Seq<char> {
        match self {
            ServerMessageView::VideoSet { path, ok } => "{\"type\":\"VideoSet\",\"path\":"@
                + json_quote(path) + ",\"ok\":"@ + (if ok {
                "true"@
            } else {
                "false"@
            }) + "}"@,
            ServerMessageView::Frame { index, offset, size } => "{\"type\":\"Frame\",\"index\":"@
                + decimal(index as nat) + ",\"offset\":"@ + decimal(offset as nat) + ",\"size\":"@
                + decimal(size as nat) + "}"@,
            ServerMessageView::FrameError { index, offset, error } =>
                "{\"type\":\"FrameError\",\"index\":"@ + decimal(index as nat) + ",\"offset\":"@
                    + decimal(offset as nat) + ",\"error\":"@ + json_quote(error) + "}"@,
            ServerMessageView::Error { message } => "{\"type\":\"Error\",\"message\":"@
                + json_quote(message) + "}"@,
        }
    }
}

/// Appends the wire text of one frame request.
fn push_request(out: &mut String, request: &FrameRequest)
    ensures
        final(out)@ == old(out)@ + request_text(*request),
{
    out.append("{\"offset\":");
    push_decimal(out, request.offset);
    out.append(",\"irap_offset\":");
    push_decimal(out, request.irap_offset);
    out.append(",\"index\":");
    push_decimal(out, request.index as u64);
    out.append("}");
    proof {
        assert(final(out)@ =~= old(out)@ + request_text(*request));
    }
}

impl ClientMessage {
    /// Writes the message as JSON text.
    pub fn to_json(&self) -> (text: String)
        ensures
            text@ == self@.wire_text(),
    {
        match self {
            ClientMessage::SetVideo { path } => {
                let mut out = "{\"type\":\"SetVideo\",\"path\":".to_string();
                push_quoted(&mut out, path.as_str());
                out.append("}");
                proof {
                    assert(out@ =~= self@.wire_text());
                }
                out
            },
            ClientMessage::RequestFrames { frames } => {
                let ghost head = "{\"type\":\"RequestFrames\",\"frames\":["@;
                let mut out = "{\"type\":\"RequestFrames\",\"frames\":[".to_string();
                let mut i: usize = 0;
                while i < frames.len()
                    invariant
                        0 <= i <= frames.len(),
                        out@ == head + requests_text(frames@.subrange(0, i as int)),
                    decreases frames.len() - i,
                {
                    let ghost before = frames@.subrange(0, i as int);
                    let ghost after = frames@.subrange(0, i as int + 1);
                    proof {
                        assert(after.drop_last() =~= before);
                        assert(after.last() == frames@[i as int]);
                    }
                    if i > 0 {
                        out.append(",");
                    }
                    push_request(&mut out, &frames[i]);
                    proof {
                        assert(out@ =~= head + requests_text(after));
                    }
                    i = i + 1;
                }
                proof {
                    assert(frames@.subrange(0, i as int) =~= frames@);
                }
                out.append("]}");
                proof {
                    assert(out@ =~= self@.wire_text());
                }
                out
            },
        }
    }
}

impl ServerMessage {
    /// Writes the message as JSON text.
    pub fn to_json(&self) -> (text: String)
        ensures
            text@ == self@.wire_text(),
    {
        match self {
            ServerMessage::VideoSet { path, ok } => {
                let mut out = "{\"type\":\"VideoSet\",\"path\":".to_string();
                push_quoted(&mut out, path.as_str());
                out.append(",\"ok\":");
                if *ok {
                    out.append("true");
                } else {
                    out.append("false");
                }
                out.append("}");
                proof {
                    assert(out@ =~= self@.wire_text());
                }
                out
            },
            ServerMessage::Frame { index, offset, size } => {
                let mut out = "{\"type\":\"Frame\",\"index\":".to_string();
                push_decimal(&mut out, *index as u64);
                out.append(",\"offset\":");
                push_decimal(&mut out, *offset);
                out.append(",\"size\":");
                push_decimal(&mut out, *size as u64);
                out.append("}");
                proof {
                    assert(out@ =~= self@.wire_text());
                }
                out
            },
            ServerMessage::FrameError { index, offset, error } => {
                let mut out = "{\"type\":\"FrameError\",\"index\":".to_string();
                push_decimal(&mut out, *index as u64);
                out.append(",\"offset\":");
                push_decimal(&mut out, *offset);
                out.append(",\"error\":");
                push_quoted(&mut out, error.as_str());
                out.append("}");
                proof {
                    assert(out@ =~= self@.wire_text());
                }
                out
            },
            ServerMessage::Error { message } => {
                let mut out = "{\"type\":\"Error\",\"message\":".to_string();
                push_quoted(&mut out, message.as_str());
                out.append("}");
                proof {
                    assert(out@ =~= self@.wire_text());
                }
                out
            },
        }
    }
}

// ---------------------------------------------------------------------------
// Reading
// ---------------------------------------------------------------------------
/// The string under a member of an object.
pub open spec fn text_member(doc: JsonModel, field: Field) -> Result<Seq<char>, ProtocolErrorView> {
    match doc.member(field.key()) {
        None => Err(ProtocolErrorView::MissingField(field)),
        Some(value) => match value.as_text() {
            None => Err(ProtocolErrorView::InvalidField(field)),
            Some(text) => Ok(text),
        },
    }
}

/// The truth value under a member of an object.
pub open spec fn bool_member(doc: JsonModel, field: Field) -> Result<bool, ProtocolErrorView> {
    match doc.member(field.key()) {
        None => Err(ProtocolErrorView::MissingField(field)),
        Some(value) => match value.as_bool() {
            None => Err(ProtocolErrorView::InvalidField(field)),
            Some(flag) => Ok(flag),
        },
    }
}

/// The integer under a member of an object; it must not exceed `max`.
pub open spec fn unsigned_member(doc: JsonModel, field: Field, max: u64) -> Result<
    u64,
    ProtocolErrorView,
> {
    match doc.member(field.key()) {
        None => Err(ProtocolErrorView::MissingField(field)),
        Some(value) => match value.as_unsigned() {
            None => Err(ProtocolErrorView::InvalidField(field)),
            Some(number) => if number <= max {
                Ok(number)
            } else {
                Err(ProtocolErrorView::InvalidField(field))
            },
        },
    }
}

/// The array under a member of an object.
pub open spec fn array_member(doc: JsonModel, field: Field) -> Result<
    Seq<JsonModel>,
    ProtocolErrorView,
> {
    match doc.member(field.key()) {
        None => Err(ProtocolErrorView::MissingField(field)),
        Some(value) => match value.as_array() {
            None => Err(ProtocolErrorView::InvalidField(field)),
            Some(items) => Ok(items),
        },
    }
}

/// One frame request read from a document: an object with the members
/// `offset`, `irap_offset` and `index`, read in that order.
pub open spec fn decode_request(doc: JsonModel) -> Result<FrameRequest, ProtocolErrorView> {
    if !(doc is Object) {
        Err(ProtocolErrorView::NotAnObject)
    } else {
        match unsigned_member(doc, Field::Offset, u64::MAX) {
            Err(error) => Err(error),
            Ok(offset) => match unsigned_member(doc, Field::IrapOffset, u64::MAX) {
                Err(error) => Err(error),
                Ok(irap_offset) => match unsigned_member(doc, Field::Index, u32::MAX as u64) {
                    Err(error) => Err(error),
                    Ok(index) => Ok(FrameRequest { offset, irap_offset, index: index as u32 }),
                },
            },
        }
    }
}

/// The frame requests read from the elements of an array, in order; the
/// error of the first element that is no frame request.
pub open spec fn decode_requests(items: Seq<JsonModel>) -> Result<
    Seq<FrameRequest>,
    ProtocolErrorView,
>
    decreases items.len(),
{
    if items.len() == 0 {
        Ok(Seq::<FrameRequest>::empty())
    } else {
        match decode_requests(items.drop_last()) {
            Err(error) => Err(error),
            Ok(front) => match decode_request(items.last()) {
                Err(error) => Err(error),
                Ok(request) => Ok(front.push(request)),
            },
        }
    }
}

/// The client message a document holds.
pub open spec fn decode_client(doc: JsonModel) -> Result<ClientMessageView, ProtocolErrorView> {
    if !(doc is Object) {
        Err(ProtocolErrorView::NotAnObject)
    } else {
        match text_member(doc, Field::Type) {
            Err(error) => Err(error),
            Ok(kind) => if kind == "SetVideo"@ {
                match text_member(doc, Field::Path) {
                    Err(error) => Err(error),
                    Ok(path) => Ok(ClientMessageView::SetVideo { path }),
                }
            } else if kind == "RequestFrames"@ {
                match array_member(doc, Field::Frames) {
                    Err(error) => Err(error),
                    Ok(items) => match decode_requests(items) {
                        Err(error) => Err(error),
                        Ok(frames) => Ok(ClientMessageView::RequestFrames { frames }),
                    },
                }
            } else {
                Err(ProtocolErrorView::UnknownType(kind))
            },
        }
    }
}

/// The server message a document holds.
pub open spec fn decode_server(doc: JsonModel) -> Result<ServerMessageView, ProtocolErrorView> {
    if !(doc is Object) {
        Err(ProtocolErrorView::NotAnObject)
    } else {
        match text_member(doc, Field::Type) {
            Err(error) => Err(error),
            Ok(kind) => if kind == "VideoSet"@ {
                match text_member(doc, Field::Path) {
                    Err(error) => Err(error),
                    Ok(path) => match bool_member(doc, Field::OkFlag) {
                        Err(error) => Err(error),
                        Ok(ok) => Ok(ServerMessageView::VideoSet { path, ok }),
                    },
                }
            } else if kind == "Frame"@ {
                match unsigned_member(doc, Field::Index, u32::MAX as u64) {
                    Err(error) => Err(error),
                    Ok(index) => match unsigned_member(doc, Field::Offset, u64::MAX) {
                        Err(error) => Err(error),
                        Ok(offset) => match unsigned_member(doc, Field::Size, u32::MAX as u64) {
                            Err(error) => Err(error),
                            Ok(size) => Ok(
                                ServerMessageView::Frame {
                                    index: index as u32,
                                    offset,
                                    size: size as u32,
                                },
                            ),
                        },
                    },
                }
            } else if kind == "FrameError"@ {
                match unsigned_member(doc, Field::Index, u32::MAX as u64) {
                    Err(error) => Err(error),
                    Ok(index) => match unsigned_member(doc, Field::Offset, u64::MAX) {
                        Err(error) => Err(error),
                        Ok(offset) => match text_member(doc, Field::Error) {
                            Err(error) => Err(error),
                            Ok(text) => Ok(
                                ServerMessageView::FrameError {
                                    index: index as u32,
                                    offset,
                                    error: text,
                                },
                            ),
                        },
                    },
                }
            } else if kind == "Error"@ {
                match text_member(doc, Field::Message) {
                    Err(error) => Err(error),
                    Ok(message) => Ok(ServerMessageView::Error { message }),
                }
            } else {
                Err(ProtocolErrorView::UnknownType(kind))
            },
        }
    }
}

/// What a received text means: the message its document holds, a syntax
/// error where the text is not JSON.
pub open spec fn read_client(text: Seq<char>) -> Result<ClientMessageView, ProtocolErrorView> {
    match json_parse(text) {
        Err(message) => Err(ProtocolErrorView::Syntax(message)),
        Ok(doc) => decode_client(doc),
    }
}

/// What a received text means: the message its document holds, a syntax
/// error where the text is not JSON.
pub open spec fn read_server(text: Seq<char>) -> Result<ServerMessageView, ProtocolErrorView> {
    match json_parse(text) {
        Err(message) => Err(ProtocolErrorView::Syntax(message)),
        Ok(doc) => decode_server(doc),
    }
}

/// The string under a member of an object.
pub fn get_text(doc: &JsonValue, field: Field) -> (outcome: Result<String, ProtocolError>)
    ensures
        outcome_view(outcome) == text_member(doc@, field),
{
    match doc.member(field.name()) {
        None => Err(ProtocolError::MissingField(field)),
        Some(value) => match value.as_text() {
            None => Err(ProtocolError::InvalidField(field)),
            Some(text) => Ok(text.clone()),
        },
    }
}

/// The truth value under a member of an object.
pub fn get_bool(doc: &JsonValue, field: Field) -> (outcome: Result<bool, ProtocolError>)
    ensures
        match outcome {
            Ok(flag) => bool_member(doc@, field) == Ok::<bool, ProtocolErrorView>(flag),
            Err(error) => bool_member(doc@, field) == Err::<bool, ProtocolErrorView>(error@),
        },
{
    match doc.member(field.name()) {
        None => Err(ProtocolError::MissingField(field)),
        Some(value) => match value.as_bool() {
            None => Err(ProtocolError::InvalidField(field)),
            Some(flag) => Ok(flag),
        },
    }
}

/// The integer under a member of an object; it must not exceed `max`.
pub fn get_unsigned(doc: &JsonValue, field: Field, max: u64) -> (outcome: Result<
    u64,
    ProtocolError,
>)
    ensures
        match outcome {
            Ok(number) => unsigned_member(doc@, field, max) == Ok::<u64, ProtocolErrorView>(
                number,
            ),
            Err(error) => unsigned_member(doc@, field, max) == Err::<u64, ProtocolErrorView>(
                error@,
            ),
        },
{
    match doc.member(field.name()) {
        None => Err(ProtocolError::MissingField(field)),
        Some(value) => match value.as_unsigned() {
            None => Err(ProtocolError::InvalidField(field)),
            Some(number) => if number <= max {
                Ok(number)
            } else {
                Err(ProtocolError::InvalidField(field))
            },
        },
    }
}

/// Whether two texts hold the same characters.
fn same_text(left: &str, right: &str) -> (same: bool)
    ensures
        same == (left@ == right@),
{
    left.to_string() == right.to_string()
}

/// Whether a document is an object.
pub fn is_object(doc: &JsonValue) -> (yes: bool)
    ensures
        yes == (doc@ is Object),
{
    match doc {
        JsonValue::Object(_) => true,
        _ => false,
    }
}

impl FrameRequest {
    /// Reads one frame request from a document.
    pub fn from_value(doc: &JsonValue) -> (outcome: Result<FrameRequest, ProtocolError>)
        ensures
            match outcome {
                Ok(request) => decode_request(doc@) == Ok::<FrameRequest, ProtocolErrorView>(
                    request,
                ),
                Err(error) => decode_request(doc@) == Err::<FrameRequest, ProtocolErrorView>(
                    error@,
                ),
            },
    {
        if !is_object(doc) {
            return Err(ProtocolError::NotAnObject);
        }
        let offset = match get_unsigned(doc, Field::Offset, u64::MAX) {
            Ok(number) => number,
            Err(error) => {
                return Err(error);
            },
        };
        let irap_offset = match get_unsigned(doc, Field::IrapOffset, u64::MAX) {
            Ok(number) => number,
            Err(error) => {
                return Err(error);
            },
        };
        let index = match get_unsigned(doc, Field::Index, 0xffff_ffff) {
            Ok(number) => number,
            Err(error) => {
                return Err(error);
            },
        };
        Ok(FrameRequest { offset, irap_offset, index: index as u32 })
    }

    /// Reads the frame requests that the elements of an array hold.
    pub fn list_from_values(items: &Vec<JsonValue>) -> (outcome: Result<
        Vec<FrameRequest>,
        ProtocolError,
    >)
        ensures
            match outcome {
                Ok(requests) => decode_requests(item_models(items@)) == Ok::<
                    Seq<FrameRequest>,
                    ProtocolErrorView,
                >(requests@),
                Err(error) => decode_requests(item_models(items@)) == Err::<
                    Seq<FrameRequest>,
                    ProtocolErrorView,
                >(error@),
            },
    {
        let ghost models = item_models(items@);
        let mut requests: Vec<FrameRequest> = Vec::new();
        let mut i: usize = 0;
        while i < items.len()
            invariant
                0 <= i <= items.len(),
                models == item_models(items@),
                decode_requests(models.subrange(0, i as int)) == Ok::<
                    Seq<FrameRequest>,
                    ProtocolErrorView,
                >(requests@),
            decreases items.len() - i,
        {
            let ghost next = models.subrange(0, i as int + 1);
            proof {
                assert(next.drop_last() =~= models.subrange(0, i as int));
                assert(next.last() == items@[i as int]@);
            }
            match FrameRequest::from_value(&items[i]) {
                Ok(request) => {
                    requests.push(request);
                },
                Err(error) => {
                    proof {
                        lemma_decode_requests_prefix_error(models, i as int + 1);
                    }
                    return Err(error);
                },
            }
            i = i + 1;
        }
        proof {
            assert(models.subrange(0, i as int) =~= models);
        }
        Ok(requests)
    }
}

/// The values of the documents in a list, in order.
pub open spec fn item_models(items: Seq<JsonValue>) -> Seq<JsonModel> {
    Seq::new(items.len(), |i: int| items[i]@)
}

/// Once a prefix of the elements fails to decode, the whole array fails with
/// the same error.
pub proof fn lemma_decode_requests_prefix_error(items: Seq<JsonModel>, n: int)
    requires
        0 <= n <= items.len(),
        decode_requests(items.subrange(0, n)) is Err,
    ensures
        decode_requests(items) == decode_requests(items.subrange(0, n)),
    decreases items.len() - n,
{
    if n == items.len() {
        assert(items.subrange(0, n) =~= items);
    } else {
        let next = items.subrange(0, n + 1);
        assert(next.drop_last() =~= items.subrange(0, n));
        lemma_decode_requests_prefix_error(items, n + 1);
    }
}

/// An array of requests decodes exactly when each element does, and then
/// element by element.
pub proof fn lemma_decode_requests_pointwise(items: Seq<JsonModel>)
    ensures
        decode_requests(items) is Ok <==> forall|i: int|
            0 <= i < items.len() ==> #[trigger] decode_request(items[i]) is Ok,
        decode_requests(items) matches Ok(requests) ==> requests.len() == items.len()
            && forall|i: int|
            0 <= i < items.len() ==> decode_request(#[trigger] items[i]) == Ok::<
                FrameRequest,
                ProtocolErrorView,
            >(requests[i]),
    decreases items.len(),
{
    if items.len() > 0 {
        let front = items.drop_last();
        lemma_decode_requests_pointwise(front);
        if decode_requests(items) is Ok {
            assert forall|i: int| 0 <= i < items.len() implies #[trigger] decode_request(
                items[i],
            ) is Ok by {
                if i < front.len() {
                    assert(items[i] == front[i]);
                }
            }
        }
        if forall|i: int| 0 <= i < items.len() ==> #[trigger] decode_request(items[i]) is Ok {
            assert forall|i: int| 0 <= i < front.len() implies #[trigger] decode_request(
                front[i],
            ) is Ok by {
                assert(front[i] == items[i]);
            }
            assert(decode_request(items[items.len() - 1]) is Ok);
        }
        if let Ok(requests) = decode_requests(items) {
            let head = decode_requests(front)->Ok_0;
            assert forall|i: int| 0 <= i < items.len() implies decode_request(
                #[trigger] items[i],
            ) == Ok::<FrameRequest, ProtocolErrorView>(requests[i]) by {
                if i < front.len() {
                    assert(items[i] == front[i]);
                    assert(requests[i] == head[i]);
                }
            }
        }
    }
}

impl ClientMessage {
    /// Reads the message that a document holds.
    pub fn from_value(doc: &JsonValue) -> (outcome: Result<ClientMessage, ProtocolError>)
        ensures
            outcome_view(outcome) == decode_client(doc@),
    {
        if !is_object(doc) {
            return Err(ProtocolError::NotAnObject);
        }
        let kind = match get_text(doc, Field::Type) {
            Ok(text) => text,
            Err(error) => {
                return Err(error);
            },
        };
        if same_text(kind.as_str(), "SetVideo") {
            match get_text(doc, Field::Path) {
                Ok(path) => Ok(ClientMessage::SetVideo { path }),
                Err(error) => Err(error),
            }
        } else if same_text(kind.as_str(), "RequestFrames") {
            match doc.member(Field::Frames.name()) {
                None => Err(ProtocolError::MissingField(Field::Frames)),
                Some(value) => match value.as_array() {
                    None => Err(ProtocolError::InvalidField(Field::Frames)),
                    Some(items) => {
                        proof {
                            assert(item_models(items@) =~= value@.as_array()->Some_0);
                        }
                        match FrameRequest::list_from_values(items) {
                            Ok(frames) => Ok(ClientMessage::RequestFrames { frames }),
                            Err(error) => Err(error),
                        }
                    },
                },
            }
        } else {
            Err(ProtocolError::UnknownType(kind))
        }
    }

    /// Reads a message from JSON text.
    pub fn from_json(json: &str) -> (outcome: Result<ClientMessage, ProtocolError>)
        ensures
            outcome_view(outcome) == read_client(json@),
    {
        match JsonValue::parse(json) {
            Err(message) => Err(ProtocolError::Syntax(message)),
            Ok(doc) => ClientMessage::from_value(&doc),
        }
    }
}

impl ServerMessage {
    /// Reads the message that a document holds.
    pub fn from_value(doc: &JsonValue) -> (outcome: Result<ServerMessage, ProtocolError>)
        ensures
            outcome_view(outcome) == decode_server(doc@),
    {
        if !is_object(doc) {
            return Err(ProtocolError::NotAnObject);
        }
        let kind = match get_text(doc, Field::Type) {
            Ok(text) => text,
            Err(error) => {
                return Err(error);
            },
        };
        if same_text(kind.as_str(), "VideoSet") {
            let path = match get_text(doc, Field::Path) {
                Ok(text) => text,
                Err(error) => {
                    return Err(error);
                },
            };
            match get_bool(doc, Field::OkFlag) {
                Ok(ok) => Ok(ServerMessage::VideoSet { path, ok }),
                Err(error) => Err(error),
            }
        } else if same_text(kind.as_str(), "Frame") {
            let index = match get_unsigned(doc, Field::Index, 0xffff_ffff) {
                Ok(number) => number,
                Err(error) => {
                    return Err(error);
                },
            };
            let offset = match get_unsigned(doc, Field::Offset, u64::MAX) {
                Ok(number) => number,
                Err(error) => {
                    return Err(error);
                },
            };
            match get_unsigned(doc, Field::Size, 0xffff_ffff) {
                Ok(size) => Ok(
                    ServerMessage::Frame { index: index as u32, offset, size: size as u32 },
                ),
                Err(error) => Err(error),
            }
        } else if same_text(kind.as_str(), "FrameError") {
            let index = match get_unsigned(doc, Field::Index, 0xffff_ffff) {
                Ok(number) => number,
                Err(error) => {
                    return Err(error);
                },
            };
            let offset = match get_unsigned(doc, Field::Offset, u64::MAX) {
                Ok(number) => number,
                Err(error) => {
                    return Err(error);
                },
            };
            match get_text(doc, Field::Error) {
                Ok(error) => Ok(ServerMessage::FrameError { index: index as u32, offset, error }),
                Err(error) => Err(error),
            }
        } else if same_text(kind.as_str(), "Error") {
            match get_text(doc, Field::Message) {
                Ok(message) => Ok(ServerMessage::Error { message }),
                Err(error) => Err(error),
            }
        } else {
            Err(ProtocolError::UnknownType(kind))
        }
    }

    /// Reads a message from JSON text.
    pub fn from_json(json: &str) -> (outcome: Result<ServerMessage, ProtocolError>)
        ensures
            outcome_view(outcome) == read_server(json@),
    {
        match JsonValue::parse(json) {
            Err(message) => Err(ProtocolError::Syntax(message)),
            Ok(doc) => ServerMessage::from_value(&doc),
        }
    }
}

} // verus!
