//! Frames on the app-server's pipes: what each incoming line means, and how a line is written.

use vstd::prelude::*;
use vstd::string::*;
use vstd::utf8::*;
use crate::error::{outcome, HarnessError, HarnessErrorView};
use crate::json::{at, member, opt_json, opt_text, print, printed, Json, JsonView};
use crate::protocol::{
    as_received, check_notification, decode_envelope, decode_request, decoding, envelope_of, id_json, id_text, lossy,
    lossy_text, notification_fault, quote, quoted, request_of, Envelope, EnvelopeView, RequestBody, RequestBodyView, RpcId,
    RpcIdView, ServerMessage, ServerMessageView, ServerRequest, ServerRequestView,
};
use crate::text::{
    blank, bounded_utf8_preview, chars_of, decimal, first_visible, first_visible_char, is_blank, lemma_first_visible, preview,
    push_decimal, push_signed, same, signed_decimal, trim_line_ending, whitespace, without_line_ending,
};

verus! {

/// The longest frame that is accepted, line ending included.
pub const CODEX_MAX_FRAME_BYTES: usize = 67_108_864;

/// What the reader puts into the inbox.
#[derive(Debug)]
pub enum InboxItem {
    Message(ServerMessage),
    NonJson { parse_error: String, raw_preview: String, raw_bytes: usize },
    Fatal(String),
    Eof,
}

pub enum InboxItemView {
    Message(ServerMessageView),
    NonJson { parse_error: Seq<char>, raw_preview: Seq<char>, raw_bytes: nat },
    Fatal(Seq<char>),
    Eof,
}

impl View for InboxItem {
    type V = InboxItemView;

    open spec fn view(&self) -> InboxItemView {
        match self {
            InboxItem::Message(message) => InboxItemView::Message(message@),
            InboxItem::NonJson { parse_error, raw_preview, raw_bytes } => InboxItemView::NonJson {
                parse_error: parse_error@,
                raw_preview: raw_preview@,
                raw_bytes: *raw_bytes as nat,
            },
            InboxItem::Fatal(message) => InboxItemView::Fatal(message@),
            InboxItem::Eof => InboxItemView::Eof,
        }
    }
}

/// What one read of the app-server's output gave.
#[derive(Debug)]
pub enum ReadEvent {
    Eof,
    Failed(String),
    Frame(Vec<u8>),
}

pub enum ReadEventView {
    Eof,
    Failed(Seq<char>),
    Frame(Seq<u8>),
}

impl View for ReadEvent {
    type V = ReadEventView;

    open spec fn view(&self) -> ReadEventView {
        match self {
            ReadEvent::Eof => ReadEventView::Eof,
            ReadEvent::Failed(error) => ReadEventView::Failed(error@),
            ReadEvent::Frame(bytes) => ReadEventView::Frame(bytes@),
        }
    }
}

/// What the reader does next.
#[derive(Debug)]
pub enum ReadStep {
    /// Read on.
    Skip,
    /// Put the item into the inbox and read on.
    Append(InboxItem),
    /// Hand the result to the request that waits for it, and read on.
    Resolve { id: RpcId, result: Result<Json, HarnessError> },
    /// Put the item into the inbox, fail every waiting request for `reason`, close the inbox.
    Stop { item: InboxItem, reason: String },
}

pub enum ReadStepView {
    Skip,
    Append(InboxItemView),
    Resolve { id: RpcIdView, result: Result<JsonView, HarnessErrorView> },
    Stop { item: InboxItemView, reason: Seq<char> },
}

impl View for ReadStep {
    type V = ReadStepView;

    open spec fn view(&self) -> ReadStepView {
        match self {
            ReadStep::Skip => ReadStepView::Skip,
            ReadStep::Append(item) => ReadStepView::Append(item@),
            ReadStep::Resolve { id, result } => ReadStepView::Resolve { id: id@, result: outcome(*result) },
            ReadStep::Stop { item, reason } => ReadStepView::Stop { item: item@, reason: reason@ },
        }
    }
}

/// How many bytes a text takes in UTF-8.
pub open spec fn bytes_in(s: Seq<char>) -> nat {
    encode_utf8(s).len()
}

/// The report on a frame that could not be decoded.
pub open spec fn decode_report(method: Seq<char>, error: Seq<char>, raw_bytes: nat, quoted_preview: Seq<char>) -> Seq<char> {
    "Codex JSON-RPC deserialization error for method "@ + method + ": "@ + error + " (raw_bytes: "@ + decimal(raw_bytes)
        + ", raw_preview: "@ + quoted_preview + ")"@
}

/// The end of the stream after a frame that could not be decoded.
pub open spec fn decode_stop(
    method: Seq<char>,
    line: Seq<char>,
    error: Seq<char>,
    limit: nat,
    reason: Seq<char>,
) -> ReadStepView {
    ReadStepView::Stop {
        item: InboxItemView::Fatal(decode_report(method, error, bytes_in(line), quoted(preview(line, limit)))),
        reason,
    }
}

/// What follows a line that is no JSON-RPC message: text that does not start like an object is passed
/// on as a stray line, anything else ends the stream.
pub open spec fn unreadable_step(line: Seq<char>, error: Seq<char>, limit: nat) -> ReadStepView {
    if first_visible(line) != Some('{') {
        ReadStepView::Append(
            InboxItemView::NonJson {
                parse_error: error,
                raw_preview: preview(line, limit),
                raw_bytes: bytes_in(line),
            },
        )
    } else {
        decode_stop("unknown"@, line, error, limit, "Codex stream contained malformed JSON-RPC"@)
    }
}

pub open spec fn notification_step(
    line: Seq<char>,
    method: Seq<char>,
    params: Option<JsonView>,
    fault: Option<Seq<char>>,
    limit: nat,
) -> ReadStepView {
    match fault {
        None => ReadStepView::Append(InboxItemView::Message(ServerMessageView::Notification { method, params })),
        Some(error) => decode_stop(method, line, error, limit, "Codex notification decode failed"@),
    }
}

pub open spec fn request_step(
    line: Seq<char>,
    id: RpcIdView,
    method: Seq<char>,
    decoded: Result<ServerRequestView, Seq<char>>,
    limit: nat,
) -> ReadStepView {
    match decoded {
        Ok(request) => ReadStepView::Append(InboxItemView::Message(ServerMessageView::Request { id, request })),
        Err(error) => decode_stop(method, line, error, limit, "Codex request decode failed"@),
    }
}

/// A tool server's question keeps its parameters as received: their typed form loses routing fields
/// and schema keywords.
pub open spec fn request_decoding(method: Seq<char>, params: Option<JsonView>) -> Result<ServerRequestView, Seq<char>> {
    if method == "mcpServer/elicitation/request"@ {
        as_received(method, params)
    } else {
        request_of(method, params)
    }
}

/// How an error answer reads.
pub open spec fn rpc_error_text(code: i64, message: Seq<char>) -> Seq<char> {
    "JSON-RPC error ("@ + signed_decimal(code as int) + "): "@ + message
}

pub open spec fn envelope_step(line: Seq<char>, envelope: EnvelopeView, limit: nat) -> ReadStepView {
    match envelope {
        EnvelopeView::Response { id, result } => ReadStepView::Resolve { id, result: Ok(result) },
        EnvelopeView::Error { id, code, message } => ReadStepView::Resolve {
            id,
            result: Err(HarnessErrorView::Transport(rpc_error_text(code, message))),
        },
        EnvelopeView::Notification { method, params } => notification_step(
            line,
            method,
            params,
            notification_fault(method, params),
            limit,
        ),
        EnvelopeView::Request { id, method, params } => request_step(
            line,
            id,
            method,
            request_decoding(method, params),
            limit,
        ),
    }
}

pub open spec fn line_step(line: Seq<char>, limit: nat) -> ReadStepView {
    if blank(line) {
        ReadStepView::Skip
    } else {
        match envelope_of(line) {
            Err(error) => unreadable_step(line, error, limit),
            Ok(envelope) => envelope_step(line, envelope, limit),
        }
    }
}

pub open spec fn event_step(event: ReadEventView, limit: nat) -> ReadStepView {
    match event {
        ReadEventView::Eof => ReadStepView::Stop { item: InboxItemView::Eof, reason: "Codex stream closed"@ },
        ReadEventView::Failed(error) => ReadStepView::Stop {
            item: InboxItemView::Fatal("failed to read Codex stdout: "@ + error),
            reason: "Codex stream read failed"@,
        },
        ReadEventView::Frame(bytes) => if bytes.len() > CODEX_MAX_FRAME_BYTES {
            ReadStepView::Stop {
                item: InboxItemView::Fatal("Codex stdout frame exceeded "@ + decimal(CODEX_MAX_FRAME_BYTES as nat) + " bytes"@),
                reason: "Codex stream produced an oversized frame"@,
            }
        } else {
            line_step(without_line_ending(lossy_text(bytes)), limit)
        },
    }
}

fn byte_len(s: &str) -> (r: usize)
    ensures
        r == bytes_in(s@),
{
    s.as_bytes().len()
}

/// The report on a frame that could not be decoded; `quoted_preview` shows its start.
pub fn decode_report_text(method: &str, error: &str, raw_bytes: usize, quoted_preview: &str) -> (r: String)
    ensures
        r@ == decode_report(method@, error@, raw_bytes as nat, quoted_preview@),
{
    let mut out = "Codex JSON-RPC deserialization error for method ".to_owned();
    out.append(method);
    out.append(": ");
    out.append(error);
    out.append(" (raw_bytes: ");
    push_decimal(&mut out, raw_bytes as u64);
    out.append(", raw_preview: ");
    out.append(quoted_preview);
    out.append(")");
    out
}

fn stop_decoding(method: &str, line: &str, error: &str, preview_bytes: usize, reason: &str) -> (r: ReadStep)
    ensures
        r@ == decode_stop(method@, line@, error@, preview_bytes as nat, reason@),
{
    let shown = quote(bounded_utf8_preview(line, preview_bytes).as_str());
    let report = decode_report_text(method, error, byte_len(line), shown.as_str());
    ReadStep::Stop { item: InboxItem::Fatal(report), reason: reason.to_owned() }
}

/// What follows a line that is no JSON-RPC message.
pub fn unreadable_line(line: &str, error: String, preview_bytes: usize) -> (r: ReadStep)
    ensures
        r@ == unreadable_step(line@, error@, preview_bytes as nat),
{
    if first_visible_char(line) != Some('{') {
        ReadStep::Append(
            InboxItem::NonJson {
                parse_error: error,
                raw_preview: bounded_utf8_preview(line, preview_bytes),
                raw_bytes: byte_len(line),
            },
        )
    } else {
        stop_decoding("unknown", line, error.as_str(), preview_bytes, "Codex stream contained malformed JSON-RPC")
    }
}

/// What follows a notification, given why its decoding failed, if it did.
pub fn route_notification(
    line: &str,
    method: String,
    params: Option<Json>,
    fault: Option<String>,
    preview_bytes: usize,
) -> (r: ReadStep)
    ensures
        r@ == notification_step(line@, method@, opt_json(params), opt_text(fault), preview_bytes as nat),
{
    match fault {
        None => ReadStep::Append(InboxItem::Message(ServerMessage::Notification { method, params })),
        Some(error) => stop_decoding(
            method.as_str(),
            line,
            error.as_str(),
            preview_bytes,
            "Codex notification decode failed",
        ),
    }
}

/// What follows a server request, given what its decoding gave.
pub fn route_request(
    line: &str,
    id: RpcId,
    method: &str,
    decoded: Result<ServerRequest, String>,
    preview_bytes: usize,
) -> (r: ReadStep)
    ensures
        r@ == request_step(line@, id@, method@, decoding(decoded), preview_bytes as nat),
{
    match decoded {
        Ok(request) => ReadStep::Append(InboxItem::Message(ServerMessage::Request { id, request })),
        Err(error) => stop_decoding(method, line, error.as_str(), preview_bytes, "Codex request decode failed"),
    }
}

/// What follows a JSON-RPC message.
pub fn route_envelope(line: &str, envelope: Envelope, preview_bytes: usize) -> (r: ReadStep)
    ensures
        r@ == envelope_step(line@, envelope@, preview_bytes as nat),
{
    match envelope {
        Envelope::Response { id, result } => ReadStep::Resolve { id, result: Ok(result) },
        Envelope::Error { id, code, message } => {
            let mut text = "JSON-RPC error (".to_owned();
            push_signed(&mut text, code);
            text.append("): ");
            text.append(message.as_str());
            ReadStep::Resolve { id, result: Err(HarnessError::Transport(text)) }
        },
        Envelope::Notification { method, params } => {
            let fault = check_notification(method.as_str(), &params);
            route_notification(line, method, params, fault, preview_bytes)
        },
        Envelope::Request { id, method, params } => {
            let decoded = if same(method.as_str(), "mcpServer/elicitation/request") {
                Ok(ServerRequest { method: method.clone(), body: RequestBody::Unmodelled(params) })
            } else {
                decode_request(method.as_str(), &params)
            };
            route_request(line, id, method.as_str(), decoded, preview_bytes)
        },
    }
}

/// What follows one read of the app-server's output. Reports show at most `preview_bytes` bytes of a
/// frame.
pub fn read_step(event: ReadEvent, preview_bytes: usize) -> (r: ReadStep)
    ensures
        r@ == event_step(event@, preview_bytes as nat),
{
    match event {
        ReadEvent::Eof => ReadStep::Stop { item: InboxItem::Eof, reason: "Codex stream closed".to_owned() },
        ReadEvent::Failed(error) => {
            let mut report = "failed to read Codex stdout: ".to_owned();
            report.append(error.as_str());
            ReadStep::Stop { item: InboxItem::Fatal(report), reason: "Codex stream read failed".to_owned() }
        },
        ReadEvent::Frame(bytes) => {
            if bytes.len() > CODEX_MAX_FRAME_BYTES {
                let mut report = "Codex stdout frame exceeded ".to_owned();
                push_decimal(&mut report, CODEX_MAX_FRAME_BYTES as u64);
                report.append(" bytes");
                return ReadStep::Stop {
                    item: InboxItem::Fatal(report),
                    reason: "Codex stream produced an oversized frame".to_owned(),
                };
            }
            let mut line = lossy(bytes.as_slice());
            trim_line_ending(&mut line);
            if is_blank(line.as_str()) {
                return ReadStep::Skip;
            }
            match decode_envelope(line.as_str()) {
                Err(error) => unreadable_line(line.as_str(), error, preview_bytes),
                Ok(envelope) => route_envelope(line.as_str(), envelope, preview_bytes),
            }
        },
    }
}

/// A stray line never ends the stream and never answers a request.
pub proof fn law_stray_lines_are_recoverable(line: Seq<char>, limit: nat)
    requires
        first_visible(line) != Some('{'),
    ensures
        envelope_of(line) is Err ==> (line_step(line, limit) is Skip || (line_step(line, limit)
            matches ReadStepView::Append(item) && item is NonJson)),
{
}

/// Every way the reader ends the stream leaves a last item in the inbox and a reason for the
/// requests that still wait; only the end of the output is no failure.
pub proof fn law_stream_ends_with_a_verdict(event: ReadEventView, limit: nat)
    ensures
        event_step(event, limit) matches ReadStepView::Stop { item, reason } ==> (item is Fatal || (item is Eof
            && event is Eof)),
{
}

/// Whether a text holds a line break.
pub open spec fn breaks_line(s: Seq<char>) -> bool {
    s.contains('\r') || s.contains('\n')
}

/// A text as one line of the protocol.
pub fn single_line(text: String) -> (r: Result<String, HarnessError>)
    ensures
        outcome(r) == (if breaks_line(text@) {
            Err(HarnessErrorView::Protocol("raw app-server frame contains an embedded line break"@))
        } else {
            Ok(text@)
        }),
{
    let chars = chars_of(text.as_str());
    let mut i: usize = 0;
    while i < chars.len()
        invariant
            i <= chars@.len(),
            chars@ == text@,
            forall|k: int| 0 <= k < i ==> chars@[k] != '\r' && chars@[k] != '\n',
        decreases chars@.len() - i,
    {
        if chars[i] == '\r' || chars[i] == '\n' {
            assert(text@[i as int] == chars@[i as int]);
            return Err(HarnessError::protocol("raw app-server frame contains an embedded line break"));
        }
        i += 1;
    }
    Ok(text)
}

/// A document as one line of the protocol.
pub fn serialize_line(value: &Json) -> (r: Result<String, HarnessError>)
    ensures
        outcome(r) == Ok::<Seq<char>, HarnessErrorView>(printed(value@)),
        !breaks_line(printed(value@)),
{
    single_line(print(value))
}

pub open spec fn request_json(id: RpcIdView, method: Seq<char>, params: JsonView) -> JsonView {
    JsonView::Object(map!["id"@ => id_json(id), "method"@ => JsonView::Text(method), "params"@ => params])
}

pub open spec fn notification_json(method: Seq<char>) -> JsonView {
    JsonView::Object(map!["method"@ => JsonView::Text(method)])
}

pub open spec fn response_json(id: RpcIdView, result: JsonView) -> JsonView {
    JsonView::Object(map!["id"@ => id_json(id), "result"@ => result])
}

pub open spec fn error_json(id: RpcIdView, code: int, message: Seq<char>) -> JsonView {
    JsonView::Object(
        map![
            "id"@ => id_json(id),
            "error"@ => JsonView::Object(map!["code"@ => JsonView::Integer(code), "message"@ => JsonView::Text(message)]),
        ],
    )
}

/// A line for the app-server's input, and how logs call it.
#[derive(Debug)]
pub struct Frame {
    pub line: String,
    pub description: String,
}

pub struct FrameView {
    pub line: Seq<char>,
    pub description: Seq<char>,
}

impl View for Frame {
    type V = FrameView;

    open spec fn view(&self) -> FrameView {
        FrameView { line: self.line@, description: self.description@ }
    }
}

pub fn request_frame(id: &RpcId, method: &str, params: Json) -> (r: Result<Frame, HarnessError>)
    ensures
        outcome(r) == Ok::<FrameView, HarnessErrorView>(
            (FrameView {
                line: printed(request_json(id@, method@, params@)),
                description: "request "@ + method@ + " id "@ + id_text(id@),
            }),
        ),
{
    let value = Json::object().with("id", id.to_json()).with("method", Json::text(method)).with("params", params);
    assert(value@ =~= request_json(id@, method@, params@));
    let mut description = "request ".to_owned();
    description.append(method);
    description.append(" id ");
    description.append(id.to_text().as_str());
    match serialize_line(&value) {
        Ok(line) => Ok(Frame { line, description }),
        Err(error) => Err(error),
    }
}

pub fn notification_frame(method: &str) -> (r: Result<Frame, HarnessError>)
    ensures
        outcome(r) == Ok::<FrameView, HarnessErrorView>(
            (FrameView { line: printed(notification_json(method@)), description: "notification "@ + method@ }),
        ),
{
    let value = Json::object().with("method", Json::text(method));
    assert(value@ =~= notification_json(method@));
    let mut description = "notification ".to_owned();
    description.append(method);
    match serialize_line(&value) {
        Ok(line) => Ok(Frame { line, description }),
        Err(error) => Err(error),
    }
}

pub fn response_frame(id: &RpcId, result: Json) -> (r: Result<Frame, HarnessError>)
    ensures
        outcome(r) == Ok::<FrameView, HarnessErrorView>(
            (FrameView { line: printed(response_json(id@, result@)), description: "response id "@ + id_text(id@) }),
        ),
{
    let value = Json::object().with("id", id.to_json()).with("result", result);
    assert(value@ =~= response_json(id@, result@));
    let mut description = "response id ".to_owned();
    description.append(id.to_text().as_str());
    match serialize_line(&value) {
        Ok(line) => Ok(Frame { line, description }),
        Err(error) => Err(error),
    }
}

fn error_document(id: &RpcId, code: i64, message: &str) -> (r: Json)
    ensures
        r@ == error_json(id@, code as int, message@),
{
    let inner = Json::object().with("code", Json::Signed(code)).with("message", Json::text(message));
    assert(inner@ =~= JsonView::Object(map!["code"@ => JsonView::Integer(code as int), "message"@ => JsonView::Text(message@)]));
    let value = Json::object().with("id", id.to_json()).with("error", inner);
    assert(value@ =~= error_json(id@, code as int, message@));
    value
}

pub fn error_frame(id: &RpcId, code: i64, message: &str) -> (r: Result<Frame, HarnessError>)
    ensures
        outcome(r) == Ok::<FrameView, HarnessErrorView>(
            (FrameView { line: printed(error_json(id@, code as int, message@)), description: "error response id "@ + id_text(id@) }),
        ),
{
    let value = error_document(id, code, message);
    let mut description = "error response id ".to_owned();
    description.append(id.to_text().as_str());
    match serialize_line(&value) {
        Ok(line) => Ok(Frame { line, description }),
        Err(error) => Err(error),
    }
}

/// What a service request is answered with: the result, or an error with the fixed server code.
pub open spec fn service_json(id: RpcIdView, response: Result<JsonView, Seq<char>>) -> JsonView {
    match response {
        Ok(result) => response_json(id, result),
        Err(message) => error_json(id, -32000, message),
    }
}

pub fn service_frame(id: &RpcId, response: Result<Json, &str>) -> (r: Result<Frame, HarnessError>)
    ensures
        outcome(r) == Ok::<FrameView, HarnessErrorView>(
            (FrameView {
                line: printed(
                    service_json(
                        id@,
                        match response {
                            Ok(result) => Ok(result@),
                            Err(message) => Err(message@),
                        },
                    ),
                ),
                description: "native service response id "@ + id_text(id@),
            }),
        ),
{
    let value = match response {
        Ok(result) => {
            let value = Json::object().with("id", id.to_json()).with("result", result);
            assert(value@ =~= response_json(id@, result@));
            value
        },
        Err(message) => error_document(id, -32000, message),
    };
    let mut description = "native service response id ".to_owned();
    description.append(id.to_text().as_str());
    match serialize_line(&value) {
        Ok(line) => Ok(Frame { line, description }),
        Err(error) => Err(error),
    }
}

/// The frame holds this line: as it stands, or with a line ending behind it.
pub open spec fn carries(bytes: Seq<u8>, line: Seq<char>) -> bool {
    &&& bytes.len() <= 64 * 1024 * 1024
    &&& exists|i: int| 0 <= i < line.len() && !whitespace(#[trigger] line[i])
    &&& line.last() != '\n' && line.last() != '\r'
    &&& lossy_text(bytes) == line || lossy_text(bytes) == line + seq!['\n'] || lossy_text(bytes) == line + seq!['\r', '\n']
}

/// A line ending says nothing: what follows a frame follows from the line in it.
proof fn lemma_carried(bytes: Seq<u8>, line: Seq<char>, limit: nat)
    requires
        carries(bytes, line),
    ensures
        event_step(ReadEventView::Frame(bytes), limit) == line_step(line, limit),
        !blank(line),
{
    let text = lossy_text(bytes);
    let i = choose|i: int| 0 <= i < line.len() && !whitespace(#[trigger] line[i]);
    assert(!whitespace(line[i]));
    if text == line + seq!['\n'] {
        assert(text.drop_last() =~= line);
    } else if text == line + seq!['\r', '\n'] {
        assert(text.drop_last() =~= line + seq!['\r']);
        assert(text.drop_last().drop_last() =~= line);
    }
}

/// A notification reaches the session with the method and the parameters that it came with; one that cannot
/// be decoded ends the stream.
pub proof fn law_notifications_are_passed_on(
    bytes: Seq<u8>,
    line: Seq<char>,
    method: Seq<char>,
    params: Option<JsonView>,
    limit: nat,
)
    requires
        carries(bytes, line),
        envelope_of(line) == Ok::<EnvelopeView, Seq<char>>(EnvelopeView::Notification { method, params }),
    ensures
        notification_fault(method, params) is None ==> event_step(ReadEventView::Frame(bytes), limit)
            == ReadStepView::Append(InboxItemView::Message(ServerMessageView::Notification { method, params })),
        notification_fault(method, params) is Some ==> (event_step(ReadEventView::Frame(bytes), limit)
            matches ReadStepView::Stop { item, .. } && item is Fatal),
{
    lemma_carried(bytes, line, limit);
}

/// A request reaches the session under its id, as it was decoded; a question of a tool server reaches it with
/// its parameters as they came.
pub proof fn law_requests_are_passed_on(
    bytes: Seq<u8>,
    line: Seq<char>,
    id: RpcIdView,
    method: Seq<char>,
    params: Option<JsonView>,
    limit: nat,
)
    requires
        carries(bytes, line),
        envelope_of(line) == Ok::<EnvelopeView, Seq<char>>(EnvelopeView::Request { id, method, params }),
    ensures
        method == "mcpServer/elicitation/request"@ ==> event_step(ReadEventView::Frame(bytes), limit)
            == ReadStepView::Append(
            InboxItemView::Message(
                ServerMessageView::Request {
                    id,
                    request: ServerRequestView { method, body: RequestBodyView::Unmodelled(params) },
                },
            ),
        ),
        method != "mcpServer/elicitation/request"@ ==> match request_of(method, params) {
            Ok(request) => event_step(ReadEventView::Frame(bytes), limit) == ReadStepView::Append(
                InboxItemView::Message(ServerMessageView::Request { id, request }),
            ),
            Err(_) => event_step(ReadEventView::Frame(bytes), limit) matches ReadStepView::Stop { item, .. } && item is Fatal,
        },
{
    lemma_carried(bytes, line, limit);
}

/// An answer goes to the request of its id, with its result. An error answer fails that request, and the words
/// of the failure hold the code and the message.
pub proof fn law_answers_go_to_their_request(
    bytes: Seq<u8>,
    line: Seq<char>,
    id: RpcIdView,
    result: JsonView,
    code: i64,
    message: Seq<char>,
    limit: nat,
)
    requires
        carries(bytes, line),
    ensures
        envelope_of(line) == Ok::<EnvelopeView, Seq<char>>(EnvelopeView::Response { id, result }) ==> event_step(
            ReadEventView::Frame(bytes),
            limit,
        ) == (ReadStepView::Resolve { id, result: Ok::<JsonView, HarnessErrorView>(result) }),
        envelope_of(line) == Ok::<EnvelopeView, Seq<char>>(EnvelopeView::Error { id, code, message }) ==> (event_step(
            ReadEventView::Frame(bytes),
            limit,
        ) matches ReadStepView::Resolve { id: told, result: failed } && told == id && (failed matches Err(error) && (error
            matches HarnessErrorView::Transport(text) && exists|before: Seq<char>, between: Seq<char>|
            text == #[trigger] (before + signed_decimal(code as int) + between + message)))),
{
    lemma_carried(bytes, line, limit);
    assert(rpc_error_text(code, message) == "JSON-RPC error ("@ + signed_decimal(code as int) + "): "@ + message);
}

/// A line that is no message is passed on as a stray line, with the complaint about it, its start and its
/// length, unless it starts like an object: then the stream ends.
pub proof fn law_unreadable_lines_are_told_apart(bytes: Seq<u8>, line: Seq<char>, complaint: Seq<char>, at: int, limit: nat)
    requires
        carries(bytes, line),
        envelope_of(line) == Err::<EnvelopeView, Seq<char>>(complaint),
        0 <= at < line.len(),
        !whitespace(line[at]),
        forall|i: int| 0 <= i < at ==> whitespace(#[trigger] line[i]),
    ensures
        line[at] != '{' ==> event_step(ReadEventView::Frame(bytes), limit) == ReadStepView::Append(
            InboxItemView::NonJson {
                parse_error: complaint,
                raw_preview: preview(line, limit),
                raw_bytes: encode_utf8(line).len(),
            },
        ),
        line[at] == '{' ==> (event_step(ReadEventView::Frame(bytes), limit) matches ReadStepView::Stop { item, .. }
            && item is Fatal),
{
    lemma_carried(bytes, line, limit);
    lemma_first_visible(line, at);
}

/// A frame of nothing but white space is passed over. One that is too long ends the stream whatever it holds,
/// and so do the end of the output and a failure to read it; only the end of the output is no failure, and
/// the words of a failure to read hold what failed.
pub proof fn law_the_stream_ends_where_nothing_can_be_read(event: ReadEventView, limit: nat)
    ensures
        event matches ReadEventView::Frame(bytes) ==> bytes.len() > 64 * 1024 * 1024 ==> (event_step(event, limit)
            matches ReadStepView::Stop { item, .. } && item is Fatal),
        event matches ReadEventView::Frame(bytes) ==> bytes.len() <= 64 * 1024 * 1024 && (forall|i: int|
            0 <= i < lossy_text(bytes).len() ==> whitespace(#[trigger] lossy_text(bytes)[i])) ==> event_step(event, limit)
            is Skip,
        event is Eof ==> (event_step(event, limit) matches ReadStepView::Stop { item, .. } && item is Eof),
        event matches ReadEventView::Failed(error) ==> (event_step(event, limit) matches ReadStepView::Stop { item, .. } && (
        item matches InboxItemView::Fatal(text) && exists|before: Seq<char>| text == #[trigger] (before + error))),
{
    if let ReadEventView::Frame(bytes) = event {
        let text = lossy_text(bytes);
        if forall|i: int| 0 <= i < text.len() ==> whitespace(#[trigger] text[i]) {
            let line = without_line_ending(text);
            assert forall|i: int| 0 <= i < line.len() implies whitespace(#[trigger] line[i]) by {
                assert(line[i] == text[i]);
            }
        }
    }
    if let ReadEventView::Failed(error) = event {
        assert("failed to read Codex stdout: "@ + error == "failed to read Codex stdout: "@ + error);
    }
}

/// The report on a frame that could not be decoded holds the method, the complaint, the length of the frame
/// and its start.
pub proof fn law_decode_reports_hold_the_facts(line: Seq<char>, method: Seq<char>, params: Option<JsonView>, error: Seq<char>, limit: nat)
    requires
        notification_fault(method, params) == Some(error),
    ensures
        envelope_step(line, EnvelopeView::Notification { method, params }, limit) matches ReadStepView::Stop { item, .. } && (
        item matches InboxItemView::Fatal(text) && exists|
            a: Seq<char>,
            b: Seq<char>,
            c: Seq<char>,
            d: Seq<char>,
            e: Seq<char>,
        |
            text == #[trigger] (a + method + b + error + c + decimal(encode_utf8(line).len()) + d + quoted(
                preview(line, limit),
            ) + e)),
{
    assert(decode_report(method, error, bytes_in(line), quoted(preview(line, limit)))
        == "Codex JSON-RPC deserialization error for method "@ + method + ": "@ + error + " (raw_bytes: "@ + decimal(
        bytes_in(line),
    ) + ", raw_preview: "@ + quoted(preview(line, limit)) + ")"@);
}

/// The names of a frame's members are told apart.
proof fn lemma_frame_names()
    ensures
        "id"@ != "method"@,
        "id"@ != "params"@,
        "method"@ != "params"@,
        "id"@ != "result"@,
        "id"@ != "error"@,
        "code"@ != "message"@,
{
    reveal_strlit("id");
    reveal_strlit("method");
    reveal_strlit("params");
    reveal_strlit("result");
    reveal_strlit("error");
    reveal_strlit("code");
    reveal_strlit("message");
    assert("id"@.len() != "method"@.len());
    assert("id"@.len() != "params"@.len());
    assert("method"@[0] != "params"@[0]);
    assert("id"@.len() != "result"@.len());
    assert("id"@.len() != "error"@.len());
    assert("code"@.len() != "message"@.len());
}

/// Every frame that is written holds what it is made of: a request its id, method and parameters; an answer
/// the id it answers and its result; an error answer the id, the code and the message.
pub proof fn law_frames_hold_what_they_say(
    id: RpcIdView,
    method: Seq<char>,
    params: JsonView,
    code: int,
    message: Seq<char>,
)
    ensures
        member(request_json(id, method, params), "id"@) == Some(id_json(id)),
        member(request_json(id, method, params), "method"@) == Some(JsonView::Text(method)),
        member(request_json(id, method, params), "params"@) == Some(params),
        member(notification_json(method), "method"@) == Some(JsonView::Text(method)),
        member(notification_json(method), "id"@) is None,
        member(response_json(id, params), "id"@) == Some(id_json(id)),
        member(response_json(id, params), "result"@) == Some(params),
        member(response_json(id, params), "error"@) is None,
        member(error_json(id, code, message), "id"@) == Some(id_json(id)),
        member(at(error_json(id, code, message), "error"@), "code"@) == Some(JsonView::Integer(code)),
        member(at(error_json(id, code, message), "error"@), "message"@) == Some(JsonView::Text(message)),
        member(error_json(id, code, message), "result"@) is None,
        service_json(id, Ok(params)) == response_json(id, params),
        service_json(id, Err(message)) == error_json(id, -32000, message),
{
    lemma_frame_names();
    reveal_strlit("result");
    reveal_strlit("error");
    assert("result"@.len() != "error"@.len());
}

/// An id is written as what it is, text as text and a number as a number, so that no two ids look alike in a
/// frame.
pub proof fn law_ids_are_written_apart(first: RpcIdView, second: RpcIdView)
    ensures
        first matches RpcIdView::Text(t) ==> id_json(first) == JsonView::Text(t) && id_text(first) == t,
        first matches RpcIdView::Integer(n) ==> id_json(first) == JsonView::Integer(n as int) && id_text(first)
            == signed_decimal(n as int),
        id_json(first) == id_json(second) ==> first == second,
{
}

/// A line that shows nothing is passed over, whatever its length, as long as the frame is not too long.
pub proof fn law_blank_lines_are_passed_over(bytes: Seq<u8>, limit: nat)
    requires
        bytes.len() <= 64 * 1024 * 1024,
        blank(without_line_ending(lossy_text(bytes))),
    ensures
        event_step(ReadEventView::Frame(bytes), limit) is Skip,
{
}

/// A text is one line exactly where neither kind of line break stands in it.
pub proof fn law_one_line_has_no_breaks(s: Seq<char>)
    ensures
        breaks_line(s) <==> exists|k: int| 0 <= k < s.len() && (#[trigger] s[k] == '\n' || s[k] == '\r'),
{
    if breaks_line(s) {
        let c = if s.contains('\r') {
            '\r'
        } else {
            '\n'
        };
        let k = choose|k: int| 0 <= k < s.len() && s[k] == c;
        assert(s[k] == c);
    }
}

/// The report on a request that could not be decoded, or on a line that was to be a message and is none, holds
/// the same facts; such a line has no method to name.
pub proof fn law_every_decode_report_holds_the_facts(
    line: Seq<char>,
    id: RpcIdView,
    method: Seq<char>,
    params: Option<JsonView>,
    error: Seq<char>,
    at: int,
    limit: nat,
)
    ensures
        request_decoding(method, params) == Err::<ServerRequestView, Seq<char>>(error) ==> (envelope_step(
            line,
            EnvelopeView::Request { id, method, params },
            limit,
        ) matches ReadStepView::Stop { item, .. } && (item matches InboxItemView::Fatal(text) && tells_facts(
            text,
            method,
            error,
            line,
            limit,
        ))),
        envelope_of(line) == Err::<EnvelopeView, Seq<char>>(error) && 0 <= at < line.len() && line[at] == '{' && (forall|i: int|
            0 <= i < at ==> whitespace(#[trigger] line[i])) ==> (line_step(line, limit) matches ReadStepView::Stop { item, .. }
            && (item matches InboxItemView::Fatal(text) && tells_facts(text, "unknown"@, error, line, limit))),
{
    let unknown = decode_report("unknown"@, error, bytes_in(line), quoted(preview(line, limit)));
    let known = decode_report(method, error, bytes_in(line), quoted(preview(line, limit)));
    let a = "Codex JSON-RPC deserialization error for method "@;
    let b = ": "@;
    let c = " (raw_bytes: "@;
    let d = ", raw_preview: "@;
    let e = ")"@;
    let facts = decimal(bytes_in(line));
    let shown = quoted(preview(line, limit));
    assert(unknown == a + "unknown"@ + b + error + c + facts + d + shown + e);
    assert(known == a + method + b + error + c + facts + d + shown + e);
    if 0 <= at < line.len() && line[at] == '{' {
        assert(!whitespace(line[at]));
        if forall|i: int| 0 <= i < at ==> whitespace(#[trigger] line[i]) {
            lemma_first_visible(line, at);
        }
    }
}

/// A report tells the method, the complaint, how long the line is and how it begins, in this order.
pub open spec fn tells_facts(text: Seq<char>, method: Seq<char>, error: Seq<char>, line: Seq<char>, limit: nat) -> bool {
    exists|a: Seq<char>, b: Seq<char>, c: Seq<char>, d: Seq<char>, e: Seq<char>|
        text == #[trigger] (a + method + b + error + c + decimal(encode_utf8(line).len()) + d + quoted(preview(line, limit)) + e)
}

/// A frame that is too long is told with the limit it broke.
pub proof fn law_oversized_frames_are_told_the_limit(bytes: Seq<u8>, limit: nat)
    requires
        bytes.len() > 64 * 1024 * 1024,
    ensures
        event_step(ReadEventView::Frame(bytes), limit) matches ReadStepView::Stop { item, .. } && (item matches InboxItemView::Fatal(
            text,
        ) && exists|before: Seq<char>, after: Seq<char>| text == #[trigger] (before + decimal(67_108_864) + after)),
{
    assert("Codex stdout frame exceeded "@ + decimal(CODEX_MAX_FRAME_BYTES as nat) + " bytes"@
        == "Codex stdout frame exceeded "@ + decimal(67_108_864) + " bytes"@);
}

} // verus!
