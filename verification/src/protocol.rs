//! The app-server's JSON-RPC messages, and how its frames are read and written.

use vstd::prelude::*;
use vstd::utf8::*;
use codex_codes::jsonrpc::JsonRpcMessage;
use crate::json::{from_value, opt_json, opt_text, to_value, Json, JsonView};
use crate::text::{push_signed, same, signed_decimal};

verus! {

/// Identifies a request and its answer.
#[derive(Debug, PartialEq, Eq, Hash)]
pub enum RpcId {
    Text(String),
    Integer(i64),
}

pub enum RpcIdView {
    Text(Seq<char>),
    Integer(i64),
}

impl View for RpcId {
    type V = RpcIdView;

    open spec fn view(&self) -> RpcIdView {
        match self {
            RpcId::Text(t) => RpcIdView::Text(t@),
            RpcId::Integer(n) => RpcIdView::Integer(*n),
        }
    }
}

impl Clone for RpcId {
    fn clone(&self) -> (r: RpcId)
        ensures
            r@ == self@,
    {
        match self {
            RpcId::Text(t) => RpcId::Text(t.clone()),
            RpcId::Integer(n) => RpcId::Integer(*n),
        }
    }
}

/// How an id reads in plain text.
pub open spec fn id_text(id: RpcIdView) -> Seq<char> {
    match id {
        RpcIdView::Text(t) => t,
        RpcIdView::Integer(n) => signed_decimal(n as int),
    }
}

/// How an id stands in a frame.
pub open spec fn id_json(id: RpcIdView) -> JsonView {
    match id {
        RpcIdView::Text(t) => JsonView::Text(t),
        RpcIdView::Integer(n) => JsonView::Integer(n as int),
    }
}

impl RpcId {
    pub fn matches(&self, other: &RpcId) -> (r: bool)
        ensures
            r == (self@ == other@),
    {
        match (self, other) {
            (RpcId::Text(a), RpcId::Text(b)) => same(a.as_str(), b.as_str()),
            (RpcId::Integer(a), RpcId::Integer(b)) => *a == *b,
            _ => false,
        }
    }

    pub fn to_text(&self) -> (r: String)
        ensures
            r@ == id_text(self@),
    {
        match self {
            RpcId::Text(t) => t.clone(),
            RpcId::Integer(n) => {
                let mut out = String::new();
                push_signed(&mut out, *n);
                assert(out@ =~= signed_decimal(*n as int));
                out
            },
        }
    }

    pub fn to_json(&self) -> (r: Json)
        ensures
            r@ == id_json(self@),
    {
        match self {
            RpcId::Text(t) => Json::Text(t.clone()),
            RpcId::Integer(n) => Json::Signed(*n),
        }
    }
}

/// A call of a client-executed tool.
#[derive(Debug)]
pub struct DynamicToolCallParams {
    pub namespace: Option<String>,
    pub tool: String,
    pub arguments: Json,
    pub thread_id: String,
    pub turn_id: String,
    pub call_id: String,
}

pub struct ToolCallView {
    pub namespace: Option<Seq<char>>,
    pub tool: Seq<char>,
    pub arguments: JsonView,
    pub thread_id: Seq<char>,
    pub turn_id: Seq<char>,
    pub call_id: Seq<char>,
}

impl View for DynamicToolCallParams {
    type V = ToolCallView;

    open spec fn view(&self) -> ToolCallView {
        ToolCallView {
            namespace: opt_text(self.namespace),
            tool: self.tool@,
            arguments: self.arguments@,
            thread_id: self.thread_id@,
            turn_id: self.turn_id@,
            call_id: self.call_id@,
        }
    }
}

/// What a server request carries, as far as this bridge reads it.
#[derive(Debug)]
pub enum RequestBody {
    /// A credential refresh, with its parameters in their typed form.
    AuthRefresh(Json),
    ToolCall(DynamicToolCallParams),
    /// A method the protocol types do not know; the parameters are as received.
    Unmodelled(Option<Json>),
    /// Any other known method; the parameters are as received.
    Modelled(Option<Json>),
}

pub enum RequestBodyView {
    AuthRefresh(JsonView),
    ToolCall(ToolCallView),
    Unmodelled(Option<JsonView>),
    Modelled(Option<JsonView>),
}

#[derive(Debug)]
pub struct ServerRequest {
    pub method: String,
    pub body: RequestBody,
}

pub struct ServerRequestView {
    pub method: Seq<char>,
    pub body: RequestBodyView,
}

impl View for ServerRequest {
    type V = ServerRequestView;

    open spec fn view(&self) -> ServerRequestView {
        ServerRequestView {
            method: self.method@,
            body: match self.body {
                RequestBody::AuthRefresh(params) => RequestBodyView::AuthRefresh(params@),
                RequestBody::ToolCall(params) => RequestBodyView::ToolCall(params@),
                RequestBody::Unmodelled(params) => RequestBodyView::Unmodelled(opt_json(params)),
                RequestBody::Modelled(params) => RequestBodyView::Modelled(opt_json(params)),
            },
        }
    }
}

/// A message the app-server starts on its own.
#[derive(Debug)]
pub enum ServerMessage {
    Notification { method: String, params: Option<Json> },
    Request { id: RpcId, request: ServerRequest },
}

#[allow(inconsistent_fields)]
pub enum ServerMessageView {
    Notification { method: Seq<char>, params: Option<JsonView> },
    Request { id: RpcIdView, request: ServerRequestView },
}

impl View for ServerMessage {
    type V = ServerMessageView;

    open spec fn view(&self) -> ServerMessageView {
        match self {
            ServerMessage::Notification { method, params } => ServerMessageView::Notification {
                method: method@,
                params: opt_json(*params),
            },
            ServerMessage::Request { id, request } => ServerMessageView::Request { id: id@, request: request@ },
        }
    }
}

/// Any JSON-RPC message on the wire.
#[derive(Debug)]
pub enum Envelope {
    Request { id: RpcId, method: String, params: Option<Json> },
    Response { id: RpcId, result: Json },
    Error { id: RpcId, code: i64, message: String },
    Notification { method: String, params: Option<Json> },
}

pub enum EnvelopeView {
    Request { id: RpcIdView, method: Seq<char>, params: Option<JsonView> },
    Response { id: RpcIdView, result: JsonView },
    Error { id: RpcIdView, code: i64, message: Seq<char> },
    Notification { method: Seq<char>, params: Option<JsonView> },
}

impl View for Envelope {
    type V = EnvelopeView;

    open spec fn view(&self) -> EnvelopeView {
        match self {
            Envelope::Request { id, method, params } => EnvelopeView::Request {
                id: id@,
                method: method@,
                params: opt_json(*params),
            },
            Envelope::Response { id, result } => EnvelopeView::Response { id: id@, result: result@ },
            Envelope::Error { id, code, message } => EnvelopeView::Error { id: id@, code: *code, message: message@ },
            Envelope::Notification { method, params } => EnvelopeView::Notification {
                method: method@,
                params: opt_json(*params),
            },
        }
    }
}

/// A decoding result seen through the views of its two sides.
pub open spec fn decoding<T: View>(r: Result<T, String>) -> Result<T::V, Seq<char>> {
    match r {
        Ok(value) => Ok(value@),
        Err(message) => Err(message@),
    }
}

/// A request whose parameters are kept exactly as they came.
pub open spec fn as_received(method: Seq<char>, params: Option<JsonView>) -> Result<ServerRequestView, Seq<char>> {
    Ok(ServerRequestView { method, body: RequestBodyView::Unmodelled(params) })
}

/// What `codex_codes` reads from a line, or its complaint.
pub uninterp spec fn envelope_of(line: Seq<char>) -> Result<EnvelopeView, Seq<char>>;

/// What `codex_codes` makes of a server request, or its complaint.
pub uninterp spec fn request_of(method: Seq<char>, params: Option<JsonView>) -> Result<ServerRequestView, Seq<char>>;

/// Why `codex_codes` refuses a notification; nothing where it accepts one.
pub uninterp spec fn notification_fault(method: Seq<char>, params: Option<JsonView>) -> Option<Seq<char>>;

/// `codex_codes::jsonrpc::RequestId`, held only while an id crosses into the library.
#[verifier::external_type_specification]
#[verifier::external_body]
pub struct ExNativeRequestId(codex_codes::jsonrpc::RequestId);

/// Turns a `codex_codes` id into the library's, variant by variant.
#[verifier::external_body]
fn from_native_id(id: codex_codes::jsonrpc::RequestId) -> RpcId {
    match id {
        codex_codes::jsonrpc::RequestId::String(t) => RpcId::Text(t),
        codex_codes::jsonrpc::RequestId::Integer(n) => RpcId::Integer(n),
    }
}

/// Reads a line with `serde_json::from_str` as a `codex_codes::jsonrpc::JsonRpcMessage`. The result
/// is a function of the line alone; which lines are which message is not stated.
#[verifier::external_body]
pub(crate) fn decode_envelope(line: &str) -> (r: Result<Envelope, String>)
    ensures
        decoding(r) == envelope_of(line@),
{
    Ok(match serde_json::from_str(line).map_err(|e| e.to_string())? {
        JsonRpcMessage::Request(m) => Envelope::Request {
            id: from_native_id(m.id), method: m.method, params: m.params.map(from_value),
        },
        JsonRpcMessage::Response(m) => Envelope::Response { id: from_native_id(m.id), result: from_value(m.result) },
        JsonRpcMessage::Error(m) => Envelope::Error {
            id: from_native_id(m.id), code: m.error.code, message: m.error.message,
        },
        JsonRpcMessage::Notification(m) => Envelope::Notification { method: m.method, params: m.params.map(from_value) },
    })
}

/// Decodes a server request with `codex_codes::ServerRequest::from_envelope`. The result is a
/// function of the arguments alone. A request that is accepted keeps its method; one of a method
/// outside the ten that `codex_codes` models is accepted with its parameters as received. What the typed
/// forms of the others hold is not stated.
#[verifier::external_body]
pub(crate) fn decode_request(method: &str, params: &Option<Json>) -> (r: Result<ServerRequest, String>)
    ensures
        decoding(r) == request_of(method@, opt_json(*params)),
        r is Ok ==> decoding(r)->Ok_0.method == method@,
        !modelled(method@) ==> decoding(r) == as_received(method@, opt_json(*params)),
{
    let request = codex_codes::ServerRequest::from_envelope(method, params.as_ref().map(to_value)).map_err(|e| e.to_string())?;
    let method = request.method().to_owned();
    let body = match request {
        codex_codes::ServerRequest::ChatgptAuthTokensRefresh(p) => RequestBody::AuthRefresh(from_value(serde_json::to_value(p).unwrap_or_default())),
        codex_codes::ServerRequest::ItemToolCall(p) => RequestBody::ToolCall(DynamicToolCallParams {
            namespace: p.namespace, tool: p.tool, arguments: from_value(p.arguments),
            thread_id: p.thread_id, turn_id: p.turn_id, call_id: p.call_id,
        }),
        codex_codes::ServerRequest::Unknown { .. } => RequestBody::Unmodelled(params.clone()),
        _ => RequestBody::Modelled(params.clone()),
    };
    Ok(ServerRequest { method, body })
}

/// Decodes a notification with `codex_codes::Notification::from_envelope` and tells its complaint,
/// if it has one. The result is a function of the arguments alone.
#[verifier::external_body]
pub(crate) fn check_notification(method: &str, params: &Option<Json>) -> (r: Option<String>)
    ensures
        opt_text(r) == notification_fault(method@, opt_json(*params)),
{
    codex_codes::Notification::from_envelope(method, params.as_ref().map(to_value)).err().map(|e| e.to_string())
}

/// What `String::from_utf8_lossy` reads from bytes.
pub uninterp spec fn lossy_text(bytes: Seq<u8>) -> Seq<char>;

/// Reads bytes as text with `String::from_utf8_lossy`. The result is a function of the bytes alone,
/// and for valid UTF-8 it is the text they encode; what stands in for invalid bytes is not stated.
#[verifier::external_body]
pub(crate) fn lossy(bytes: &[u8]) -> (r: String)
    ensures
        r@ == lossy_text(bytes@),
        valid_utf8(bytes@) ==> r@ == decode_utf8(bytes@),
{
    String::from_utf8_lossy(bytes).into_owned()
}

/// How `str`'s `Debug` writes a text: in quotes, with escapes.
pub uninterp spec fn quoted(text: Seq<char>) -> Seq<char>;

/// Writes a text with `str`'s `Debug`. The result is a function of the text alone; which characters
/// are escaped is not stated.
#[verifier::external_body]
pub(crate) fn quote(text: &str) -> (r: String)
    ensures
        r@ == quoted(text@),
{
    format!("{text:?}")
}

/// The request methods that `codex_codes` has types for.
pub open spec fn modelled(method: Seq<char>) -> bool {
    ||| method == "item/commandExecution/requestApproval"@
    ||| method == "item/fileChange/requestApproval"@
    ||| method == "item/tool/requestUserInput"@
    ||| method == "mcpServer/elicitation/request"@
    ||| method == "item/permissions/requestApproval"@
    ||| method == "item/tool/call"@
    ||| method == "account/chatgptAuthTokens/refresh"@
    ||| method == "attestation/generate"@
    ||| method == "applyPatchApproval"@
    ||| method == "execCommandApproval"@
}

} // verus!
