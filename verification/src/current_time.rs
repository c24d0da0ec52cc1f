//! Telling the app-server the time.

use vstd::prelude::*;
use crate::clock::unix_seconds;
use crate::json::{at, text_at, Json, JsonView};
use crate::protocol::{RequestBody, RequestBodyView, ServerRequest, ServerRequestView};
use crate::text::{blank, is_blank, same};

verus! {

/// The JSON-RPC code for parameters that do not fit.
pub const INVALID_PARAMS: i64 = -32602;

/// How a request is answered.
#[derive(Debug)]
pub enum ClockReply {
    Result(Json),
    Error { code: i64, message: &'static str },
}

/// A request for the time, by its method, that the protocol types do not know.
pub open spec fn asks_time(request: ServerRequestView) -> bool {
    request.body is Unmodelled && request.method == "currentTime/read"@
}

/// A request that names the thread it is about.
pub open spec fn names_thread(request: ServerRequestView) -> bool {
    request.body matches RequestBodyView::Unmodelled(Some(params)) && (text_at(params, "threadId"@) matches Some(thread)
        && !blank(thread))
}

pub open spec fn time_json(now: i64) -> JsonView {
    JsonView::Object(map!["currentTimeAt"@ => JsonView::Integer(now as int)])
}

/// Answers a request for the time with `now`; any other request is not this one's to answer.
pub fn respond_at(request: &ServerRequest, now: i64) -> (r: Option<ClockReply>)
    ensures
        !asks_time(request@) ==> r is None,
        asks_time(request@) && names_thread(request@) ==> (r matches Some(ClockReply::Result(value)) && value@ == time_json(
            now,
        )),
        asks_time(request@) && !names_thread(request@) ==> (r matches Some(ClockReply::Error { code, message }) && code
            == INVALID_PARAMS && message@ == "currentTime/read requires a non-empty threadId"@),
{
    let params = match &request.body {
        RequestBody::Unmodelled(params) => params,
        _ => {
            return None;
        },
    };
    if !same(request.method.as_str(), "currentTime/read") {
        return None;
    }
    if let Some(params) = params {
        if let Some(thread) = params.text_at("threadId") {
            if !is_blank(thread) {
                let value = Json::object().with("currentTimeAt", Json::Signed(now));
                assert(value@ =~= time_json(now));
                return Some(ClockReply::Result(value));
            }
        }
    }
    Some(
        ClockReply::Error { code: INVALID_PARAMS, message: "currentTime/read requires a non-empty threadId" },
    )
}

/// Answers a request for the time by the machine's clock.
pub fn respond(request: &ServerRequest) -> (r: Option<ClockReply>)
    ensures
        !asks_time(request@) ==> r is None,
        asks_time(request@) && names_thread(request@) ==> (r matches Some(ClockReply::Result(value)) && exists|now: i64|
            value@ == #[trigger] time_json(now)),
        asks_time(request@) && !names_thread(request@) ==> (r matches Some(ClockReply::Error { code, message }) && code
            == INVALID_PARAMS && message@ == "currentTime/read requires a non-empty threadId"@),
{
    respond_at(request, unix_seconds())
}

/// The time is told in a member of its own, and exactly as it was read: two times are told apart.
pub proof fn law_the_time_is_told_as_read(now: i64, later: i64)
    ensures
        at(time_json(now), "currentTimeAt"@) == JsonView::Integer(now as int),
        time_json(now) == time_json(later) ==> now == later,
{
    assert(at(time_json(later), "currentTimeAt"@) == JsonView::Integer(later as int));
}

/// Only requests that no protocol type takes ask for the time, and only by their method; they name a thread
/// exactly where their parameters hold a text that shows something.
pub proof fn law_the_time_is_asked_for_by_method(request: ServerRequestView, params: JsonView, thread: Seq<char>)
    ensures
        asks_time(request) <==> request.method == "currentTime/read"@ && request.body is Unmodelled,
        request.body == RequestBodyView::Unmodelled(None) ==> !names_thread(request),
        request.body == RequestBodyView::Unmodelled(Some(params)) && at(params, "threadId"@) == JsonView::Text(thread) ==> (
        names_thread(request) <==> !blank(thread)),
        request.body == RequestBodyView::Unmodelled(Some(params)) && !(at(params, "threadId"@) is Text) ==> !names_thread(
            request,
        ),
{
}

} // verus!
