//! One run of a client-executed tool: what it reads, and what its outcome is answered with.

use vstd::prelude::*;
use vstd::string::*;
use vstd::utf8::*;
use crate::dynamic_tools::MAX_BYTES;
use crate::json::{array_view, at, member, opt_text, print, printed, Json, JsonView};
use crate::protocol::{DynamicToolCallParams, ToolCallView};
use crate::text::{decimal, push_decimal};

verus! {

/// A piece of a tool's result.
#[derive(Debug)]
pub enum ContentItem {
    Text { text: String },
    Image { image_url: String },
    Audio { audio_url: String },
}

pub enum ContentItemView {
    Text(Seq<char>),
    Image(Seq<char>),
    Audio(Seq<char>),
}

impl View for ContentItem {
    type V = ContentItemView;

    open spec fn view(&self) -> ContentItemView {
        match self {
            ContentItem::Text { text } => ContentItemView::Text(text@),
            ContentItem::Image { image_url } => ContentItemView::Image(image_url@),
            ContentItem::Audio { audio_url } => ContentItemView::Audio(audio_url@),
        }
    }
}

/// A tool's result, with what is to be told of a failure of the run itself.
#[derive(Debug)]
pub struct Output {
    pub success: bool,
    pub content_items: Vec<ContentItem>,
    pub diagnostic: Option<String>,
}

pub struct OutputView {
    pub success: bool,
    pub content_items: Seq<ContentItemView>,
    pub diagnostic: Option<Seq<char>>,
}

impl View for Output {
    type V = OutputView;

    open spec fn view(&self) -> OutputView {
        OutputView {
            success: self.success,
            content_items: self.content_items@.map_values(|item: ContentItem| item@),
            diagnostic: opt_text(self.diagnostic),
        }
    }
}

/// A failure that is told both to the model and to the user.
pub open spec fn failed(message: Seq<char>) -> OutputView {
    OutputView { success: false, content_items: seq![ContentItemView::Text(message)], diagnostic: Some(message) }
}

pub open spec fn item_json(item: ContentItemView) -> JsonView {
    match item {
        ContentItemView::Text(text) => JsonView::Object(
            map!["type"@ => JsonView::Text("inputText"@), "text"@ => JsonView::Text(text)],
        ),
        ContentItemView::Image(url) => JsonView::Object(
            map!["type"@ => JsonView::Text("inputImage"@), "imageUrl"@ => JsonView::Text(url)],
        ),
        ContentItemView::Audio(url) => JsonView::Object(
            map!["type"@ => JsonView::Text("inputAudio"@), "audioUrl"@ => JsonView::Text(url)],
        ),
    }
}

/// A result as the app-server reads it; the diagnostic stays here.
pub open spec fn output_json(output: OutputView) -> JsonView {
    JsonView::Object(
        map![
            "success"@ => JsonView::Bool(output.success),
            "contentItems"@ => JsonView::Array(output.content_items.map_values(|item: ContentItemView| item_json(item))),
        ],
    )
}

fn item_document(item: &ContentItem) -> (r: Json)
    ensures
        r@ == item_json(item@),
{
    let r = match item {
        ContentItem::Text { text } => Json::object().with("type", Json::text("inputText")).with(
            "text",
            Json::Text(text.clone()),
        ),
        ContentItem::Image { image_url } => Json::object().with("type", Json::text("inputImage")).with(
            "imageUrl",
            Json::Text(image_url.clone()),
        ),
        ContentItem::Audio { audio_url } => Json::object().with("type", Json::text("inputAudio")).with(
            "audioUrl",
            Json::Text(audio_url.clone()),
        ),
    };
    assert(r@ =~= item_json(item@));
    r
}

impl Output {
    pub fn failure(message: String) -> (r: Output)
        ensures
            r@ == failed(message@),
    {
        let ghost text = message@;
        let mut content_items: Vec<ContentItem> = Vec::new();
        content_items.push(ContentItem::Text { text: message.clone() });
        let r = Output { success: false, content_items, diagnostic: Some(message) };
        assert(r@.content_items =~= failed(text).content_items);
        r
    }

    /// The result as the app-server reads it.
    pub fn value(&self) -> (r: Json)
        ensures
            r@ == output_json(self@),
    {
        let ghost all = self@.content_items;
        let mut items: Vec<Json> = Vec::new();
        let mut i: usize = 0;
        assert(array_view(items@) =~= all.take(0).map_values(|item: ContentItemView| item_json(item)));
        while i < self.content_items.len()
            invariant
                i <= self.content_items@.len(),
                all == self@.content_items,
                array_view(items@) == all.take(i as int).map_values(|item: ContentItemView| item_json(item)),
            decreases self.content_items@.len() - i,
        {
            let ghost before = items@;
            assert(all[i as int] == self.content_items@[i as int]@);
            items.push(item_document(&self.content_items[i]));
            assert(items@.drop_last() =~= before);
            assert(array_view(items@) =~= all.take(i + 1).map_values(|item: ContentItemView| item_json(item)));
            i += 1;
        }
        assert(all.take(all.len() as int) =~= all);
        let r = Json::object().with("success", Json::Bool(self.success)).with("contentItems", Json::Array(items));
        assert(r@ =~= output_json(self@));
        r
    }
}

/// A call as its tool reads it; a namespace is named only where there is one.
pub open spec fn call_json(call: ToolCallView) -> JsonView {
    let base = map![
        "arguments"@ => call.arguments,
        "callId"@ => JsonView::Text(call.call_id),
        "threadId"@ => JsonView::Text(call.thread_id),
        "tool"@ => JsonView::Text(call.tool),
        "turnId"@ => JsonView::Text(call.turn_id),
    ];
    JsonView::Object(
        match call.namespace {
            Some(namespace) => base.insert("namespace"@, JsonView::Text(namespace)),
            None => base,
        },
    )
}

/// The line a tool reads, given how the call prints.
pub open spec fn input_line(text: Seq<char>) -> Result<Seq<char>, Seq<char>> {
    if encode_utf8(text).len() > MAX_BYTES {
        Err("dynamic tool input exceeds 1 MiB"@)
    } else {
        Ok(text + "\n"@)
    }
}

pub fn bounded_input(text: String) -> (r: Result<String, &'static str>)
    ensures
        match input_line(text@) {
            Ok(line) => r matches Ok(found) && found@ == line,
            Err(fault) => r matches Err(message) && message@ == fault,
        },
{
    if text.as_str().as_bytes().len() > MAX_BYTES {
        return Err("dynamic tool input exceeds 1 MiB");
    }
    let mut line = text;
    line.append("\n");
    Ok(line)
}

/// The line a tool reads for a call.
pub fn tool_input(params: &DynamicToolCallParams) -> (r: Result<String, &'static str>)
    ensures
        match input_line(printed(call_json(params@))) {
            Ok(line) => r matches Ok(found) && found@ == line,
            Err(fault) => r matches Err(message) && message@ == fault,
        },
{
    let base = Json::object().with("arguments", params.arguments.clone()).with(
        "callId",
        Json::Text(params.call_id.clone()),
    ).with("threadId", Json::Text(params.thread_id.clone())).with("tool", Json::Text(params.tool.clone())).with(
        "turnId",
        Json::Text(params.turn_id.clone()),
    );
    let document = match &params.namespace {
        Some(namespace) => base.with("namespace", Json::Text(namespace.clone())),
        None => base,
    };
    assert(document@ =~= call_json(params@));
    bounded_input(print(&document))
}

/// What a tool printed on one stream, if it is not too much.
pub fn bounded_output(bytes: Vec<u8>) -> (r: Result<Vec<u8>, &'static str>)
    ensures
        bytes@.len() <= MAX_BYTES ==> r == Ok::<Vec<u8>, &'static str>(bytes),
        bytes@.len() > MAX_BYTES ==> (r matches Err(message) && message@ == "executor output exceeds 1 MiB"@),
{
    if bytes.len() > MAX_BYTES {
        return Err("executor output exceeds 1 MiB");
    }
    Ok(bytes)
}

/// How a run went.
#[derive(Debug)]
pub enum ToolRun {
    /// The call itself could not be handed over.
    Unsendable(String),
    SpawnFailed(String),
    NoStdin,
    NoStdout,
    NoStderr,
    WriteFailed(String),
    CloseFailed(String),
    ReadFailed(String),
    TooMuchOutput,
    WaitFailed(String),
    TimedOut { ms: u64 },
    /// It exited unsuccessfully.
    Exited { status: String, stderr_bytes: usize },
    /// It exited successfully, but what it printed is no typed result; the place of the first fault.
    Malformed { line: usize, column: usize },
    /// It exited successfully with a typed result.
    Done { success: bool, content_items: Vec<ContentItem> },
}

/// What reading a tool's output as a typed result gave.
#[derive(Debug)]
pub enum Decoded {
    Typed { success: bool, content_items: Vec<ContentItem> },
    /// No typed result; the place of the first fault.
    Fault { line: usize, column: usize },
}

/// How a run went that came to its end: an unsuccessful exit counts before anything that was printed.
pub fn ended(succeeded: bool, status: String, stderr_bytes: usize, decoded: Decoded) -> (r: ToolRun)
    ensures
        r == (if !succeeded {
            ToolRun::Exited { status, stderr_bytes }
        } else {
            match decoded {
                Decoded::Typed { success, content_items } => ToolRun::Done { success, content_items },
                Decoded::Fault { line, column } => ToolRun::Malformed { line, column },
            }
        }),
{
    if !succeeded {
        return ToolRun::Exited { status, stderr_bytes };
    }
    match decoded {
        Decoded::Typed { success, content_items } => ToolRun::Done { success, content_items },
        Decoded::Fault { line, column } => ToolRun::Malformed { line, column },
    }
}

/// Why a run failed, in words.
pub open spec fn run_fault(run: ToolRun) -> Option<Seq<char>> {
    match run {
        ToolRun::Unsendable(message) => Some(message@),
        ToolRun::SpawnFailed(e) => Some("spawning configured client executor: "@ + e@),
        ToolRun::NoStdin => Some("executor stdin unavailable"@),
        ToolRun::NoStdout => Some("executor stdout unavailable"@),
        ToolRun::NoStderr => Some("executor stderr unavailable"@),
        ToolRun::WriteFailed(e) => Some("writing executor input: "@ + e@),
        ToolRun::CloseFailed(e) => Some("closing executor input: "@ + e@),
        ToolRun::ReadFailed(e) => Some("reading executor output: "@ + e@),
        ToolRun::TooMuchOutput => Some("executor output exceeds 1 MiB"@),
        ToolRun::WaitFailed(e) => Some("waiting for executor: "@ + e@),
        ToolRun::TimedOut { ms } => Some("client tool executor timed out after "@ + decimal(ms as nat) + " ms"@),
        ToolRun::Exited { status, stderr_bytes } => Some(
            "client tool executor exited with "@ + status@ + " ("@ + decimal(stderr_bytes as nat) + " stderr bytes)"@,
        ),
        ToolRun::Malformed { line, column } => Some(
            "executor must return one typed contentItems/success JSON object (invalid output at line "@ + decimal(line as nat)
                + ", column "@ + decimal(column as nat) + ")"@,
        ),
        ToolRun::Done { .. } => None,
    }
}

/// What a run is answered with.
pub open spec fn run_output(run: ToolRun) -> OutputView {
    match run_fault(run) {
        Some(fault) => failed(fault),
        None => OutputView {
            success: run->Done_success,
            content_items: run->Done_content_items@.map_values(|item: ContentItem| item@),
            diagnostic: None,
        },
    }
}

fn prefixed(prefix: &str, detail: &str) -> (r: String)
    ensures
        r@ == prefix@ + detail@,
{
    let mut message = prefix.to_owned();
    message.append(detail);
    message
}

/// What a run is answered with.
pub fn settle(run: ToolRun) -> (r: Output)
    ensures
        r@ == run_output(run),
{
    let message = match run {
        ToolRun::Done { success, content_items } => {
            return Output { success, content_items, diagnostic: None };
        },
        ToolRun::Unsendable(message) => message,
        ToolRun::SpawnFailed(e) => prefixed("spawning configured client executor: ", e.as_str()),
        ToolRun::NoStdin => "executor stdin unavailable".to_owned(),
        ToolRun::NoStdout => "executor stdout unavailable".to_owned(),
        ToolRun::NoStderr => "executor stderr unavailable".to_owned(),
        ToolRun::WriteFailed(e) => prefixed("writing executor input: ", e.as_str()),
        ToolRun::CloseFailed(e) => prefixed("closing executor input: ", e.as_str()),
        ToolRun::ReadFailed(e) => prefixed("reading executor output: ", e.as_str()),
        ToolRun::TooMuchOutput => "executor output exceeds 1 MiB".to_owned(),
        ToolRun::WaitFailed(e) => prefixed("waiting for executor: ", e.as_str()),
        ToolRun::TimedOut { ms } => {
            let mut message = "client tool executor timed out after ".to_owned();
            push_decimal(&mut message, ms);
            message.append(" ms");
            message
        },
        ToolRun::Exited { status, stderr_bytes } => {
            let mut message = prefixed("client tool executor exited with ", status.as_str());
            message.append(" (");
            push_decimal(&mut message, stderr_bytes as u64);
            message.append(" stderr bytes)");
            message
        },
        ToolRun::Malformed { line, column } => {
            let mut message =
                "executor must return one typed contentItems/success JSON object (invalid output at line ".to_owned();
            push_decimal(&mut message, line as u64);
            message.append(", column ");
            push_decimal(&mut message, column as u64);
            message.append(")");
            message
        },
    };
    Output::failure(message)
}

/// Success is never made up: only a run that printed a typed, successful result is answered with one,
/// and just with that result.
pub proof fn law_success_is_never_made_up(run: ToolRun)
    ensures
        run_output(run).success ==> run is Done && run->Done_success && run_output(run).content_items
            == run->Done_content_items@.map_values(|item: ContentItem| item@),
        !run_output(run).success && !(run is Done) ==> run_output(run).diagnostic is Some,
{
}

/// What a tool printed is never part of what is told of a malformed result: two runs that fail at the
/// same place are answered alike.
pub proof fn law_malformed_output_is_never_echoed(line: usize, column: usize)
    ensures
        run_output(ToolRun::Malformed { line, column }) == failed(
            "executor must return one typed contentItems/success JSON object (invalid output at line "@ + decimal(line as nat)
                + ", column "@ + decimal(column as nat) + ")"@,
        ),
{
}

/// The names of a result's and a call's members are told apart.
proof fn lemma_result_names()
    ensures
        "success"@ != "contentItems"@,
        "type"@ != "text"@,
        "type"@ != "imageUrl"@,
        "type"@ != "audioUrl"@,
        "text"@ != "imageUrl"@,
        "text"@ != "audioUrl"@,
        "imageUrl"@ != "audioUrl"@,
        "arguments"@ != "callId"@,
        "arguments"@ != "threadId"@,
        "arguments"@ != "tool"@,
        "arguments"@ != "turnId"@,
        "arguments"@ != "namespace"@,
        "callId"@ != "threadId"@,
        "callId"@ != "tool"@,
        "callId"@ != "turnId"@,
        "callId"@ != "namespace"@,
        "threadId"@ != "tool"@,
        "threadId"@ != "turnId"@,
        "threadId"@ != "namespace"@,
        "tool"@ != "turnId"@,
        "tool"@ != "namespace"@,
        "turnId"@ != "namespace"@,
{
    reveal_strlit("success");
    reveal_strlit("contentItems");
    reveal_strlit("type");
    reveal_strlit("text");
    reveal_strlit("imageUrl");
    reveal_strlit("audioUrl");
    reveal_strlit("arguments");
    reveal_strlit("callId");
    reveal_strlit("threadId");
    reveal_strlit("tool");
    reveal_strlit("turnId");
    reveal_strlit("namespace");
    assert("success"@.len() != "contentItems"@.len());
    assert("type"@[1] != "text"@[1]);
    assert("type"@.len() != "imageUrl"@.len());
    assert("type"@.len() != "audioUrl"@.len());
    assert("text"@.len() != "imageUrl"@.len());
    assert("text"@.len() != "audioUrl"@.len());
    assert("imageUrl"@[0] != "audioUrl"@[0]);
    assert("arguments"@.len() != "callId"@.len());
    assert("arguments"@.len() != "threadId"@.len());
    assert("arguments"@.len() != "tool"@.len());
    assert("arguments"@.len() != "turnId"@.len());
    assert("arguments"@[0] != "namespace"@[0]);
    assert("callId"@.len() != "threadId"@.len());
    assert("callId"@.len() != "tool"@.len());
    assert("callId"@[0] != "turnId"@[0]);
    assert("callId"@.len() != "namespace"@.len());
    assert("threadId"@.len() != "tool"@.len());
    assert("threadId"@.len() != "turnId"@.len());
    assert("threadId"@.len() != "namespace"@.len());
    assert("tool"@.len() != "turnId"@.len());
    assert("tool"@.len() != "namespace"@.len());
    assert("turnId"@.len() != "namespace"@.len());
}

/// A failure is told in the same words to the model, as the one text of an unsuccessful result, and to the user.
pub proof fn law_failures_are_told_to_both(message: Seq<char>)
    ensures
        !failed(message).success,
        failed(message).content_items.len() == 1,
        failed(message).content_items[0] == ContentItemView::Text(message),
        failed(message).diagnostic == Some(message),
{
}

/// A result is written with what it holds: whether it succeeded, and its pieces in their order, each under the
/// name of its kind. What is told of the run stays out of it.
pub proof fn law_results_are_written_in_full(output: OutputView, i: int)
    requires
        0 <= i < output.content_items.len(),
    ensures
        at(output_json(output), "success"@) == JsonView::Bool(output.success),
        at(output_json(output), "contentItems"@) matches JsonView::Array(items) && items.len() == output.content_items.len() && (
        match output.content_items[i] {
            ContentItemView::Text(text) => at(items[i], "type"@) == JsonView::Text("inputText"@) && at(items[i], "text"@)
                == JsonView::Text(text),
            ContentItemView::Image(url) => at(items[i], "type"@) == JsonView::Text("inputImage"@) && at(items[i], "imageUrl"@)
                == JsonView::Text(url),
            ContentItemView::Audio(url) => at(items[i], "type"@) == JsonView::Text("inputAudio"@) && at(items[i], "audioUrl"@)
                == JsonView::Text(url),
        }),
        forall|diagnostic: Option<Seq<char>>|
            output_json(#[trigger] with_diagnostic(output, diagnostic)) == output_json(output),
{
    lemma_result_names();
}

/// The result with another word on the run.
pub open spec fn with_diagnostic(output: OutputView, diagnostic: Option<Seq<char>>) -> OutputView {
    OutputView { diagnostic, ..output }
}

/// A tool reads the whole call, each part under its own name; a namespace only where there is one.
pub proof fn law_tools_read_the_whole_call(call: ToolCallView)
    ensures
        member(call_json(call), "arguments"@) == Some(call.arguments),
        member(call_json(call), "callId"@) == Some(JsonView::Text(call.call_id)),
        member(call_json(call), "threadId"@) == Some(JsonView::Text(call.thread_id)),
        member(call_json(call), "tool"@) == Some(JsonView::Text(call.tool)),
        member(call_json(call), "turnId"@) == Some(JsonView::Text(call.turn_id)),
        member(call_json(call), "namespace"@) == (match call.namespace {
            Some(namespace) => Some(JsonView::Text(namespace)),
            None => None,
        }),
{
    lemma_result_names();
}

/// A tool reads one line, of at most a mebibyte before its end; a longer one is not sent.
pub proof fn law_input_is_one_bounded_line(text: Seq<char>)
    ensures
        input_line(text) is Ok <==> encode_utf8(text).len() <= 1024 * 1024,
        input_line(text) matches Ok(line) ==> line == text.push('\n'),
{
    reveal_strlit("\n");
    assert(text + "\n"@ =~= text.push('\n'));
}

/// Each failure of a run says at which step it failed and holds what came from there: the error, the time, the
/// exit status and how much was printed, or the place of the fault.
pub proof fn law_failed_runs_tell_their_step(
    e: String,
    ms: u64,
    status: String,
    stderr_bytes: usize,
    line: usize,
    column: usize,
)
    ensures
        run_fault(ToolRun::Unsendable(e)) == Some(e@),
        run_fault(ToolRun::SpawnFailed(e)) matches Some(text) && "spawning"@.is_prefix_of(text) && e@.is_suffix_of(text),
        run_fault(ToolRun::WriteFailed(e)) matches Some(text) && "writing"@.is_prefix_of(text) && e@.is_suffix_of(text),
        run_fault(ToolRun::CloseFailed(e)) matches Some(text) && "closing"@.is_prefix_of(text) && e@.is_suffix_of(text),
        run_fault(ToolRun::ReadFailed(e)) matches Some(text) && "reading"@.is_prefix_of(text) && e@.is_suffix_of(text),
        run_fault(ToolRun::WaitFailed(e)) matches Some(text) && "waiting"@.is_prefix_of(text) && e@.is_suffix_of(text),
        run_fault(ToolRun::NoStdin) matches Some(text) && "executor stdin"@.is_prefix_of(text),
        run_fault(ToolRun::NoStdout) matches Some(text) && "executor stdout"@.is_prefix_of(text),
        run_fault(ToolRun::NoStderr) matches Some(text) && "executor stderr"@.is_prefix_of(text),
        run_fault(ToolRun::TooMuchOutput) matches Some(text) && "executor output exceeds"@.is_prefix_of(text),
        run_fault(ToolRun::TimedOut { ms }) matches Some(text) && exists|before: Seq<char>|
            text == #[trigger] (before + decimal(ms as nat) + " ms"@),
        run_fault(ToolRun::Exited { status, stderr_bytes }) matches Some(text) && exists|before: Seq<char>|
            text == #[trigger] (before + status@ + " ("@ + decimal(stderr_bytes as nat) + " stderr bytes)"@),
        run_fault(ToolRun::Malformed { line, column }) matches Some(text) && exists|before: Seq<char>, between: Seq<char>|
            text == #[trigger] (before + decimal(line as nat) + between + decimal(column as nat) + ")"@),
{
    reveal_strlit("spawning");
    reveal_strlit("spawning configured client executor: ");
    reveal_strlit("writing");
    reveal_strlit("writing executor input: ");
    reveal_strlit("closing");
    reveal_strlit("closing executor input: ");
    reveal_strlit("reading");
    reveal_strlit("reading executor output: ");
    reveal_strlit("waiting");
    reveal_strlit("waiting for executor: ");
    reveal_strlit("executor stdin");
    reveal_strlit("executor stdin unavailable");
    reveal_strlit("executor stdout");
    reveal_strlit("executor stdout unavailable");
    reveal_strlit("executor stderr");
    reveal_strlit("executor stderr unavailable");
    reveal_strlit("executor output exceeds");
    reveal_strlit("executor output exceeds 1 MiB");
    assert(run_fault(ToolRun::TimedOut { ms })->0 == "client tool executor timed out after "@ + decimal(ms as nat) + " ms"@);
    assert(run_fault(ToolRun::Exited { status, stderr_bytes })->0 == "client tool executor exited with "@ + status@ + " ("@
        + decimal(stderr_bytes as nat) + " stderr bytes)"@);
    assert(run_fault(ToolRun::Malformed { line, column })->0
        == "executor must return one typed contentItems/success JSON object (invalid output at line "@ + decimal(line as nat)
        + ", column "@ + decimal(column as nat) + ")"@);
}

/// A run that came to its end with a typed result is answered with just that; every other run is answered with
/// its fault, told to both sides.
pub proof fn law_runs_are_answered(run: ToolRun)
    ensures
        run_fault(run) is None <==> run is Done,
        run_fault(run) matches Some(fault) ==> {
            &&& !run_output(run).success
            &&& run_output(run).content_items.len() == 1
            &&& run_output(run).content_items[0] == ContentItemView::Text(fault)
            &&& run_output(run).diagnostic == Some(fault)
        },
        run matches ToolRun::Done { success, content_items } ==> {
            &&& run_output(run).success == success
            &&& run_output(run).content_items.len() == content_items@.len()
            &&& forall|i: int| 0 <= i < content_items@.len() ==> #[trigger] run_output(run).content_items[i] == content_items@[i]@
            &&& run_output(run).diagnostic is None
        },
{
}

} // verus!
