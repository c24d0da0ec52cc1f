//! The transport owner's side of the inbox: which frames are served at once, which wait, and what the
//! session sees next.

use vstd::prelude::*;
use vstd::string::*;
use std::collections::VecDeque;
use crate::error::{HarnessError, HarnessErrorView};
use crate::frames::{InboxItem, InboxItemView};
use crate::native_services::{host_service, NativeServiceProviders};
use crate::protocol::{RpcId, RpcIdView, ServerMessage, ServerMessageView, ServerRequest, ServerRequestView};
use crate::text::{decimal, push_decimal};

verus! {

/// How many frames are kept for the session while a request is under way.
pub const CODEX_INBOX_RETAIN_LIMIT: usize = 65_536;

/// Why the inbox has nothing to read.
#[derive(Debug, Clone, Copy, PartialEq, Eq, Structural)]
pub enum StreamFault {
    Closed,
    /// The reader was too slow and frames were lost.
    Gap { dropped: u64 },
}

/// What ends or interrupts the session's stream.
#[derive(Debug)]
pub enum CodexStreamError {
    /// A line that was no JSON-RPC message; the stream goes on.
    NonJsonStdout { parse_error: String, raw_preview: String, raw_bytes: usize },
    Fatal(HarnessError),
}

pub enum StreamErrorView {
    NonJsonStdout { parse_error: Seq<char>, raw_preview: Seq<char>, raw_bytes: nat },
    Fatal(HarnessErrorView),
}

impl View for CodexStreamError {
    type V = StreamErrorView;

    open spec fn view(&self) -> StreamErrorView {
        match self {
            CodexStreamError::NonJsonStdout { parse_error, raw_preview, raw_bytes } => StreamErrorView::NonJsonStdout {
                parse_error: parse_error@,
                raw_preview: raw_preview@,
                raw_bytes: *raw_bytes as nat,
            },
            CodexStreamError::Fatal(error) => StreamErrorView::Fatal(error@),
        }
    }
}

/// What the session is handed: a message, the end of the stream, or an error.
pub open spec fn seen(r: Result<Option<ServerMessage>, CodexStreamError>) -> Result<
    Option<ServerMessageView>,
    StreamErrorView,
> {
    match r {
        Ok(Some(message)) => Ok(Some(message@)),
        Ok(None) => Ok(None),
        Err(error) => Err(error@),
    }
}

/// A request that the host answers itself.
pub open spec fn for_host(item: InboxItemView) -> Option<(RpcIdView, ServerRequestView)> {
    match item {
        InboxItemView::Message(ServerMessageView::Request { id, request }) if host_service(request.method) => Some(
            (id, request),
        ),
        _ => None,
    }
}

/// What a frame means to the session.
pub open spec fn surfaced(item: InboxItemView) -> Result<Option<ServerMessageView>, StreamErrorView> {
    match item {
        InboxItemView::Message(message) => Ok(Some(message)),
        InboxItemView::NonJson { parse_error, raw_preview, raw_bytes } => Err(
            StreamErrorView::NonJsonStdout { parse_error, raw_preview, raw_bytes },
        ),
        InboxItemView::Fatal(message) => Err(StreamErrorView::Fatal(HarnessErrorView::Transport(message))),
        InboxItemView::Eof => Ok(None),
    }
}

/// What the lack of a frame means to the session.
pub open spec fn surfaced_fault(fault: StreamFault) -> Result<Option<ServerMessageView>, StreamErrorView> {
    match fault {
        StreamFault::Closed => Ok(None),
        StreamFault::Gap { dropped } => Err(
            StreamErrorView::Fatal(
                HarnessErrorView::Transport("Codex inbox overflowed; "@ + decimal(dropped as nat) + " frames dropped"@),
            ),
        ),
    }
}

/// How a fault reads while a request is under way.
pub open spec fn fault_text(fault: StreamFault) -> Seq<char> {
    match fault {
        StreamFault::Closed => "Codex service inbox failed: Closed"@,
        StreamFault::Gap { dropped } => "Codex service inbox failed: Gap { dropped: "@ + decimal(dropped as nat) + " }"@,
    }
}

pub open spec fn overflow() -> HarnessErrorView {
    HarnessErrorView::Transport("Codex deferred inbox overflowed"@)
}

/// Why waiting requests fail when a service answer could not be delivered.
pub const SERVICE_DELIVERY_FAILED: &'static str = "native service response delivery failed";

/// The owner's state between frames.
#[derive(Debug)]
pub struct Intake {
    /// Frames kept for the session, oldest first.
    pub deferred: VecDeque<InboxItem>,
    /// A service request is being answered.
    pub serving: bool,
    /// A service answer failed; the connection is of no further use.
    pub service_error: Option<HarnessError>,
    /// Frames had to be given up; the session must not go on as if nothing was lost.
    pub overflowed: bool,
}

pub struct IntakeView {
    pub deferred: Seq<InboxItemView>,
    pub serving: bool,
    pub service_error: Option<HarnessErrorView>,
    pub overflowed: bool,
}

impl View for Intake {
    type V = IntakeView;

    open spec fn view(&self) -> IntakeView {
        IntakeView {
            deferred: self.deferred@.map_values(|item: InboxItem| item@),
            serving: self.serving,
            service_error: match self.service_error {
                Some(error) => Some(error@),
                None => None,
            },
            overflowed: self.overflowed,
        }
    }
}

/// What the owner does next.
#[derive(Debug)]
pub enum IntakeStep {
    /// Run the service that is under way to its end.
    Serve,
    /// Start answering this service request.
    Start { id: RpcId, request: ServerRequest },
    /// Take the next frame from the inbox.
    Receive,
    /// Hand this to the session.
    Surface(Result<Option<ServerMessage>, CodexStreamError>),
}

pub enum IntakeStepView {
    Serve,
    Start { id: RpcIdView, request: ServerRequestView },
    Receive,
    Surface(Result<Option<ServerMessageView>, StreamErrorView>),
}

impl View for IntakeStep {
    type V = IntakeStepView;

    open spec fn view(&self) -> IntakeStepView {
        match self {
            IntakeStep::Serve => IntakeStepView::Serve,
            IntakeStep::Start { id, request } => IntakeStepView::Start { id: id@, request: request@ },
            IntakeStep::Receive => IntakeStepView::Receive,
            IntakeStep::Surface(r) => IntakeStepView::Surface(seen(*r)),
        }
    }
}

/// A frame the session is due: a service request starts its service, anything else is handed over.
pub open spec fn due(item: InboxItemView) -> IntakeStepView {
    match for_host(item) {
        Some((id, request)) => IntakeStepView::Start { id, request },
        None => IntakeStepView::Surface(surfaced(item)),
    }
}

/// What the session's next message needs.
pub open spec fn next_step(intake: IntakeView) -> IntakeStepView {
    if intake.overflowed {
        IntakeStepView::Surface(Err(StreamErrorView::Fatal(overflow())))
    } else if let Some(error) = intake.service_error {
        IntakeStepView::Surface(Err(StreamErrorView::Fatal(error)))
    } else if intake.serving {
        IntakeStepView::Serve
    } else if intake.deferred.len() > 0 {
        due(intake.deferred[0])
    } else {
        IntakeStepView::Receive
    }
}

/// The state after that step was chosen.
pub open spec fn after_next(intake: IntakeView) -> IntakeView {
    if !intake.overflowed && intake.service_error is None && !intake.serving && intake.deferred.len() > 0 {
        IntakeView {
            deferred: intake.deferred.drop_first(),
            serving: for_host(intake.deferred[0]) is Some,
            ..intake
        }
    } else {
        intake
    }
}

/// The state after a frame came while a request was under way.
pub open spec fn after_frame(intake: IntakeView, item: InboxItemView) -> IntakeView {
    if for_host(item) is Some {
        IntakeView { serving: true, ..intake }
    } else if intake.deferred.len() >= CODEX_INBOX_RETAIN_LIMIT {
        IntakeView { overflowed: true, ..intake }
    } else {
        IntakeView { deferred: intake.deferred.push(item), ..intake }
    }
}

/// What the owner of a request under way does after a frame.
#[derive(Debug)]
pub enum RequestStep {
    /// Wait for the answer or the next frame.
    Wait,
    /// Answer this service request, then wait on.
    Start { id: RpcId, request: ServerRequest },
    /// Give the request up.
    Fail(HarnessError),
}

pub enum RequestStepView {
    Wait,
    Start { id: RpcIdView, request: ServerRequestView },
    Fail(HarnessErrorView),
}

impl View for RequestStep {
    type V = RequestStepView;

    open spec fn view(&self) -> RequestStepView {
        match self {
            RequestStep::Wait => RequestStepView::Wait,
            RequestStep::Start { id, request } => RequestStepView::Start { id: id@, request: request@ },
            RequestStep::Fail(error) => RequestStepView::Fail(error@),
        }
    }
}

pub open spec fn frame_step(intake: IntakeView, item: InboxItemView) -> RequestStepView {
    match for_host(item) {
        Some((id, request)) => RequestStepView::Start { id, request },
        None => if intake.deferred.len() >= CODEX_INBOX_RETAIN_LIMIT {
            RequestStepView::Fail(overflow())
        } else {
            RequestStepView::Wait
        },
    }
}

fn is_for_host(item: &InboxItem) -> (r: bool)
    ensures
        r == (for_host(item@) is Some),
{
    match item {
        InboxItem::Message(ServerMessage::Request { request, .. }) => NativeServiceProviders::handles(request),
        _ => false,
    }
}

/// What a frame means to the session.
pub fn surface(item: InboxItem) -> (r: Result<Option<ServerMessage>, CodexStreamError>)
    ensures
        seen(r) == surfaced(item@),
{
    match item {
        InboxItem::Message(message) => Ok(Some(message)),
        InboxItem::NonJson { parse_error, raw_preview, raw_bytes } => Err(
            CodexStreamError::NonJsonStdout { parse_error, raw_preview, raw_bytes },
        ),
        InboxItem::Fatal(message) => Err(CodexStreamError::Fatal(HarnessError::Transport(message))),
        InboxItem::Eof => Ok(None),
    }
}

impl Intake {
    pub fn new() -> (r: Intake)
        ensures
            r@ == (IntakeView { deferred: Seq::empty(), serving: false, service_error: None, overflowed: false }),
    {
        let r = Intake { deferred: VecDeque::new(), serving: false, service_error: None, overflowed: false };
        assert(r@.deferred =~= Seq::empty());
        r
    }

    fn classify(&mut self, item: InboxItem) -> (r: IntakeStep)
        ensures
            r@ == due(item@),
            final(self)@ == (IntakeView { serving: old(self)@.serving || for_host(item@) is Some, ..old(self)@ }),
    {
        if is_for_host(&item) {
            if let InboxItem::Message(ServerMessage::Request { id, request }) = item {
                self.serving = true;
                return IntakeStep::Start { id, request };
            }
            return IntakeStep::Receive;
        }
        IntakeStep::Surface(surface(item))
    }

    /// What the session's next message needs. A service under way is finished first; then kept frames
    /// come, oldest first; then the inbox is read.
    pub fn next(&mut self) -> (r: IntakeStep)
        ensures
            r@ == next_step(old(self)@),
            final(self)@ == after_next(old(self)@),
    {
        if self.overflowed {
            return IntakeStep::Surface(
                Err(CodexStreamError::Fatal(HarnessError::transport("Codex deferred inbox overflowed"))),
            );
        }
        if let Some(error) = &self.service_error {
            return IntakeStep::Surface(Err(CodexStreamError::Fatal(error.clone())));
        }
        if self.serving {
            return IntakeStep::Serve;
        }
        let ghost before = self@;
        match self.deferred.pop_front() {
            Some(item) => {
                assert(self@.deferred =~= before.deferred.drop_first());
                assert(item@ == before.deferred[0]);
                self.classify(item)
            },
            None => {
                assert(self@.deferred =~= before.deferred);
                IntakeStep::Receive
            },
        }
    }

    /// Goes on with what the inbox gave for the session's next message.
    pub fn received(&mut self, received: Result<InboxItem, StreamFault>) -> (r: IntakeStep)
        ensures
            match received {
                Ok(item) => r@ == due(item@) && final(self)@ == (IntakeView {
                    serving: old(self)@.serving || for_host(item@) is Some,
                    ..old(self)@
                }),
                Err(fault) => r@ == IntakeStepView::Surface(surfaced_fault(fault)) && final(self)@ == old(self)@,
            },
    {
        match received {
            Ok(item) => self.classify(item),
            Err(StreamFault::Closed) => IntakeStep::Surface(Ok(None)),
            Err(StreamFault::Gap { dropped }) => {
                let mut text = "Codex inbox overflowed; ".to_owned();
                push_decimal(&mut text, dropped);
                text.append(" frames dropped");
                IntakeStep::Surface(Err(CodexStreamError::Fatal(HarnessError::Transport(text))))
            },
        }
    }

    /// Whether a service must be finished before anything else; an earlier failure is final.
    pub fn before_request(&self) -> (r: Result<bool, HarnessError>)
        ensures
            match self@.service_error {
                Some(error) => r matches Err(found) && found@ == error,
                None => r == Ok::<bool, HarnessError>(self.serving),
            },
    {
        match &self.service_error {
            Some(error) => Err(error.clone()),
            None => Ok(self.serving),
        }
    }

    /// Goes on with what the inbox gave while a request was under way. Service requests may come before
    /// the answer; every other frame is kept for the session.
    pub fn during_request(&mut self, received: Result<InboxItem, StreamFault>) -> (r: RequestStep)
        ensures
            match received {
                Ok(item) => r@ == frame_step(old(self)@, item@) && final(self)@ == after_frame(old(self)@, item@),
                Err(fault) => r@ == RequestStepView::Fail(HarnessErrorView::Transport(fault_text(fault))) && final(
                    self)@ == old(self)@,
            },
    {
        match received {
            Ok(item) => {
                if is_for_host(&item) {
                    if let InboxItem::Message(ServerMessage::Request { id, request }) = item {
                        self.serving = true;
                        return RequestStep::Start { id, request };
                    }
                    return RequestStep::Wait;
                }
                if self.deferred.len() >= CODEX_INBOX_RETAIN_LIMIT {
                    self.overflowed = true;
                    return RequestStep::Fail(HarnessError::transport("Codex deferred inbox overflowed"));
                }
                let ghost before = self@;
                let ghost view = item@;
                self.deferred.push_back(item);
                assert(self@.deferred =~= before.deferred.push(view));
                RequestStep::Wait
            },
            Err(StreamFault::Closed) => RequestStep::Fail(HarnessError::transport("Codex service inbox failed: Closed")),
            Err(StreamFault::Gap { dropped }) => {
                let mut text = "Codex service inbox failed: Gap { dropped: ".to_owned();
                push_decimal(&mut text, dropped);
                text.append(" }");
                RequestStep::Fail(HarnessError::Transport(text))
            },
        }
    }

    /// Notes the end of a service. A failed or uncertain answer makes the connection useless instead of
    /// being given again; the waiting requests then fail for `SERVICE_DELIVERY_FAILED`.
    pub fn served(&mut self, result: Result<(), HarnessError>) -> (r: Result<(), HarnessError>)
        ensures
            match result {
                Ok(()) => r is Ok && final(self)@ == (IntakeView { serving: false, ..old(self)@ }),
                Err(error) => (r matches Err(found) && found@ == error@) && final(self)@ == (IntakeView {
                    serving: false,
                    service_error: Some(error@),
                    ..old(self)@
                }),
            },
    {
        self.serving = false;
        match result {
            Ok(()) => Ok(()),
            Err(error) => {
                self.service_error = Some(error.clone());
                Err(error)
            },
        }
    }
}

/// The state after each of `items` came while requests were under way and every service they asked
/// for was answered.
pub open spec fn after_frames(intake: IntakeView, items: Seq<InboxItemView>) -> IntakeView
    decreases items.len(),
{
    if items.len() == 0 {
        intake
    } else {
        let last = after_frame(after_frames(intake, items.drop_last()), items.last());
        if for_host(items.last()) is Some {
            IntakeView { serving: false, ..last }
        } else {
            last
        }
    }
}

/// The frames that are the session's own.
pub open spec fn for_session(items: Seq<InboxItemView>) -> Seq<InboxItemView>
    decreases items.len(),
{
    if items.len() == 0 {
        Seq::empty()
    } else if for_host(items.last()) is Some {
        for_session(items.drop_last())
    } else {
        for_session(items.drop_last()).push(items.last())
    }
}

/// Frames that come while requests are under way are neither lost nor reordered, and service requests
/// never reach the session: as long as the kept frames fit, exactly the session's own frames wait, in
/// the order they came.
pub proof fn law_frames_keep_their_order(intake: IntakeView, items: Seq<InboxItemView>)
    requires
        !intake.serving,
        intake.deferred.len() + for_session(items).len() <= CODEX_INBOX_RETAIN_LIMIT,
    ensures
        after_frames(intake, items) == (IntakeView { deferred: intake.deferred + for_session(items), ..intake }),
    decreases items.len(),
{
    if items.len() == 0 {
        assert(intake.deferred + Seq::<InboxItemView>::empty() =~= intake.deferred);
    } else {
        law_frames_keep_their_order(intake, items.drop_last());
        if for_host(items.last()) is None {
            assert((intake.deferred + for_session(items.drop_last())).push(items.last()) =~= intake.deferred + for_session(
                items,
            ));
        }
    }
}

/// The session sees kept frames in the order they are kept, one per step.
pub proof fn law_kept_frames_come_in_turn(intake: IntakeView)
    requires
        !intake.overflowed,
        intake.service_error is None,
        !intake.serving,
        intake.deferred.len() > 0,
        for_host(intake.deferred[0]) is None,
    ensures
        next_step(intake) == IntakeStepView::Surface(surfaced(intake.deferred[0])),
        after_next(intake) == (IntakeView { deferred: intake.deferred.drop_first(), ..intake }),
{
}

/// An overflow or a failed service is final: from then on the session sees that failure, and no step
/// changes it.
pub proof fn law_failures_are_final(intake: IntakeView, item: InboxItemView)
    requires
        intake.overflowed || intake.service_error is Some,
    ensures
        next_step(intake) matches IntakeStepView::Surface(r) && (r matches Err(error) && error is Fatal),
        after_next(intake) == intake,
        intake.overflowed ==> after_frame(intake, item).overflowed,
        after_frame(intake, item).service_error == intake.service_error,
{
}

/// A service that was started is finished before anything else, however often the reading is broken
/// off: nothing is started again, and no frame is taken in between.
pub proof fn law_services_are_resumed(intake: IntakeView)
    requires
        intake.serving,
        !intake.overflowed,
        intake.service_error is None,
    ensures
        next_step(intake) is Serve,
        after_next(intake) == intake,
{
}

/// The inbox is read only when no service is under way and no kept frame is due.
pub proof fn law_reads_come_last(intake: IntakeView)
    ensures
        next_step(intake) is Receive <==> (!intake.overflowed && intake.service_error is None && !intake.serving
            && intake.deferred.len() == 0),
{
}

/// The host answers exactly the requests for its two services; no notification, and nothing that is no message,
/// is for the host.
pub proof fn law_the_host_answers_its_services(item: InboxItemView, id: RpcIdView, request: ServerRequestView)
    ensures
        for_host(item) == Some((id, request)) <==> item == InboxItemView::Message(
            ServerMessageView::Request { id, request },
        ) && (request.method == "attestation/generate"@ || request.method == "account/chatgptAuthTokens/refresh"@),
        item matches InboxItemView::Message(ServerMessageView::Notification { .. }) ==> for_host(item) is None,
        !(item is Message) ==> for_host(item) is None,
{
}

/// The session is handed every message as it is, learns what a stray line was, and learns of the end and of a
/// failure of the stream.
pub proof fn law_frames_are_handed_over_as_they_are(
    message: ServerMessageView,
    parse_error: Seq<char>,
    raw_preview: Seq<char>,
    raw_bytes: nat,
    dropped: u64,
)
    ensures
        surfaced(InboxItemView::Message(message)) == Ok::<Option<ServerMessageView>, StreamErrorView>(Some(message)),
        surfaced(InboxItemView::Eof) == Ok::<Option<ServerMessageView>, StreamErrorView>(None),
        surfaced(InboxItemView::NonJson { parse_error, raw_preview, raw_bytes }) matches Err(
            StreamErrorView::NonJsonStdout { parse_error: e, raw_preview: p, raw_bytes: n },
        ) && e == parse_error && p == raw_preview && n == raw_bytes,
        surfaced(InboxItemView::Fatal(raw_preview)) == Err::<Option<ServerMessageView>, StreamErrorView>(
            StreamErrorView::Fatal(HarnessErrorView::Transport(raw_preview)),
        ),
        surfaced_fault(StreamFault::Closed) == Ok::<Option<ServerMessageView>, StreamErrorView>(None),
        surfaced_fault(StreamFault::Gap { dropped }) matches Err(StreamErrorView::Fatal(HarnessErrorView::Transport(text)))
            && exists|before: Seq<char>, after: Seq<char>| text == #[trigger] (before + decimal(dropped as nat) + after),
        exists|before: Seq<char>, after: Seq<char>|
            fault_text(StreamFault::Gap { dropped }) == #[trigger] (before + decimal(dropped as nat) + after),
        "Closed"@.is_suffix_of(fault_text(StreamFault::Closed)),
{
    assert(surfaced_fault(StreamFault::Gap { dropped })->Err_0->Fatal_0->Transport_0 == "Codex inbox overflowed; "@ + decimal(
        dropped as nat,
    ) + " frames dropped"@);
    assert(fault_text(StreamFault::Gap { dropped }) == "Codex service inbox failed: Gap { dropped: "@ + decimal(dropped as nat)
        + " }"@);
    reveal_strlit("Closed");
    reveal_strlit("Codex service inbox failed: Closed");
    assert("Codex service inbox failed: Closed"@.subrange(28, 34) =~= "Closed"@);
}

/// A frame that comes while a request is under way either starts a service, or is kept behind the others, or,
/// with 65,536 kept already, ends the request and the session's trust in what it is shown.
pub proof fn law_frames_under_way_are_kept_or_served(intake: IntakeView, item: InboxItemView)
    ensures
        ({
            let then = after_frame(intake, item);
            let step = frame_step(intake, item);
            &&& for_host(item) matches Some((id, request)) ==> step == (RequestStepView::Start { id, request }) && then.serving
                && then.deferred == intake.deferred && then.overflowed == intake.overflowed
            &&& for_host(item) is None && intake.deferred.len() < 65_536 ==> step is Wait && then.deferred
                == intake.deferred.push(item) && then.serving == intake.serving && then.overflowed == intake.overflowed
            &&& for_host(item) is None && intake.deferred.len() >= 65_536 ==> step == RequestStepView::Fail(overflow())
                && then.overflowed && then.deferred == intake.deferred && then.serving == intake.serving
            &&& then.service_error == intake.service_error
        }),
        overflow() is Transport,
{
}

/// Once frames were lost, the session is told of that alone; a failed service is told in its own words.
pub proof fn law_losses_are_told_first(intake: IntakeView)
    ensures
        intake.overflowed ==> next_step(intake) == IntakeStepView::Surface(Err(StreamErrorView::Fatal(overflow()))),
        !intake.overflowed ==> (intake.service_error matches Some(error) ==> next_step(intake) == IntakeStepView::Surface(
            Err(StreamErrorView::Fatal(error)),
        )),
{
}

/// A service request that was kept starts its service when its turn comes, and is never shown to the session.
pub proof fn law_kept_services_are_started(intake: IntakeView, id: RpcIdView, request: ServerRequestView)
    requires
        !intake.overflowed,
        intake.service_error is None,
        !intake.serving,
        intake.deferred.len() > 0,
        intake.deferred[0] == InboxItemView::Message(ServerMessageView::Request { id, request }),
        request.method == "attestation/generate"@ || request.method == "account/chatgptAuthTokens/refresh"@,
    ensures
        next_step(intake) == (IntakeStepView::Start { id, request }),
        after_next(intake).serving,
        after_next(intake).deferred == intake.deferred.drop_first(),
{
}

} // verus!
