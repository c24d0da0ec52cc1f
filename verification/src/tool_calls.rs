//! Calls of client-executed tools while a connection lasts: which run, which results still have to be
//! delivered, and that no call is ever executed twice.

use vstd::prelude::*;
use vstd::string::*;
use crate::dynamic_tools::{
    addressed, argument_complaint, judged, tool_for, unknown_tool, DynamicToolConfig, Registry, RegistryView, MAX_CONCURRENT,
};
use crate::error::{HarnessError, HarnessErrorView, ThreadId, TurnId};
use crate::goals_queue::texts;
use crate::json::{opt_json, Json};
use crate::schema::value_fault;
use crate::steady::steady;
use crate::protocol::{DynamicToolCallParams, ToolCallView};
use crate::table::Table;
use crate::tool_runs::{failed, output_json, ContentItemView, Output, OutputView};

verus! {

/// A call under way.
#[derive(Debug, Clone, Copy)]
pub struct Running {
    pub thread: ThreadId,
    pub turn: Option<TurnId>,
    /// The worker that runs it.
    pub task: u64,
}

/// A call whose result has not been delivered.
#[derive(Debug)]
pub struct Finished {
    pub thread: ThreadId,
    pub turn: Option<TurnId>,
    pub output: Output,
}

pub struct FinishedView {
    pub thread: ThreadId,
    pub turn: Option<TurnId>,
    pub output: OutputView,
}

impl View for Finished {
    type V = FinishedView;

    open spec fn view(&self) -> FinishedView {
        FinishedView { thread: self.thread, turn: self.turn, output: self.output@ }
    }
}

/// The calls of a connection.
#[derive(Debug)]
pub struct Calls {
    running: Table<Running>,
    finished: Table<Finished>,
}

#[verifier::ext_equal]
pub struct CallsView {
    pub running: Map<Seq<char>, Running>,
    pub finished: Map<Seq<char>, FinishedView>,
}

impl View for Calls {
    type V = CallsView;

    closed spec fn view(&self) -> CallsView {
        CallsView {
            running: self.running@,
            finished: self.finished@.map_values(|f: Finished| f@),
        }
    }
}

/// A call that is running or whose result waits for delivery.
pub open spec fn owned(calls: CallsView, id: Seq<char>) -> bool {
    calls.running.dom().contains(id) || calls.finished.dom().contains(id)
}

/// Every slot is held by a call or by a result that waits for delivery.
pub open spec fn full(calls: CallsView) -> bool {
    calls.running.dom().len() + calls.finished.dom().len() >= MAX_CONCURRENT
}

/// The state after a call's result came in.
pub open spec fn with_result(calls: CallsView, id: Seq<char>, result: FinishedView) -> CallsView {
    CallsView { finished: calls.finished.insert(id, result), ..calls }
}

/// What the user is told of a result.
pub open spec fn notice(id: Seq<char>, output: OutputView) -> Option<HarnessErrorView> {
    if output.success {
        None
    } else {
        Some(
            HarnessErrorView::Protocol(
                "Client tool request "@ + id + " failed: "@ + (match output.diagnostic {
                    Some(text) => text,
                    None => "executor reported an unsuccessful result; see the tool output"@,
                }),
            ),
        )
    }
}

pub open spec fn opt_error(error: Option<HarnessError>) -> Option<HarnessErrorView> {
    match error {
        Some(error) => Some(error@),
        None => None,
    }
}

pub fn failure_notice(id: &str, output: &Output) -> (r: Option<HarnessError>)
    ensures
        opt_error(r) == notice(id@, output@),
{
    if output.success {
        return None;
    }
    let mut message = "Client tool request ".to_owned();
    message.append(id);
    message.append(" failed: ");
    match &output.diagnostic {
        Some(text) => message.append(text.as_str()),
        None => message.append("executor reported an unsuccessful result; see the tool output"),
    }
    Some(HarnessError::Protocol(message))
}

pub open spec fn at_capacity() -> Seq<char> {
    "client tool executor capacity limit reached (16 running or undelivered results)"@
}

/// Why a call is answered at once instead of being run.
pub open spec fn refused_because(calls: CallsView, registry: RegistryView, call: ToolCallView, message: Seq<char>) -> bool {
    if full(calls) {
        message == at_capacity()
    } else if !addressed(call) {
        message == "dynamic tool call requires threadId, turnId and callId"@
    } else {
        match tool_for(registry.tools, call) {
            None => message == unknown_tool(call),
            Some(tool) => exists|place: Seq<char>|
                message == #[trigger] argument_complaint(place) && judged(tool, call, Some(place)),
        }
    }
}

/// What to do about a call that may have been seen before.
#[derive(Debug, Clone, Copy, PartialEq, Eq, Structural)]
pub enum Repeat {
    /// Not seen before.
    Fresh,
    /// Still running: the repetition is ignored.
    Ignore,
    /// Finished: the same result is sent again.
    Resend,
}

/// What became of a worker.
#[derive(Debug)]
pub enum TaskOutcome {
    Completed { id: String, output: Output },
    Cancelled,
    Crashed { task: u64 },
}

/// A result that is to be delivered now, and what the user is told of it.
#[derive(Debug)]
pub struct Delivery {
    pub id: String,
    pub thread: ThreadId,
    pub turn: Option<TurnId>,
    pub notice: Option<HarnessError>,
}

/// A delivery of the result that `calls` holds under its id.
pub open spec fn announces(delivery: Delivery, id: Seq<char>, result: FinishedView) -> bool {
    &&& delivery.id@ == id
    &&& delivery.thread == result.thread
    &&& delivery.turn == result.turn
    &&& opt_error(delivery.notice) == notice(id, result.output)
}

impl Calls {
    pub closed spec fn wf(&self) -> bool {
        self.running.wf() && self.finished.wf()
    }

    pub fn new() -> (r: Calls)
        ensures
            r.wf(),
            r@ == (CallsView { running: Map::empty(), finished: Map::empty() }),
    {
        let r = Calls { running: Table::new(), finished: Table::new() };
        assert(r@ =~= (CallsView { running: Map::empty(), finished: Map::empty() }));
        r
    }

    pub fn owns(&self, id: &str) -> (r: bool)
        requires
            self.wf(),
        ensures
            r == owned(self@, id@),
    {
        self.running.contains(id) || self.finished.contains(id)
    }

    /// The calls whose results have not been delivered.
    pub fn undelivered_ids(&self) -> (r: Vec<String>)
        requires
            self.wf(),
        ensures
            texts(r@).no_duplicates(),
            forall|id: Seq<char>| #[trigger] texts(r@).contains(id) <==> self@.finished.dom().contains(id),
    {
        self.finished.keys()
    }

    pub fn running_ids(&self) -> (r: Vec<String>)
        requires
            self.wf(),
        ensures
            texts(r@).no_duplicates(),
            forall|id: Seq<char>| #[trigger] texts(r@).contains(id) <==> self@.running.dom().contains(id),
    {
        self.running.keys()
    }

    /// What to do about a call: only a tool call that is already owned is a repetition.
    pub fn repeated(&self, id: &str, tool_call: bool) -> (r: Repeat)
        requires
            self.wf(),
        ensures
            r == (if !tool_call || !owned(self@, id@) {
                Repeat::Fresh
            } else if self@.finished.dom().contains(id@) {
                Repeat::Resend
            } else {
                Repeat::Ignore
            }),
    {
        if !tool_call || !self.owns(id) {
            return Repeat::Fresh;
        }
        if self.finished.contains(id) {
            Repeat::Resend
        } else {
            Repeat::Ignore
        }
    }

    /// Whether a new call finds a free slot.
    pub fn has_room(&self) -> (r: bool)
        requires
            self.wf(),
        ensures
            r == !full(self@),
            self@.running.dom().finite(),
            self@.finished.dom().finite(),
    {
        let running: usize = self.running.len();
        let finished: usize = self.finished.len();
        assert(self@.finished.dom() =~= self.finished@.dom());
        running < MAX_CONCURRENT && finished < MAX_CONCURRENT - running
    }

    /// Keeps a result until its delivery is confirmed.
    fn keep(&mut self, id: String, thread: ThreadId, turn: Option<TurnId>, output: Output) -> (r: Delivery)
        requires
            old(self).wf(),
        ensures
            final(self).wf(),
            final(self)@ == with_result(old(self)@, id@, FinishedView { thread, turn, output: output@ }),
            announces(r, id@, FinishedView { thread, turn, output: output@ }),
    {
        let ghost before = self@;
        let notice = failure_notice(id.as_str(), &output);
        let delivery = Delivery { id: id.clone(), thread, turn, notice };
        let ghost result = FinishedView { thread, turn, output: output@ };
        self.finished.insert(id, Finished { thread, turn, output });
        assert(self@ =~= with_result(before, id@, result));
        delivery
    }

    /// Starts a call, `executor` being the tool it may run or why it may not. Without a free slot, or
    /// without a tool, the call is answered at once.
    pub fn begin_with(
        &mut self,
        id: String,
        thread: ThreadId,
        turn: Option<TurnId>,
        task: u64,
        executor: Result<DynamicToolConfig, String>,
    ) -> (r: Result<DynamicToolConfig, Delivery>)
        requires
            old(self).wf(),
        ensures
            final(self).wf(),
            if full(old(self)@) {
                let result = FinishedView { thread, turn, output: failed(at_capacity()) };
                &&& final(self)@ == with_result(old(self)@, id@, result)
                &&& r matches Err(delivery) && announces(delivery, id@, result)
            } else {
                match executor {
                    Ok(tool) => {
                        &&& final(self)@ == (CallsView {
                            running: old(self)@.running.insert(id@, Running { thread, turn, task }),
                            ..old(self)@
                        })
                        &&& r matches Ok(found) && found == tool
                    },
                    Err(message) => {
                        let result = FinishedView { thread, turn, output: failed(message@) };
                        &&& final(self)@ == with_result(old(self)@, id@, result)
                        &&& r matches Err(delivery) && announces(delivery, id@, result)
                    },
                }
            },
    {
        let ghost before = self@;
        if !self.has_room() {
            let output = Output::failure(
                "client tool executor capacity limit reached (16 running or undelivered results)".to_owned(),
            );
            return Err(self.keep(id, thread, turn, output));
        }
        match executor {
            Ok(tool) => {
                self.running.insert(id, Running { thread, turn, task });
                assert(self@ =~= (CallsView {
                    running: before.running.insert(id@, Running { thread, turn, task }),
                    ..before
                }));
                Ok(tool)
            },
            Err(message) => {
                let output = Output::failure(message);
                Err(self.keep(id, thread, turn, output))
            },
        }
    }

    /// Starts a call of a registered tool. The registry is asked only where a slot is free.
    pub fn begin(
        &mut self,
        id: String,
        thread: ThreadId,
        turn: Option<TurnId>,
        task: u64,
        registry: &Registry,
        params: &DynamicToolCallParams,
    ) -> (r: Result<DynamicToolConfig, Delivery>)
        requires
            old(self).wf(),
            registry.wf(),
        ensures
            final(self).wf(),
            ({
                let tool = tool_for(registry@.tools, params@);
                &&& steady(params@.arguments) ==> (r is Ok <==> !full(old(self)@) && addressed(params@) && (tool matches Some(t)
                    && value_fault(t.input_schema, params@.arguments) is None))
                &&& r matches Ok(found) ==> !full(old(self)@) && addressed(params@) && (tool matches Some(t) && found@ == t
                    && judged(t, params@, None)) && final(self)@ == (CallsView {
                    running: old(self)@.running.insert(id@, Running { thread, turn, task }),
                    ..old(self)@
                })
                &&& r matches Err(delivery) ==> exists|message: Seq<char>|
                    {
                        let result = FinishedView { thread, turn, output: #[trigger] failed(message) };
                        &&& final(self)@ == with_result(old(self)@, id@, result)
                        &&& announces(delivery, id@, result)
                        &&& refused_because(old(self)@, registry@, params@, message)
                    }
            }),
    {
        let executor = if self.has_room() {
            registry.executor(params)
        } else {
            Err("client tool executor capacity limit reached (16 running or undelivered results)".to_owned())
        };
        let ghost told = executor->Err_0@;
        let r = self.begin_with(id, thread, turn, task, executor);
        proof {
            if r is Err {
                assert(refused_because(old(self)@, registry@, params@, told));
                let result = FinishedView { thread, turn, output: failed(told) };
                assert(self@ == with_result(old(self)@, id@, result));
            }
        }
        r
    }

    /// Notes what became of a worker. A completion after a cancellation is dropped; a worker that
    /// crashed still gets its call answered.
    pub fn finish(&mut self, outcome: TaskOutcome) -> (r: Option<Delivery>)
        requires
            old(self).wf(),
        ensures
            final(self).wf(),
            match outcome {
                TaskOutcome::Completed { id, output } => if old(self)@.running.dom().contains(id@) {
                    let call = old(self)@.running[id@];
                    let result = FinishedView { thread: call.thread, turn: call.turn, output: output@ };
                    &&& final(self)@ == with_result(
                        (CallsView { running: old(self)@.running.remove(id@), ..old(self)@ }),
                        id@,
                        result,
                    )
                    &&& r matches Some(delivery) && announces(delivery, id@, result)
                } else {
                    r is None && final(self)@ == old(self)@
                },
                TaskOutcome::Cancelled => r is None && final(self)@ == old(self)@,
                TaskOutcome::Crashed { task } => match r {
                    None => final(self)@ == old(self)@ && forall|id: Seq<char>| #[trigger]
                        old(self)@.running.dom().contains(id) ==> old(self)@.running[id].task != task,
                    Some(delivery) => {
                        let id = delivery.id@;
                        let call = old(self)@.running[id];
                        let result = FinishedView {
                            thread: call.thread,
                            turn: call.turn,
                            output: failed("client tool process task failed"@),
                        };
                        &&& old(self)@.running.dom().contains(id)
                        &&& call.task == task
                        &&& final(self)@ == with_result(
                            (CallsView { running: old(self)@.running.remove(id), ..old(self)@ }),
                            id,
                            result,
                        )
                        &&& announces(delivery, id, result)
                    },
                },
            },
    {
        let ghost before = self@;
        match outcome {
            TaskOutcome::Completed { id, output } => match self.running.remove(id.as_str()) {
                Some(call) => {
                    assert(self@ =~= (CallsView { running: before.running.remove(id@), ..before }));
                    Some(self.keep(id, call.thread, call.turn, output))
                },
                None => {
                    assert(self@.running =~= before.running);
                    assert(self@ =~= before);
                    None
                },
            },
            TaskOutcome::Cancelled => None,
            TaskOutcome::Crashed { task } => {
                let ids = self.running.keys();
                let mut i: usize = 0;
                while i < ids.len()
                    invariant
                        i <= ids@.len(),
                        self.wf(),
                        self@ == before,
                        before == old(self)@,
                        outcome == (TaskOutcome::Crashed { task }),
                        forall|id: Seq<char>| #[trigger] texts(ids@).contains(id) <==> before.running.dom().contains(id),
                        forall|k: int| 0 <= k < i ==> before.running[(#[trigger] ids@[k])@].task != task,
                    decreases ids@.len() - i,
                {
                    let found = match self.running.get(ids[i].as_str()) {
                        Some(call) => call.task == task,
                        None => false,
                    };
                    assert(texts(ids@)[i as int] == ids@[i as int]@);
                    assert(texts(ids@).contains(ids@[i as int]@));
                    if found {
                        let id = ids[i].clone();
                        if let Some(call) = self.running.remove(id.as_str()) {
                            assert(self@ =~= (CallsView { running: before.running.remove(id@), ..before }));
                            let output = Output::failure("client tool process task failed".to_owned());
                            return Some(self.keep(id, call.thread, call.turn, output));
                        }
                        return None;
                    }
                    i += 1;
                }
                assert forall|id: Seq<char>| #[trigger] before.running.dom().contains(id) implies before.running[id].task
                    != task by {
                    assert(texts(ids@).contains(id));
                    let k = choose|k: int| 0 <= k < texts(ids@).len() && texts(ids@)[k] == id;
                    assert(ids@[k]@ == id);
                }
                None
            },
        }
    }

    /// The result that is to be delivered for a call, if one waits.
    pub fn cached(&self, id: &str) -> (r: Option<Json>)
        requires
            self.wf(),
        ensures
            opt_json(r) == (if self@.finished.dom().contains(id@) {
                Some(output_json(self@.finished[id@].output))
            } else {
                None
            }),
    {
        match self.finished.get(id) {
            Some(finished) => Some(finished.output.value()),
            None => None,
        }
    }

    /// Notes whether a result was delivered. Only a confirmed delivery lets it go.
    pub fn confirm(&mut self, id: &str, delivered: bool)
        requires
            old(self).wf(),
        ensures
            final(self).wf(),
            final(self)@ == (if delivered {
                CallsView { finished: old(self)@.finished.remove(id@), ..old(self)@ }
            } else {
                old(self)@
            }),
    {
        let ghost before = self@;
        if delivered {
            let _ = self.finished.remove(id);
            assert(self@ =~= (CallsView { finished: before.finished.remove(id@), ..before }));
        }
    }
}

/// A call that an interruption of the thread, or of just one turn of it, ends.
pub open spec fn interrupted(call: Running, thread: ThreadId, turn: Option<TurnId>) -> bool {
    call.thread == thread && (turn is None || call.turn == turn)
}

pub open spec fn cancellation(reason: Seq<char>) -> Seq<char> {
    "client tool cancelled: "@ + reason
}

/// The state after the calls among `ids` that the interruption ends were cancelled.
spec fn after_cancelling(
    calls: CallsView,
    ids: Seq<Seq<char>>,
    thread: ThreadId,
    turn: Option<TurnId>,
    reason: Seq<char>,
) -> CallsView
    decreases ids.len(),
{
    if ids.len() == 0 {
        calls
    } else {
        let before = after_cancelling(calls, ids.drop_last(), thread, turn, reason);
        let id = ids.last();
        let call = calls.running[id];
        if interrupted(call, thread, turn) {
            with_result(
                CallsView { running: before.running.remove(id), ..before },
                id,
                FinishedView { thread, turn: call.turn, output: failed(cancellation(reason)) },
            )
        } else {
            before
        }
    }
}

/// What cancelling leaves of each call.
proof fn lemma_after_cancelling(
    calls: CallsView,
    ids: Seq<Seq<char>>,
    thread: ThreadId,
    turn: Option<TurnId>,
    reason: Seq<char>,
    id: Seq<char>,
)
    ensures
        ({
            let after = after_cancelling(calls, ids, thread, turn, reason);
            let ended = ids.contains(id) && interrupted(calls.running[id], thread, turn);
            &&& after.running.dom().contains(id) == (calls.running.dom().contains(id) && !ended)
            &&& after.running.dom().contains(id) ==> after.running[id] == calls.running[id]
            &&& after.finished.dom().contains(id) == (calls.finished.dom().contains(id) || ended)
            &&& ended ==> after.finished[id] == (FinishedView {
                thread,
                turn: calls.running[id].turn,
                output: failed(cancellation(reason)),
            })
            &&& !ended && calls.finished.dom().contains(id) ==> after.finished[id] == calls.finished[id]
        }),
    decreases ids.len(),
{
    if ids.len() > 0 {
        let front = ids.drop_last();
        lemma_after_cancelling(calls, front, thread, turn, reason, id);
        if ids.contains(id) && !front.contains(id) {
            let k = choose|k: int| 0 <= k < ids.len() && ids[k] == id;
            if k < front.len() {
                assert(front[k] == id);
            }
        }
        if front.contains(id) {
            let k = choose|k: int| 0 <= k < front.len() && front[k] == id;
            assert(ids[k] == id);
        }
        assert(ids[ids.len() - 1] == ids.last());
    }
}

/// A call that was cancelled: the worker to stop, and the result to deliver.
#[derive(Debug)]
pub struct CancelledCall {
    pub task: u64,
    pub delivery: Delivery,
}

/// The state after an interruption: the calls it ends are answered as cancelled, every other call and
/// every result stays.
pub open spec fn after_interruption(
    calls: CallsView,
    thread: ThreadId,
    turn: Option<TurnId>,
    reason: Seq<char>,
) -> CallsView {
    CallsView {
        running: Map::new(
            |id: Seq<char>| calls.running.dom().contains(id) && !interrupted(calls.running[id], thread, turn),
            |id: Seq<char>| calls.running[id],
        ),
        finished: Map::new(
            |id: Seq<char>|
                calls.finished.dom().contains(id) || (calls.running.dom().contains(id) && interrupted(
                    calls.running[id],
                    thread,
                    turn,
                )),
            |id: Seq<char>|
                if calls.running.dom().contains(id) && interrupted(calls.running[id], thread, turn) {
                    FinishedView { thread, turn: calls.running[id].turn, output: failed(cancellation(reason)) }
                } else {
                    calls.finished[id]
                },
        ),
    }
}

/// Which of `calls` a list of cancelled calls tells of.
spec fn tells_of(
    list: Seq<CancelledCall>,
    calls: CallsView,
    ids: Seq<Seq<char>>,
    thread: ThreadId,
    turn: Option<TurnId>,
    reason: Seq<char>,
) -> bool {
    &&& forall|k: int|
        0 <= k < list.len() ==> {
            let id = (#[trigger] list[k]).delivery.id@;
            &&& ids.contains(id) && interrupted(calls.running[id], thread, turn)
            &&& list[k].task == calls.running[id].task
            &&& announces(
                list[k].delivery,
                id,
                FinishedView { thread, turn: calls.running[id].turn, output: failed(cancellation(reason)) },
            )
        }
    &&& forall|id: Seq<char>| #[trigger]
        ids.contains(id) && interrupted(calls.running[id], thread, turn) ==> exists|k: int|
            0 <= k < list.len() && (#[trigger] list[k]).delivery.id@ == id
    &&& forall|i: int, j: int|
        0 <= i < j < list.len() ==> (#[trigger] list[i]).delivery.id@ != (#[trigger] list[j]).delivery.id@
}

impl Calls {
    /// Cancels the calls of a thread, or of just one turn of it. Each is answered as cancelled, once; its
    /// worker is to be stopped.
    pub fn cancel(&mut self, thread: ThreadId, turn: Option<TurnId>, reason: &str) -> (r: Vec<CancelledCall>)
        requires
            old(self).wf(),
        ensures
            final(self).wf(),
            final(self)@ == after_interruption(old(self)@, thread, turn, reason@),
            forall|k: int|
                0 <= k < r@.len() ==> {
                    let id = (#[trigger] r@[k]).delivery.id@;
                    &&& old(self)@.running.dom().contains(id) && interrupted(old(self)@.running[id], thread, turn)
                    &&& r@[k].task == old(self)@.running[id].task
                    &&& announces(
                        r@[k].delivery,
                        id,
                        FinishedView {
                            thread,
                            turn: old(self)@.running[id].turn,
                            output: failed(cancellation(reason@)),
                        },
                    )
                },
            forall|id: Seq<char>| #[trigger]
                old(self)@.running.dom().contains(id) && interrupted(old(self)@.running[id], thread, turn) ==> exists|k: int|
                    0 <= k < r@.len() && (#[trigger] r@[k]).delivery.id@ == id,
            forall|i: int, j: int|
                0 <= i < j < r@.len() ==> (#[trigger] r@[i]).delivery.id@ != (#[trigger] r@[j]).delivery.id@,
    {
        let ghost before = self@;
        let keys = self.running.keys();
        let ghost ids = texts(keys@);
        let mut list: Vec<CancelledCall> = Vec::new();
        let mut i: usize = 0;
        assert(ids.take(0) =~= Seq::<Seq<char>>::empty());
        while i < keys.len()
            invariant
                i <= keys@.len(),
                self.wf(),
                before == old(self)@,
                ids == texts(keys@),
                ids.no_duplicates(),
                forall|id: Seq<char>| #[trigger] ids.contains(id) <==> before.running.dom().contains(id),
                self@ == after_cancelling(before, ids.take(i as int), thread, turn, reason@),
                tells_of(list@, before, ids.take(i as int), thread, turn, reason@),
            decreases keys@.len() - i,
        {
            let ghost done = ids.take(i as int);
            let ghost next = ids.take(i + 1);
            let ghost id = ids[i as int];
            assert(next.drop_last() =~= done);
            assert(next.last() == id);
            assert(keys@[i as int]@ == id);
            assert(ids.contains(id));
            assert(!done.contains(id)) by {
                if done.contains(id) {
                    let k = choose|k: int| 0 <= k < done.len() && done[k] == id;
                    assert(ids[k] == ids[i as int]);
                }
            }
            proof {
                lemma_after_cancelling(before, done, thread, turn, reason@, id);
            }
            assert forall|other: Seq<char>| next.contains(other) == (done.contains(other) || other == id) by {
                if next.contains(other) {
                    let k = choose|k: int| 0 <= k < next.len() && next[k] == other;
                    if k < done.len() {
                        assert(done[k] == other);
                    }
                }
                if done.contains(other) {
                    let k = choose|k: int| 0 <= k < done.len() && done[k] == other;
                    assert(next[k] == other);
                }
                assert(next[i as int] == id);
            }
            let ghost listed = list@;
            let call: Option<Running> = match self.running.get(keys[i].as_str()) {
                Some(call) => Some(*call),
                None => None,
            };
            if let Some(call) = call {
                if call.thread == thread && (turn.is_none() || call.turn == turn) {
                    let ghost state = self@;
                    let _ = self.running.remove(keys[i].as_str());
                    assert(self@ =~= (CallsView { running: state.running.remove(id), ..state }));
                    let mut message = "client tool cancelled: ".to_owned();
                    message.append(reason);
                    let delivery = self.keep(keys[i].clone(), thread, call.turn, Output::failure(message));
                    list.push(CancelledCall { task: call.task, delivery });
                    assert(list@[listed.len() as int].delivery.id@ == id);
                    assert forall|other: Seq<char>| #[trigger]
                        next.contains(other) && interrupted(before.running[other], thread, turn) implies exists|k: int|
                        0 <= k < list@.len() && (#[trigger] list@[k]).delivery.id@ == other by {
                        if other == id {
                            assert(list@[listed.len() as int].delivery.id@ == other);
                        } else {
                            assert(done.contains(other));
                            let k = choose|k: int| 0 <= k < listed.len() && (#[trigger] listed[k]).delivery.id@ == other;
                            assert(list@[k].delivery.id@ == other);
                        }
                    }
                    assert forall|a: int, b: int| 0 <= a < b < list@.len() implies (#[trigger] list@[a]).delivery.id@ != (
                    #[trigger] list@[b]).delivery.id@ by {
                        assert(list@[a] == listed[a]);
                        assert(done.contains(listed[a].delivery.id@));
                        if b < listed.len() {
                            assert(list@[b] == listed[b]);
                        }
                    }
                    assert(tells_of(list@, before, next, thread, turn, reason@));
                }
            }
            i += 1;
        }
        proof {
            assert(ids.take(ids.len() as int) =~= ids);
            let target = after_interruption(before, thread, turn, reason@);
            assert forall|id: Seq<char>| #[trigger] self@.running.dom().contains(id) == target.running.dom().contains(id) by {
                lemma_after_cancelling(before, ids, thread, turn, reason@, id);
                assert(ids.contains(id) <==> before.running.dom().contains(id));
            }
            assert forall|id: Seq<char>| #[trigger] self@.running.dom().contains(id) implies self@.running[id]
                == target.running[id] by {
                lemma_after_cancelling(before, ids, thread, turn, reason@, id);
                assert(ids.contains(id) <==> before.running.dom().contains(id));
            }
            assert forall|id: Seq<char>| #[trigger] self@.finished.dom().contains(id) == target.finished.dom().contains(id) by {
                lemma_after_cancelling(before, ids, thread, turn, reason@, id);
                assert(ids.contains(id) <==> before.running.dom().contains(id));
            }
            assert forall|id: Seq<char>| #[trigger] self@.finished.dom().contains(id) implies self@.finished[id]
                == target.finished[id] by {
                lemma_after_cancelling(before, ids, thread, turn, reason@, id);
                assert(ids.contains(id) <==> before.running.dom().contains(id));
            }
            assert(self@.running =~= target.running);
            assert(self@.finished =~= target.finished);
            assert forall|id: Seq<char>| #[trigger]
                before.running.dom().contains(id) && interrupted(before.running[id], thread, turn) implies exists|k: int|
                0 <= k < list@.len() && (#[trigger] list@[k]).delivery.id@ == id by {
                assert(ids.contains(id));
            }
        }
        list
    }

    /// Ends everything as the connection closes: results are discarded, and the workers told are to be
    /// stopped.
    pub fn abort_all(&mut self) -> (r: Vec<u64>)
        requires
            old(self).wf(),
        ensures
            final(self).wf(),
            final(self)@ == (CallsView { running: Map::empty(), finished: Map::empty() }),
            forall|task: u64| #[trigger]
                r@.contains(task) <==> exists|id: Seq<char>|
                    #[trigger] old(self)@.running.dom().contains(id) && old(self)@.running[id].task == task,
    {
        let ghost before = self@;
        let keys = self.running.keys();
        let ghost ids = texts(keys@);
        let mut tasks: Vec<u64> = Vec::new();
        let mut i: usize = 0;
        while i < keys.len()
            invariant
                i <= keys@.len(),
                self.wf(),
                self@ == before,
                ids == texts(keys@),
                forall|id: Seq<char>| #[trigger] ids.contains(id) <==> before.running.dom().contains(id),
                tasks@.len() == i,
                forall|k: int| 0 <= k < i ==> #[trigger] tasks@[k] == before.running[ids[k]].task,
            decreases keys@.len() - i,
        {
            assert(ids[i as int] == keys@[i as int]@);
            assert(ids.contains(ids[i as int]));
            let task: u64 = match self.running.get(keys[i].as_str()) {
                Some(call) => call.task,
                None => 0,
            };
            tasks.push(task);
            i += 1;
        }
        assert forall|task: u64| #[trigger]
            tasks@.contains(task) <==> exists|id: Seq<char>|
                #[trigger] before.running.dom().contains(id) && before.running[id].task == task by {
            if tasks@.contains(task) {
                let k = choose|k: int| 0 <= k < tasks@.len() && tasks@[k] == task;
                assert(ids.contains(ids[k]));
            }
            if exists|id: Seq<char>| #[trigger] before.running.dom().contains(id) && before.running[id].task == task {
                let id = choose|id: Seq<char>| #[trigger] before.running.dom().contains(id) && before.running[id].task == task;
                assert(ids.contains(id));
                let k = choose|k: int| 0 <= k < ids.len() && ids[k] == id;
                assert(tasks@[k] == task);
            }
        }
        self.running = Table::new();
        self.finished = Table::new();
        assert(self@ =~= (CallsView { running: Map::empty(), finished: Map::empty() }));
        tasks
    }
}

/// Something that happens to the calls of a connection.
pub enum CallEvent {
    Started { id: Seq<char>, call: Running },
    Answered { id: Seq<char>, result: FinishedView },
    Delivered { id: Seq<char> },
    Interrupted { thread: ThreadId, turn: Option<TurnId>, reason: Seq<char> },
}

/// The calls after each of `events`.
pub open spec fn after_events(calls: CallsView, events: Seq<CallEvent>) -> CallsView
    decreases events.len(),
{
    if events.len() == 0 {
        calls
    } else {
        let before = after_events(calls, events.drop_last());
        match events.last() {
            CallEvent::Started { id, call } => CallsView { running: before.running.insert(id, call), ..before },
            CallEvent::Answered { id, result } => with_result(
                CallsView { running: before.running.remove(id), ..before },
                id,
                result,
            ),
            CallEvent::Delivered { id } => CallsView { finished: before.finished.remove(id), ..before },
            CallEvent::Interrupted { thread, turn, reason } => after_interruption(before, thread, turn, reason),
        }
    }
}

/// An event about the call itself.
pub open spec fn concerns(event: CallEvent, id: Seq<char>) -> bool {
    match event {
        CallEvent::Started { id: other, .. } => other == id,
        CallEvent::Answered { id: other, .. } => other == id,
        CallEvent::Delivered { id: other } => other == id,
        CallEvent::Interrupted { .. } => false,
    }
}

/// A kept result lasts until its delivery is confirmed: whatever happens to other calls, and whatever is
/// interrupted, the call stays owned, so it is not run again, and the result to deliver stays the same.
pub proof fn law_kept_results_last(calls: CallsView, events: Seq<CallEvent>, id: Seq<char>)
    requires
        calls.finished.dom().contains(id),
        !calls.running.dom().contains(id),
        forall|i: int| 0 <= i < events.len() ==> !concerns(#[trigger] events[i], id),
    ensures
        owned(after_events(calls, events), id),
        !after_events(calls, events).running.dom().contains(id),
        after_events(calls, events).finished.dom().contains(id),
        after_events(calls, events).finished[id] == calls.finished[id],
    decreases events.len(),
{
    if events.len() > 0 {
        let front = events.drop_last();
        assert forall|i: int| 0 <= i < front.len() implies !concerns(#[trigger] front[i], id) by {
            assert(front[i] == events[i]);
        }
        law_kept_results_last(calls, front, id);
        assert(!concerns(events[events.len() - 1], id));
    }
}

/// Calls start only where a slot is free.
pub open spec fn only_into_free_slots(calls: CallsView, events: Seq<CallEvent>) -> bool
    decreases events.len(),
{
    events.len() == 0 || (only_into_free_slots(calls, events.drop_last()) && (events.last() is Started ==> !full(
        after_events(calls, events.drop_last()),
    )))
}

/// The number of running calls is bounded, whatever happens.
pub proof fn law_running_calls_are_bounded(calls: CallsView, events: Seq<CallEvent>)
    requires
        calls.running.dom().finite(),
        calls.running.dom().len() <= MAX_CONCURRENT,
        only_into_free_slots(calls, events),
    ensures
        after_events(calls, events).running.dom().finite(),
        after_events(calls, events).running.dom().len() <= MAX_CONCURRENT,
    decreases events.len(),
{
    if events.len() > 0 {
        let before = after_events(calls, events.drop_last());
        let after = after_events(calls, events);
        law_running_calls_are_bounded(calls, events.drop_last());
        match events.last() {
            CallEvent::Started { id, call } => {
                assert(after.running.dom() =~= before.running.dom().insert(id));
            },
            CallEvent::Answered { id, result } => {
                assert(after.running.dom() =~= before.running.dom().remove(id));
            },
            CallEvent::Delivered { id } => {},
            CallEvent::Interrupted { thread, turn, reason } => {
                assert(after.running.dom().subset_of(before.running.dom()));
                vstd::set_lib::lemma_len_subset(after.running.dom(), before.running.dom());
            },
        }
    }
}

/// Undelivered results keep their slots: with all of them held, no further call starts, whatever else
/// is cancelled or comes in meanwhile, until a delivery is confirmed.
pub proof fn law_undelivered_results_hold_capacity(
    calls: CallsView,
    thread: ThreadId,
    turn: Option<TurnId>,
    reason: Seq<char>,
)
    requires
        calls.running.dom().finite(),
        calls.finished.dom().finite(),
        calls.finished.dom().len() >= MAX_CONCURRENT,
    ensures
        full(calls),
        full(after_interruption(calls, thread, turn, reason)),
        calls.finished.dom().subset_of(after_interruption(calls, thread, turn, reason).finished.dom()),
{
    let after = after_interruption(calls, thread, turn, reason);
    assert(calls.finished.dom().subset_of(after.finished.dom()));
    assert(after.finished.dom().subset_of(calls.finished.dom().union(calls.running.dom())));
    vstd::set_lib::lemma_len_subset(after.finished.dom(), calls.finished.dom().union(calls.running.dom()));
    vstd::set_lib::lemma_len_subset(calls.finished.dom(), after.finished.dom());
}

/// An interruption ends only what it is about: calls of other threads, and of other turns where just
/// one turn is interrupted, keep running, and every kept result of a call that is not running stays.
pub proof fn law_cancellation_is_scoped(
    calls: CallsView,
    thread: ThreadId,
    turn: Option<TurnId>,
    reason: Seq<char>,
    id: Seq<char>,
)
    ensures
        ({
            let after = after_interruption(calls, thread, turn, reason);
            &&& calls.running.dom().contains(id) && !interrupted(calls.running[id], thread, turn)
                ==> after.running.dom().contains(id) && after.running[id] == calls.running[id]
            &&& !calls.running.dom().contains(id) && calls.finished.dom().contains(id) ==> after.finished.dom().contains(id)
                && after.finished[id] == calls.finished[id]
            &&& owned(calls, id) ==> owned(after, id)
        }),
{
}

/// Sixteen calls and undelivered results are the most that there may be before another call starts.
pub proof fn law_sixteen_slots(calls: CallsView)
    ensures
        full(calls) <==> calls.running.dom().len() + calls.finished.dom().len() > 15,
{
}

/// A result is kept under the call's own id, and nothing else changes.
pub proof fn law_results_are_kept_under_their_call(calls: CallsView, id: Seq<char>, result: FinishedView, other: Seq<char>)
    ensures
        ({
            let after = with_result(calls, id, result);
            &&& after.finished.dom().contains(id) && after.finished[id] == result
            &&& owned(after, id)
            &&& after.running == calls.running
            &&& other != id ==> after.finished.dom().contains(other) == calls.finished.dom().contains(other)
            &&& other != id && calls.finished.dom().contains(other) ==> after.finished[other] == calls.finished[other]
        }),
        owned(calls, id) <==> calls.running.dom().contains(id) || calls.finished.dom().contains(id),
{
}

/// The user hears of a result exactly where it failed: which call, and why, as far as that is known.
pub proof fn law_failures_reach_the_user(id: Seq<char>, output: OutputView)
    ensures
        output.success <==> notice(id, output) is None,
        !output.success ==> (notice(id, output) matches Some(HarnessErrorView::Protocol(text)) && (exists|
            before: Seq<char>,
            after: Seq<char>,
        | text == #[trigger] (before + id + after)) && (output.diagnostic matches Some(why) ==> why.is_suffix_of(text))),
{
    if !output.success {
        let why = match output.diagnostic {
            Some(text) => text,
            None => "executor reported an unsuccessful result; see the tool output"@,
        };
        let text = notice(id, output)->0->Protocol_0;
        assert(text =~= "Client tool request "@ + id + (" failed: "@ + why));
        assert(why.is_suffix_of(text));
    }
}

/// An interruption of a thread ends all its calls; one of a turn ends just the calls of that turn. Each call that
/// it ends stops running and is kept as a failure of its own turn that tells the reason.
pub proof fn law_interrupted_calls_are_answered(
    calls: CallsView,
    thread: ThreadId,
    turn: Option<TurnId>,
    reason: Seq<char>,
    id: Seq<char>,
)
    requires
        calls.running.dom().contains(id),
    ensures
        ({
            let after = after_interruption(calls, thread, turn, reason);
            let call = calls.running[id];
            let ended = call.thread == thread && (turn matches Some(t) ==> call.turn == Some(t));
            &&& after.running.dom().contains(id) <==> !ended
            &&& ended ==> {
                &&& after.finished.dom().contains(id)
                &&& after.finished[id].thread == thread
                &&& after.finished[id].turn == call.turn
                &&& !after.finished[id].output.success
                &&& after.finished[id].output.diagnostic matches Some(text) && reason.is_suffix_of(text)
                    && after.finished[id].output.content_items == seq![ContentItemView::Text(text)]
            }
            &&& !ended ==> after.finished.dom().contains(id) == calls.finished.dom().contains(id)
        }),
{
    assert(reason.is_suffix_of(cancellation(reason)));
}

/// A call is refused for want of a slot before anything else, then for its address, then for its tool, then for
/// its arguments, and the refusal says so.
pub proof fn law_refusals_come_in_order(calls: CallsView, registry: RegistryView, call: ToolCallView, message: Seq<char>)
    requires
        refused_because(calls, registry, call, message),
    ensures
        calls.running.dom().len() + calls.finished.dom().len() >= 16 ==> message == at_capacity(),
        !full(calls) && !addressed(call) ==> "dynamic tool call requires"@.is_prefix_of(message),
        !full(calls) && addressed(call) && tool_for(registry.tools, call) is None ==> message == unknown_tool(call),
        !full(calls) && addressed(call) ==> (tool_for(registry.tools, call) matches Some(tool) ==> (steady(call.arguments) ==> (
        value_fault(tool.input_schema, call.arguments) matches Some(place) && message == argument_complaint(place)))),
        "client tool executor capacity limit reached (16"@.is_prefix_of(at_capacity()),
{
    reveal_strlit("dynamic tool call requires");
    reveal_strlit("dynamic tool call requires threadId, turnId and callId");
    reveal_strlit("client tool executor capacity limit reached (16");
    reveal_strlit("client tool executor capacity limit reached (16 running or undelivered results)");
}

/// A delivery is for the call it names, goes to the call's own thread and turn, and tells the user of a failure,
/// and of nothing else.
pub proof fn law_deliveries_go_where_the_call_came_from(delivery: Delivery, id: Seq<char>, result: FinishedView)
    ensures
        announces(delivery, id, result) ==> {
            &&& delivery.id@ == id
            &&& delivery.thread == result.thread
            &&& delivery.turn == result.turn
            &&& delivery.notice is None <==> result.output.success
            &&& delivery.notice matches Some(told) ==> Some(told@) == notice(id, result.output)
        },
        delivery.id@ == id && delivery.thread == result.thread && delivery.turn == result.turn && delivery.notice is None
            && result.output.success ==> announces(delivery, id, result),
{
}

} // verus!
