//! Requests to the app-server and the answers they wait for.

use vstd::prelude::*;
use crate::error::{HarnessError, HarnessErrorView};
use crate::frames::{request_frame, request_json, Frame};
use crate::json::{printed, Json};
use crate::protocol::{id_text, RpcId, RpcIdView};

verus! {

/// The requests that wait for an answer, each with the handle `W` that its answer goes to.
pub struct Waiters<W> {
    entries: Vec<(RpcId, W)>,
    next_id: i64,
}

/// The identity after `id`; identities start over at the lowest one.
pub open spec fn following(id: i64) -> i64 {
    if id == i64::MAX {
        i64::MIN
    } else {
        (id + 1) as i64
    }
}

/// The handles by identity; a later entry counts.
pub open spec fn handles_of<W>(entries: Seq<(RpcId, W)>) -> Map<RpcIdView, W>
    decreases entries.len(),
{
    if entries.len() == 0 {
        Map::empty()
    } else {
        handles_of(entries.drop_last()).insert(entries.last().0@, entries.last().1)
    }
}

proof fn lemma_handles<W>(entries: Seq<(RpcId, W)>)
    ensures
        forall|id: RpcIdView| #[trigger]
            handles_of(entries).dom().contains(id) <==> exists|k: int| 0 <= k < entries.len() && (#[trigger] entries[k]).0@ == id,
    decreases entries.len(),
{
    if entries.len() > 0 {
        let front = entries.drop_last();
        lemma_handles(front);
        assert forall|id: RpcIdView| #[trigger] handles_of(entries).dom().contains(id) <==> exists|k: int|
            0 <= k < entries.len() && (#[trigger] entries[k]).0@ == id by {
            if handles_of(front).dom().contains(id) {
                let k = choose|k: int| 0 <= k < front.len() && (#[trigger] front[k]).0@ == id;
                assert(entries[k].0@ == id);
            }
            if exists|k: int| 0 <= k < entries.len() && (#[trigger] entries[k]).0@ == id {
                let k = choose|k: int| 0 <= k < entries.len() && (#[trigger] entries[k]).0@ == id;
                if k < front.len() {
                    assert(front[k].0@ == id);
                    assert(handles_of(front).dom().contains(id));
                }
            }
            assert(entries[entries.len() - 1] == entries.last());
        }
    }
}

proof fn lemma_handles_remove<W>(entries: Seq<(RpcId, W)>, at: int)
    requires
        0 <= at < entries.len(),
        forall|i: int, j: int| 0 <= i < j < entries.len() ==> (#[trigger] entries[i]).0@ != (#[trigger] entries[j]).0@,
    ensures
        handles_of(entries).dom().contains(entries[at].0@),
        handles_of(entries)[entries[at].0@] == entries[at].1,
        handles_of(entries.remove(at)) == handles_of(entries).remove(entries[at].0@),
    decreases entries.len(),
{
    let front = entries.drop_last();
    let id = entries[at].0@;
    if at == entries.len() - 1 {
        assert(entries.remove(at) =~= front);
        lemma_handles(front);
        assert(!handles_of(front).dom().contains(id)) by {
            if handles_of(front).dom().contains(id) {
                let k = choose|k: int| 0 <= k < front.len() && (#[trigger] front[k]).0@ == id;
                assert(entries[k].0@ == entries[at].0@);
            }
        }
        assert(handles_of(entries).remove(id) =~= handles_of(front));
    } else {
        assert forall|i: int, j: int| 0 <= i < j < front.len() implies (#[trigger] front[i]).0@ != (#[trigger] front[j]).0@ by {
            assert(front[i] == entries[i] && front[j] == entries[j]);
        }
        lemma_handles_remove(front, at);
        assert(front[at] == entries[at]);
        let rest = entries.remove(at);
        assert(rest.drop_last() =~= front.remove(at));
        assert(rest.last() == entries.last());
        assert(entries[at].0@ != entries[entries.len() - 1].0@);
        assert(handles_of(rest) =~= handles_of(entries).remove(id));
    }
}

impl<W> Waiters<W> {
    /// No identity waits twice.
    pub closed spec fn wf(&self) -> bool {
        forall|i: int, j: int| 0 <= i < j < self.entries@.len() ==> (#[trigger] self.entries@[i]).0@ != (
        #[trigger] self.entries@[j]).0@
    }

    /// The identity that the next request gets.
    pub closed spec fn next(&self) -> i64 {
        self.next_id
    }

    /// The handle of each waiting request.
    pub closed spec fn waiting(&self) -> Map<RpcIdView, W> {
        handles_of(self.entries@)
    }

    pub fn new() -> (r: Self)
        ensures
            r.wf(),
            r.next() == 1,
            r.waiting() == Map::<RpcIdView, W>::empty(),
    {
        Waiters { entries: Vec::new(), next_id: 1 }
    }

    fn place(&self, id: &RpcId) -> (r: Option<usize>)
        ensures
            match r {
                Some(i) => i < self.entries@.len() && self.entries@[i as int].0@ == id@,
                None => forall|k: int| 0 <= k < self.entries@.len() ==> (#[trigger] self.entries@[k]).0@ != id@,
            },
    {
        let mut i: usize = 0;
        while i < self.entries.len()
            invariant
                i <= self.entries@.len(),
                forall|k: int| 0 <= k < i ==> (#[trigger] self.entries@[k]).0@ != id@,
            decreases self.entries@.len() - i,
        {
            if self.entries[i].0.matches(id) {
                return Some(i);
            }
            i += 1;
        }
        None
    }

    /// Takes the handle that waits under `id`; a response nobody waits for finds nothing.
    pub fn take(&mut self, id: &RpcId) -> (r: Option<W>)
        requires
            old(self).wf(),
        ensures
            final(self).wf(),
            final(self).next() == old(self).next(),
            final(self).waiting() == old(self).waiting().remove(id@),
            r == (if old(self).waiting().dom().contains(id@) {
                Some(old(self).waiting()[id@])
            } else {
                None
            }),
    {
        match self.place(id) {
            Some(i) => {
                proof {
                    lemma_handles_remove(self.entries@, i as int);
                }
                let ghost before = self.entries@;
                let (_, handle) = self.entries.remove(i);
                assert forall|a: int, b: int| 0 <= a < b < self.entries@.len() implies (#[trigger] self.entries@[a]).0@ != (
                #[trigger] self.entries@[b]).0@ by {
                    let x = if a < i { a } else { a + 1 };
                    let y = if b < i { b } else { b + 1 };
                    assert(before[x].0@ != before[y].0@);
                }
                Some(handle)
            },
            None => {
                proof {
                    lemma_handles(self.entries@);
                    assert(self.waiting().remove(id@) =~= self.waiting());
                }
                None
            },
        }
    }

    /// Gives `handle` the next identity. A request that still waits under that identity stops waiting.
    pub fn register(&mut self, handle: W) -> (r: RpcId)
        requires
            old(self).wf(),
        ensures
            final(self).wf(),
            r@ == RpcIdView::Integer(old(self).next()),
            final(self).next() == following(old(self).next()),
            final(self).waiting() == old(self).waiting().insert(r@, handle),
    {
        let ghost before = self.waiting();
        let id = RpcId::Integer(self.next_id);
        self.next_id = self.next_id.wrapping_add(1);
        let _ = self.take(&id);
        let ghost entries = self.entries@;
        proof {
            lemma_handles(entries);
        }
        self.entries.push((id.clone(), handle));
        assert(self.entries@.drop_last() =~= entries);
        assert(self.waiting() =~= before.insert(id@, handle));
        assert forall|a: int, b: int| 0 <= a < b < self.entries@.len() implies (#[trigger] self.entries@[a]).0@ != (
        #[trigger] self.entries@[b]).0@ by {
            if b == entries.len() {
                assert(entries[a].0@ == self.entries@[a].0@);
                assert(!handles_of(entries).dom().contains(id@));
            } else {
                assert(entries[a].0@ != entries[b].0@);
            }
        }
        id
    }

    /// Empties the table and gives every handle back, each once, so that all can be told of a failure.
    pub fn take_all(&mut self) -> (r: Vec<(RpcId, W)>)
        requires
            old(self).wf(),
        ensures
            final(self).wf(),
            final(self).next() == old(self).next(),
            final(self).waiting() == Map::<RpcIdView, W>::empty(),
            handles_of(r@) == old(self).waiting(),
            forall|i: int, j: int| 0 <= i < j < r@.len() ==> (#[trigger] r@[i]).0@ != (#[trigger] r@[j]).0@,
    {
        let mut taken: Vec<(RpcId, W)> = Vec::new();
        std::mem::swap(&mut taken, &mut self.entries);
        taken
    }
}

impl<W> Waiters<W> {
    /// Empties the table for a failure that every waiting request is told of.
    pub fn fail_all(&mut self, message: &str) -> (r: (Vec<(RpcId, W)>, HarnessError))
        requires
            old(self).wf(),
        ensures
            final(self).wf(),
            final(self).next() == old(self).next(),
            final(self).waiting() == Map::<RpcIdView, W>::empty(),
            handles_of(r.0@) == old(self).waiting(),
            forall|i: int, j: int| 0 <= i < j < r.0@.len() ==> (#[trigger] r.0@[i]).0@ != (#[trigger] r.0@[j]).0@,
            r.1@ == HarnessErrorView::Transport(message@),
    {
        (self.take_all(), HarnessError::transport(message))
    }
}

/// How far a request has come.
#[derive(Debug, Clone, Copy, PartialEq, Eq, Structural)]
pub enum RequestPhase {
    Created,
    Queued,
    Written,
}

/// Later phases count for more.
pub open spec fn progress(phase: RequestPhase) -> int {
    match phase {
        RequestPhase::Created => 0,
        RequestPhase::Queued => 1,
        RequestPhase::Written => 2,
    }
}

impl RequestPhase {
    /// The request was handed to the writer; a write that finished first is not forgotten.
    pub fn queued(self) -> (r: RequestPhase)
        ensures
            progress(r) == (if progress(self) < 1 {
                1
            } else {
                progress(self)
            }),
    {
        match self {
            RequestPhase::Created => RequestPhase::Queued,
            other => other,
        }
    }

    /// What is noted of a request that nobody waits for any longer.
    pub fn abandoned_note(self) -> (r: &'static str)
        ensures
            r@ == abandonment(self),
    {
        match self {
            RequestPhase::Created => "Codex request timed out before it was queued",
            RequestPhase::Queued => "Codex request timed out after it was queued but before it was written",
            RequestPhase::Written => "Codex request timed out after it was written",
        }
    }
}

pub open spec fn abandonment(phase: RequestPhase) -> Seq<char> {
    match phase {
        RequestPhase::Created => "Codex request timed out before it was queued"@,
        RequestPhase::Queued => "Codex request timed out after it was queued but before it was written"@,
        RequestPhase::Written => "Codex request timed out after it was written"@,
    }
}

/// One request's place among the waiters. While it is armed, letting it go withdraws the request.
#[derive(Debug)]
pub struct Registration {
    pub id: RpcId,
    pub armed: bool,
}

impl Registration {
    pub fn disarm(&mut self)
        ensures
            final(self).id == old(self).id,
            !final(self).armed,
    {
        self.armed = false;
    }

    /// Withdraws the request without a note.
    pub fn abandon<W>(&mut self, waiters: &mut Waiters<W>)
        requires
            old(waiters).wf(),
        ensures
            final(waiters).wf(),
            final(waiters).next() == old(waiters).next(),
            final(waiters).waiting() == old(waiters).waiting().remove(old(self).id@),
            final(self).id == old(self).id,
            !final(self).armed,
    {
        let _ = waiters.take(&self.id);
        self.disarm();
    }

    /// Lets the registration go. An armed one withdraws its request and tells the phase it was in.
    pub fn release<W>(self, waiters: &mut Waiters<W>, phase: RequestPhase) -> (r: Option<RequestPhase>)
        requires
            old(waiters).wf(),
        ensures
            final(waiters).wf(),
            final(waiters).next() == old(waiters).next(),
            final(waiters).waiting() == (if self.armed {
                old(waiters).waiting().remove(self.id@)
            } else {
                old(waiters).waiting()
            }),
            r == (if self.armed {
                Some(phase)
            } else {
                None
            }),
    {
        if !self.armed {
            return None;
        }
        let _ = waiters.take(&self.id);
        Some(phase)
    }
}

pub open spec fn closed() -> HarnessErrorView {
    HarnessErrorView::Transport("Codex transport closed"@)
}

pub fn transport_closed() -> (r: HarnessError)
    ensures
        r@ == closed(),
{
    HarnessError::transport("Codex transport closed")
}

/// Starts a request: it waits from now on, and its frame goes to the writer. With the writer gone
/// nothing waits and the transport counts as closed.
pub fn begin_request<W>(
    waiters: &mut Waiters<W>,
    handle: W,
    method: &str,
    params: Json,
    writer_open: bool,
) -> (r: Result<(Registration, Frame), HarnessError>)
    requires
        old(waiters).wf(),
    ensures
        final(waiters).wf(),
        final(waiters).next() == following(old(waiters).next()),
        r is Ok <==> writer_open,
        r matches Ok((registration, frame)) ==> {
            let id = RpcIdView::Integer(old(waiters).next());
            &&& registration.armed
            &&& registration.id@ == id
            &&& final(waiters).waiting() == old(waiters).waiting().insert(id, handle)
            &&& frame.line@ == printed(request_json(id, method@, params@))
            &&& frame.description@ == "request "@ + method@ + " id "@ + id_text(id)
        },
        r matches Err(error) ==> {
            &&& error@ == closed()
            &&& final(waiters).waiting() == old(waiters).waiting().remove(RpcIdView::Integer(old(waiters).next()))
        },
{
    let ghost before = waiters.waiting();
    let id = waiters.register(handle);
    let mut registration = Registration { id: id.clone(), armed: true };
    match request_frame(&id, method, params) {
        Ok(frame) => {
            if writer_open {
                return Ok((registration, frame));
            }
            registration.abandon(waiters);
            assert(waiters.waiting() =~= before.remove(id@));
            Err(transport_closed())
        },
        Err(error) => {
            registration.abandon(waiters);
            Err(error)
        },
    }
}

/// Goes on after the frame was offered to the writer. A writer that is gone ends the request.
pub fn after_queueing<W>(registration: &mut Registration, waiters: &mut Waiters<W>, accepted: bool) -> (r: Result<
    (),
    HarnessError,
>)
    requires
        old(waiters).wf(),
    ensures
        final(waiters).wf(),
        final(waiters).next() == old(waiters).next(),
        final(registration).id == old(registration).id,
        accepted ==> r is Ok && *final(registration) == *old(registration) && *final(waiters) == *old(waiters),
        !accepted ==> (r matches Err(error) && error@ == closed()) && !final(registration).armed
            && final(waiters).waiting() == old(waiters).waiting().remove(old(registration).id@),
{
    if accepted {
        return Ok(());
    }
    registration.abandon(waiters);
    Err(transport_closed())
}

/// Ends a request with what came back: the answer, or nothing where the waiting end was dropped.
pub fn finish_request<W>(
    registration: &mut Registration,
    waiters: &mut Waiters<W>,
    answer: Option<Result<Json, HarnessError>>,
) -> (r: Result<Json, HarnessError>)
    requires
        old(waiters).wf(),
    ensures
        final(waiters).wf(),
        final(waiters).next() == old(waiters).next(),
        final(registration).id == old(registration).id,
        !final(registration).armed,
        answer matches Some(result) ==> r == result && *final(waiters) == *old(waiters),
        answer is None ==> (r matches Err(error) && error@ == closed()) && final(waiters).waiting()
            == old(waiters).waiting().remove(old(registration).id@),
{
    match answer {
        Some(result) => {
            registration.disarm();
            result
        },
        None => {
            registration.abandon(waiters);
            Err(transport_closed())
        },
    }
}

/// Ends the sending of a frame that nobody answers: `accepted` by the writer or not, and what was told
/// of its write, where anything was.
pub fn after_sending(accepted: bool, written: Option<Result<(), HarnessError>>) -> (r: Result<(), HarnessError>)
    ensures
        match written {
            Some(result) if accepted => r == result,
            _ => r matches Err(error) && error@ == closed(),
        },
{
    match written {
        Some(result) if accepted => result,
        _ => Err(transport_closed()),
    }
}

/// Ends the delivery of a service answer, `sent` within its time or not.
pub fn after_service_answer(sent: Option<Result<(), HarnessError>>) -> (r: Result<(), HarnessError>)
    ensures
        match sent {
            Some(result) => r == result,
            None => r matches Err(error) && error@ == HarnessErrorView::Timeout("native service response write timed out"@),
        },
{
    match sent {
        Some(result) => result,
        None => Err(HarnessError::timeout("native service response write timed out")),
    }
}

/// What the writer does after a frame.
#[derive(Debug)]
pub struct WriteStep {
    /// The phase of the frame's request, where the frame was one.
    pub phase: Option<RequestPhase>,
    /// What whoever waits for the write is told.
    pub written: Result<(), HarnessError>,
    /// Why every waiting request fails and writing ends, if it does.
    pub stop: Option<String>,
}

/// Goes on after a frame was written and flushed, or was not.
pub fn write_step(phase: Option<RequestPhase>, result: Result<(), String>) -> (r: WriteStep)
    ensures
        match result {
            Ok(()) => {
                &&& r.phase == (if phase is Some {
                    Some(RequestPhase::Written)
                } else {
                    None
                })
                &&& r.written == Ok::<(), HarnessError>(())
                &&& r.stop is None
            },
            Err(error) => {
                &&& r.phase == phase
                &&& r.written matches Err(told) && told@ == HarnessErrorView::Transport(error@)
                &&& r.stop matches Some(reason) && reason@ == error@
            },
        },
{
    match result {
        Ok(()) => WriteStep {
            phase: match phase {
                Some(_) => Some(RequestPhase::Written),
                None => None,
            },
            written: Ok(()),
            stop: None,
        },
        Err(error) => WriteStep {
            phase,
            written: Err(HarnessError::Transport(error.clone())),
            stop: Some(error),
        },
    }
}

/// Who still waits after answers came under each of `ids`, in that order.
pub open spec fn after_answers<W>(waiting: Map<RpcIdView, W>, ids: Seq<RpcIdView>) -> Map<RpcIdView, W>
    decreases ids.len(),
{
    if ids.len() == 0 {
        waiting
    } else {
        after_answers(waiting, ids.drop_last()).remove(ids.last())
    }
}

/// A request is answered at most once: after an answer came under an identity, the same identity
/// finds nobody. Every other request waits as before, whatever answers came in between.
pub proof fn law_answered_at_most_once<W>(waiting: Map<RpcIdView, W>, ids: Seq<RpcIdView>, id: RpcIdView)
    ensures
        ids.contains(id) ==> !after_answers(waiting, ids).dom().contains(id),
        !ids.contains(id) ==> after_answers(waiting, ids).dom().contains(id) == waiting.dom().contains(id),
        !ids.contains(id) && waiting.dom().contains(id) ==> after_answers(waiting, ids)[id] == waiting[id],
    decreases ids.len(),
{
    if ids.len() > 0 {
        let front = ids.drop_last();
        law_answered_at_most_once(waiting, front, id);
        if ids.contains(id) && !front.contains(id) {
            let k = choose|k: int| 0 <= k < ids.len() && ids[k] == id;
            if k < front.len() {
                assert(front[k] == id);
            }
        }
        if front.contains(id) {
            let k = choose|k: int| 0 <= k < front.len() && front[k] == id;
            assert(ids[k] == id);
        }
        assert(ids[ids.len() - 1] == ids.last());
    }
}

/// An answer that nobody waits for changes nothing.
pub proof fn law_stray_answers_change_nothing<W>(waiting: Map<RpcIdView, W>, id: RpcIdView)
    requires
        !waiting.dom().contains(id),
    ensures
        after_answers(waiting, seq![id]) == waiting,
{
    assert(seq![id].drop_last() =~= Seq::<RpcIdView>::empty());
    assert(after_answers(waiting, seq![id].drop_last()) == waiting);
    assert(waiting.remove(id) =~= waiting);
}

/// Whatever the order in which a request's queueing and its write are noticed, a written request
/// counts as written.
pub proof fn law_written_is_never_forgotten(phase: RequestPhase, queued: RequestPhase)
    requires
        progress(queued) == (if progress(phase) < 1 {
            1
        } else {
            progress(phase)
        }),
    ensures
        phase is Written ==> queued is Written,
        progress(queued) >= progress(phase),
{
}

/// The identity of the request that comes after `n` others.
pub open spec fn identity_after(n: nat) -> i64
    decreases n,
{
    if n == 0 {
        1
    } else {
        following(identity_after((n - 1) as nat))
    }
}

proof fn lemma_identity_after(n: nat)
    requires
        n < 0x1_0000_0000_0000_0000,
    ensures
        identity_after(n) == (if n < 0x7fff_ffff_ffff_ffff {
            n + 1int
        } else {
            n + 1 - 0x1_0000_0000_0000_0000
        }),
    decreases n,
{
    if n > 0 {
        lemma_identity_after((n - 1) as nat);
    }
}

/// No identity comes twice among as many requests as there are identities.
pub proof fn law_identities_are_not_reused(first: nat, second: nat)
    requires
        first < second < 0x1_0000_0000_0000_0000,
    ensures
        identity_after(first) != identity_after(second),
{
    lemma_identity_after(first);
    lemma_identity_after(second);
}

/// Identities count up from one, and start over at the lowest after the highest.
pub proof fn law_identities_count_up(n: nat, id: i64)
    ensures
        identity_after(0) == 1,
        identity_after(n) < i64::MAX ==> identity_after(n + 1) == identity_after(n) + 1,
        identity_after(n) == i64::MAX ==> identity_after(n + 1) == i64::MIN,
        id < i64::MAX ==> following(id) - id == 1,
        following(i64::MAX) == i64::MIN,
{
}

/// A request is made, then queued, then written; what is noted of one that nobody waits for tells how far it came.
pub proof fn law_phases_follow_each_other(phase: RequestPhase)
    ensures
        progress(RequestPhase::Created) + 1 == progress(RequestPhase::Queued),
        progress(RequestPhase::Queued) + 1 == progress(RequestPhase::Written),
        progress(phase) < 1 <==> phase is Created,
        "before it was queued"@.is_suffix_of(abandonment(phase)) <==> phase is Created,
        "but before it was written"@.is_suffix_of(abandonment(phase)) <==> phase is Queued,
        "after it was written"@.is_suffix_of(abandonment(phase)) <==> phase is Written,
{
    reveal_strlit("before it was queued");
    reveal_strlit("but before it was written");
    reveal_strlit("after it was written");
    reveal_strlit("Codex request timed out before it was queued");
    reveal_strlit("Codex request timed out after it was queued but before it was written");
    reveal_strlit("Codex request timed out after it was written");
    let text = abandonment(phase);
    let n = text.len() as int;
    let queued = "before it was queued"@;
    let unwritten = "but before it was written"@;
    let written = "after it was written"@;
    match phase {
        RequestPhase::Created => {
            assert(text.subrange(n - 20, n) =~= queued);
            assert(text.subrange(n - 25, n)[24] == 'd' && unwritten[24] == 'n');
            assert(text.subrange(n - 20, n)[19] == 'd' && written[19] == 'n');
        },
        RequestPhase::Queued => {
            assert(text.subrange(n - 25, n) =~= unwritten);
            assert(text.subrange(n - 20, n)[19] == 'n' && queued[19] == 'd');
            assert(text.subrange(n - 20, n)[0] == 'e' && written[0] == 'a');
        },
        RequestPhase::Written => {
            assert(text.subrange(n - 20, n) =~= written);
            assert(text.subrange(n - 20, n)[19] == 'n' && queued[19] == 'd');
            assert(text.subrange(n - 25, n)[0] != 'b');
        },
    }
}

/// A closed transport is a failure of the transport.
pub proof fn law_closing_is_told_of_the_transport()
    ensures
        closed() matches HarnessErrorView::Transport(text) && "closed"@.is_suffix_of(text),
{
    reveal_strlit("closed");
    reveal_strlit("Codex transport closed");
    assert("Codex transport closed"@.subrange(16, 22) =~= "closed"@);
}

} // verus!
