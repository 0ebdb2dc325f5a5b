//! Worker IPC dispatcher state machine: the correlation table and routing
//! rules that multiplex many logical requests over one worker process's
//! byte streams.
//!
//! The machine decides; the surrounding process code performs. Spawning
//! the worker, pumping its pipes and waiting on deadlines live outside the
//! library: a writer loop drains encoded request lines, a reader loop
//! parses each output line and hands it to `route`, and a waiter polls
//! `resolve_wait` until a terminal response or its own deadline. Every
//! decision those loops take — who receives a response, in what order,
//! when a send must fail fast, what a waiter skips — is taken here.
//!
//! When the worker's output stream ends, the process code calls
//! `mark_stopped`: every later send fails fast with a not-running error,
//! and in-flight entries are never delivered a terminal response, so
//! waiting callers resolve through their own timeout.
use vstd::prelude::*;

use crate::errors::IpcError;
use crate::ipc::IPCEvent;
use crate::ipc::IPCRequest;
use crate::ipc::IPCResponse;
use crate::ipc::request_json;
use crate::sessions::SessionStore;

verus! {

/// Index of the first response in `s` that is not a progress report;
/// `s.len()` when every buffered response is progress.
pub open spec fn first_non_progress(s: Seq<IPCResponse>) -> int
    decreases s.len(),
{
    if s.len() == 0 {
        0
    } else if s[0].event != IPCEvent::Progress {
        0
    } else {
        1 + first_non_progress(s.drop_first())
    }
}

/// A scan that saw only progress reports before position `j`, and a
/// non-progress response at `j` if `j` is in range, has found the first
/// non-progress position.
proof fn lemma_first_non_progress_at(s: Seq<IPCResponse>, j: int)
    requires
        0 <= j <= s.len(),
        forall|i: int| 0 <= i < j ==> s[i].event == IPCEvent::Progress,
        j < s.len() ==> s[j].event != IPCEvent::Progress,
    ensures
        first_non_progress(s) == j,
    decreases j,
{
    if j == 0 {
    } else {
        assert(s[0].event == IPCEvent::Progress);
        lemma_first_non_progress_at(s.drop_first(), j - 1);
    }
}

/// One step of waiting for a job's terminal response.
pub enum WaitOutcome {
    /// The first non-progress response buffered for the job; its
    /// correlation entry has been removed.
    Resolved(IPCResponse),
    /// Only progress reports were buffered; the entry stays registered
    /// and the caller keeps waiting or times out.
    NotYet,
}

/// The dispatcher's decision state: whether the worker is taken to be
/// running, and the correlation table from in-flight job ids to their
/// buffered responses.
pub struct Dispatcher {
    running: bool,
    table: SessionStore<Vec<IPCResponse>>,
}

impl Dispatcher {
    /// The correlation table.
    pub closed spec fn table_view(&self) -> SessionStore<Vec<IPCResponse>> {
        self.table
    }

    /// Whether the worker is taken to be running.
    pub closed spec fn spec_is_running(&self) -> bool {
        self.running
    }

    /// Whether a correlation entry exists for job id `id`.
    pub open spec fn registered(&self, id: Seq<char>) -> bool {
        self.table_view().contains_key(id)
    }

    /// The responses buffered for job id `id`, in arrival order;
    /// meaningful only while `registered(id)`.
    pub open spec fn inbox_of(&self, id: Seq<char>) -> Seq<IPCResponse> {
        self.table_view().value_of(id)@
    }

    /// Well-formedness of the correlation table.
    pub open spec fn wf(&self) -> bool {
        self.table_view().wf()
    }

    /// A dispatcher with no worker and no correlation entries.
    pub fn new() -> (d: Dispatcher)
        ensures
            d.wf(),
            !d.spec_is_running(),
            forall|x: Seq<char>| !d.registered(x),
    {
        Dispatcher { running: false, table: SessionStore::new() }
    }

    /// Whether the worker is taken to be running.
    pub fn is_running(&self) -> (r: bool)
        ensures
            r == self.spec_is_running(),
    {
        self.running
    }

    /// Record that the worker process has been started. The correlation
    /// table is kept as it is.
    pub fn mark_started(&mut self)
        requires
            old(self).wf(),
        ensures
            final(self).wf(),
            final(self).spec_is_running(),
            final(self).table_view() == old(self).table_view(),
    {
        self.running = true;
    }

    /// Record that the worker process has stopped or its output stream
    /// has ended: the running flag clears and the correlation table is
    /// emptied, so every later send fails fast.
    pub fn mark_stopped(&mut self)
        ensures
            final(self).wf(),
            !final(self).spec_is_running(),
            forall|x: Seq<char>| !final(self).registered(x),
    {
        self.running = false;
        self.table = SessionStore::new();
    }

    /// Register a correlation entry and encode the request as its wire
    /// line for the writer loop. Fails fast with a not-running error, and
    /// changes nothing, unless the worker is running.
    pub fn send(&mut self, request: &IPCRequest) -> (r: Result<String, IpcError>)
        requires
            old(self).wf(),
        ensures
            final(self).wf(),
            final(self).spec_is_running() == old(self).spec_is_running(),
            match r {
                Ok(line) => {
                    &&& old(self).spec_is_running()
                    &&& line@ == request_json(*request)
                    &&& final(self).registered(request.task_id@)
                    &&& final(self).inbox_of(request.task_id@) == Seq::<IPCResponse>::empty()
                    &&& forall|x: Seq<char>|
                        x != request.task_id@ ==> final(self).registered(x) == old(
                            self,
                        ).registered(x)
                    &&& forall|x: Seq<char>|
                        x != request.task_id@ && old(self).registered(x) ==> final(self).inbox_of(
                            x,
                        ) == old(self).inbox_of(x)
                },
                Err(e) => {
                    &&& !old(self).spec_is_running()
                    &&& e matches IpcError::NotRunning
                    &&& *final(self) == *old(self)
                },
            },
    {
        if !self.running {
            return Err(IpcError::NotRunning);
        }
        let line = request.to_json_line();
        self.table.store_at(request.task_id.clone(), Vec::new(), 0);
        Ok(line)
    }

    /// Route one parsed response to its job's buffer, appending in arrival
    /// order. A response whose id has no correlation entry is dropped and
    /// the dispatcher is left untouched, so the reader loop is never
    /// disrupted.
    pub fn route(&mut self, resp: IPCResponse) -> (r: bool)
        requires
            old(self).wf(),
        ensures
            final(self).wf(),
            final(self).spec_is_running() == old(self).spec_is_running(),
            r == old(self).registered(resp.task_id@),
            !r ==> *final(self) == *old(self),
            r ==> {
                &&& final(self).registered(resp.task_id@)
                &&& final(self).inbox_of(resp.task_id@) == old(self).inbox_of(
                    resp.task_id@,
                ).push(resp)
                &&& forall|x: Seq<char>|
                    x != resp.task_id@ ==> final(self).registered(x) == old(self).registered(x)
                &&& forall|x: Seq<char>|
                    x != resp.task_id@ && old(self).registered(x) ==> final(self).inbox_of(x)
                        == old(self).inbox_of(x)
            },
    {
        let key = resp.task_id.clone();
        match self.table.take(key.as_str()) {
            Some(mut inbox) => {
                inbox.push(resp);
                self.table.store_at(key, inbox, 0);
                true
            }
            None => false,
        }
    }

    /// Hand out the oldest buffered response for a job, in arrival order.
    pub fn pop_response(&mut self, task_id: &str) -> (r: Option<IPCResponse>)
        requires
            old(self).wf(),
        ensures
            final(self).wf(),
            final(self).spec_is_running() == old(self).spec_is_running(),
            forall|x: Seq<char>| final(self).registered(x) == old(self).registered(x),
            match r {
                Some(resp) => {
                    &&& old(self).registered(task_id@)
                    &&& old(self).inbox_of(task_id@).len() > 0
                    &&& resp == old(self).inbox_of(task_id@)[0]
                    &&& final(self).inbox_of(task_id@) == old(self).inbox_of(task_id@).drop_first()
                },
                None => {
                    &&& (!old(self).registered(task_id@) || old(self).inbox_of(task_id@).len()
                        == 0)
                    &&& (old(self).registered(task_id@) ==> final(self).inbox_of(task_id@) == old(
                        self,
                    ).inbox_of(task_id@))
                },
            },
            forall|x: Seq<char>|
                x != task_id@ && old(self).registered(x) ==> final(self).inbox_of(x) == old(
                    self,
                ).inbox_of(x),
    {
        match self.table.take(task_id) {
            Some(mut inbox) => {
                if inbox.len() > 0 {
                    let first = inbox.remove(0);
                    proof {
                        assert(inbox@ =~= old(self).inbox_of(task_id@).drop_first());
                    }
                    self.table.store_at(task_id.to_owned(), inbox, 0);
                    Some(first)
                } else {
                    self.table.store_at(task_id.to_owned(), inbox, 0);
                    None
                }
            }
            None => None,
        }
    }

    /// One waiting step of send-and-wait: discard every buffered progress
    /// report, and if a non-progress response is buffered, remove the
    /// job's correlation entry and return that response. With only
    /// progress buffered, the drained entry stays registered and the
    /// caller keeps waiting; a caller that gives up calls
    /// `remove_pending`.
    pub fn resolve_wait(&mut self, task_id: &str) -> (r: WaitOutcome)
        requires
            old(self).wf(),
        ensures
            final(self).wf(),
            final(self).spec_is_running() == old(self).spec_is_running(),
            !old(self).registered(task_id@) ==> (r matches WaitOutcome::NotYet && *final(self)
                == *old(self)),
            old(self).registered(task_id@) ==> ({
                let ib = old(self).inbox_of(task_id@);
                let k = first_non_progress(ib);
                &&& (k < ib.len() ==> (r matches WaitOutcome::Resolved(resp) && resp == ib[k]
                    && !final(self).registered(task_id@)))
                &&& (k == ib.len() ==> (r matches WaitOutcome::NotYet && final(self).registered(
                    task_id@,
                ) && final(self).inbox_of(task_id@) == Seq::<IPCResponse>::empty()))
                &&& forall|x: Seq<char>|
                    x != task_id@ ==> final(self).registered(x) == old(self).registered(x)
                &&& forall|x: Seq<char>|
                    x != task_id@ && old(self).registered(x) ==> final(self).inbox_of(x) == old(
                        self,
                    ).inbox_of(x)
            }),
    {
        match self.table.take(task_id) {
            Some(mut inbox) => {
                let ghost ib = old(self).inbox_of(task_id@);
                let n = inbox.len();
                let mut j: usize = 0;
                while j < n
                    invariant
                        n == inbox@.len(),
                        inbox@ == ib,
                        0 <= j <= n,
                        forall|i: int| 0 <= i < j ==> ib[i].event == IPCEvent::Progress,
                        self.wf(),
                        self.spec_is_running() == old(self).spec_is_running(),
                        old(self).registered(task_id@),
                        ib == old(self).inbox_of(task_id@),
                        !self.registered(task_id@),
                        forall|x: Seq<char>|
                            x != task_id@ ==> self.registered(x) == old(self).registered(x),
                        forall|x: Seq<char>|
                            x != task_id@ && old(self).registered(x) ==> self.inbox_of(x) == old(
                                self,
                            ).inbox_of(x),
                    decreases n - j,
                {
                    if !matches!(inbox[j].event, IPCEvent::Progress) {
                        proof {
                            lemma_first_non_progress_at(ib, j as int);
                        }
                        let resp = inbox.remove(j);
                        return WaitOutcome::Resolved(resp);
                    }
                    j = j + 1;
                }
                proof {
                    lemma_first_non_progress_at(ib, n as int);
                }
                self.table.store_at(task_id.to_owned(), Vec::new(), 0);
                WaitOutcome::NotYet
            }
            None => WaitOutcome::NotYet,
        }
    }

    /// Remove a job's correlation entry without waiting for a terminal
    /// response: the cleanup for callers that abandon a stream, and the
    /// only other place the table shrinks.
    pub fn remove_pending(&mut self, task_id: &str)
        requires
            old(self).wf(),
        ensures
            final(self).wf(),
            final(self).spec_is_running() == old(self).spec_is_running(),
            !final(self).registered(task_id@),
            forall|x: Seq<char>|
                x != task_id@ ==> final(self).registered(x) == old(self).registered(x),
            forall|x: Seq<char>|
                x != task_id@ && old(self).registered(x) ==> final(self).inbox_of(x) == old(
                    self,
                ).inbox_of(x),
    {
        self.table.take(task_id);
    }
}

} // verus!
