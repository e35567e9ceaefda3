//! The worker of one upload in a batch: it waits for a permit, sends the chunks, gives the permit
//! back, has the backend complete the upload, and counts the outcome.
use vstd::prelude::*;
use vstd::string::*;
use super::lifecycle::{cancelled_text, is_stop, outcome, paused_text, suspend, suspended};
use super::manager::{get_task, update_task_status, Manager, ManagerView};
use super::message::{send, sent, Effect, Message};
use super::session::{one_failure, one_success, session_complete, SessionCounter, SessionView};
use super::{TaskStatus, TaskView};

verus! {

/// How often the chunks of an upload are sent, and how often the backend is asked to complete it,
/// before the upload counts as failed.
pub const MAX_RETRY_COUNT: u32 = 3;

/// Where a worker stands. The numbers count the failed attempts so far.
#[derive(Debug, Clone, Copy, PartialEq, Eq, Structural)]
pub enum Stage {
    /// It waits for a permit.
    Waiting,
    /// It sends the chunks.
    Sending { failed: u32 },
    /// It waits before it sends the chunks again.
    Resting { failed: u32 },
    /// It has the backend complete the upload.
    Finishing { failed: u32 },
    /// It waits before it asks the backend again.
    FinishResting { failed: u32 },
    /// It has ended.
    Done,
}

/// What happened to a worker.
pub enum WorkerEvent {
    /// The batch was cancelled while the worker waited for a permit.
    Cancelled,
    /// There will be no more permits.
    Closed,
    /// The worker has a permit.
    Permit,
    /// The chunks were sent, or not.
    Chunks(Result<(), String>),
    /// The wait is over.
    Elapsed,
    /// The backend completed the upload, or not.
    Finished(Result<(), String>),
}

/// What happened to a worker, by what it holds.
pub enum EventView {
    Cancelled,
    Closed,
    Permit,
    Chunks(Result<(), Seq<char>>),
    Elapsed,
    Finished(Result<(), Seq<char>>),
}

impl View for WorkerEvent {
    type V = EventView;

    open spec fn view(&self) -> EventView {
        match self {
            WorkerEvent::Cancelled => EventView::Cancelled,
            WorkerEvent::Closed => EventView::Closed,
            WorkerEvent::Permit => EventView::Permit,
            WorkerEvent::Chunks(r) => EventView::Chunks(outcome(*r)),
            WorkerEvent::Elapsed => EventView::Elapsed,
            WorkerEvent::Finished(r) => EventView::Finished(outcome(*r)),
        }
    }
}

/// What a worker does next.
#[derive(Debug, Clone, Copy, PartialEq, Eq, Structural)]
pub enum WorkerAction {
    /// Send the chunks.
    Send,
    /// Wait, and say when the wait is over.
    Rest,
    /// Have the backend complete the upload.
    Finish,
    /// End. The record of the batch is due if `record` says so.
    Stop { record: bool },
    /// Nothing: the worker did not expect what happened.
    Ignore,
}

/// A worker, and what it works on.
pub struct Worker {
    upload_id: String,
    filename: String,
    stage: Stage,
}

/// What a worker holds.
#[verifier::ext_equal]
pub struct WorkerView {
    pub upload_id: Seq<char>,
    pub filename: Seq<char>,
    pub stage: Stage,
}

impl View for Worker {
    type V = WorkerView;

    closed spec fn view(&self) -> WorkerView {
        WorkerView { upload_id: self.upload_id@, filename: self.filename@, stage: self.stage }
    }
}

/// The failed attempts are fewer than the limit.
pub open spec fn stage_ok(stage: Stage) -> bool {
    match stage {
        Stage::Sending { failed } => failed < MAX_RETRY_COUNT,
        Stage::Resting { failed } => failed < MAX_RETRY_COUNT,
        Stage::Finishing { failed } => failed < MAX_RETRY_COUNT,
        Stage::FinishResting { failed } => failed < MAX_RETRY_COUNT,
        _ => true,
    }
}

/// The worker holds a permit.
pub open spec fn holding(stage: Stage) -> bool {
    stage is Sending || stage is Resting
}

/// The task is one that a worker does not start: it runs, is over, or is gone.
pub open spec fn taken(m: ManagerView, id: Seq<char>) -> bool {
    ||| !m.tasks.contains_key(id)
    ||| m.has_status(id, TaskStatus::Running)
    ||| m.has_status(id, TaskStatus::Completed)
    ||| m.has_status(id, TaskStatus::Cancelled)
}

/// The task counts this many retries, if there is one.
pub open spec fn with_retries(m: ManagerView, id: Seq<char>, retries: u32) -> ManagerView {
    ManagerView {
        tasks: if m.tasks.contains_key(id) {
            m.tasks.insert(id, TaskView { retry_count: retries, ..m.tasks[id] })
        } else {
            m.tasks
        },
        ..m
    }
}

/// The name under which an upload that was cancelled stands among the failures.
pub open spec fn cancelled_name(filename: Seq<char>) -> Seq<char> {
    "<cancelled> "@ + filename
}

/// The name under which an upload that was paused stands among the failures.
pub open spec fn paused_name(filename: Seq<char>) -> Seq<char> {
    "<paused> "@ + filename
}

/// Where a worker, the transfers and the tally stand after an event, and what is to be done.
#[verifier::ext_equal]
pub struct Turn {
    pub stage: Stage,
    pub manager: ManagerView,
    pub session: SessionView,
    pub action: WorkerAction,
    pub effects: Seq<Effect<Seq<char>>>,
}

/// The worker ends, and the tally stands at `s`.
pub open spec fn settled(m: ManagerView, s: SessionView, effects: Seq<Effect<Seq<char>>>) -> Turn {
    Turn {
        stage: Stage::Done,
        manager: m,
        session: s,
        action: WorkerAction::Stop { record: session_complete(s) },
        effects,
    }
}

/// The worker goes on to `stage`, and nothing has been counted.
pub open spec fn going(
    stage: Stage,
    m: ManagerView,
    s: SessionView,
    action: WorkerAction,
    effects: Seq<Effect<Seq<char>>>,
) -> Turn {
    Turn { stage, manager: m, session: s, action, effects }
}

/// The worker has a permit: it starts, unless the task is taken or everything is paused.
pub open spec fn admitted(id: Seq<char>, m: ManagerView, s: SessionView) -> Turn {
    if taken(m, id) {
        going(Stage::Done, m, s, WorkerAction::Stop { record: false }, Seq::empty())
    } else if m.global_paused {
        going(
            Stage::Done,
            suspended(m, id),
            s,
            WorkerAction::Stop { record: false },
            seq![Effect::Save, Effect::Broadcast(Message::Paused { upload_id: id })],
        )
    } else {
        going(Stage::Sending { failed: 0 }, m, s, WorkerAction::Send, Seq::empty())
    }
}

/// The chunks have been sent: what comes of the upload depends on how the task stands by now.
pub open spec fn chunks_sent(id: Seq<char>, filename: Seq<char>, m: ManagerView, s: SessionView) -> Turn {
    if m.has_status(id, TaskStatus::Cancelled) {
        settled(m, one_failure(s, cancelled_name(filename)), Seq::empty())
    } else if m.has_status(id, TaskStatus::Paused) {
        settled(m, s, Seq::empty())
    } else if m.has_status(id, TaskStatus::Completed) {
        settled(m, one_success(s), Seq::empty())
    } else {
        going(Stage::Finishing { failed: 0 }, m, s, WorkerAction::Finish, Seq::empty())
    }
}

/// Sending the chunks has failed: it is tried again, unless it failed too often or everything is
/// cancelled or paused.
pub open spec fn chunks_failed(
    id: Seq<char>,
    filename: Seq<char>,
    failed: int,
    m: ManagerView,
    s: SessionView,
) -> Turn {
    let tries = (failed + 1) as u32;
    let m1 = with_retries(m, id, tries);
    let retrying = seq![
        Effect::Save,
        Effect::Broadcast(Message::Retrying { upload_id: id, retry_count: tries }),
    ];
    if tries >= MAX_RETRY_COUNT {
        settled(m1, one_failure(s, filename), seq![Effect::Save])
    } else if m.global_cancelled || m.global_paused {
        settled(m1, one_failure(s, filename), retrying)
    } else {
        going(Stage::Resting { failed: tries }, m1, s, WorkerAction::Rest, retrying)
    }
}

/// The backend did not complete the upload: it is asked again, unless it was asked too often.
pub open spec fn finish_failed(
    id: Seq<char>,
    filename: Seq<char>,
    failed: int,
    m: ManagerView,
    s: SessionView,
) -> Turn {
    let tries = (failed + 1) as u32;
    if tries >= MAX_RETRY_COUNT {
        settled(m, one_failure(s, filename), Seq::empty())
    } else {
        going(
            Stage::FinishResting { failed: tries },
            m.set_status(id, TaskStatus::Running, None),
            s,
            WorkerAction::Rest,
            seq![Effect::Save],
        )
    }
}

/// A worker's turn: what an event does to it, to the transfers and to the tally.
pub open spec fn worker_turn(w: WorkerView, m: ManagerView, s: SessionView, event: EventView) -> Turn {
    let id = w.upload_id;
    match (w.stage, event) {
        (Stage::Waiting, EventView::Cancelled) => going(
            Stage::Done,
            m.set_status(id, TaskStatus::Cancelled, Some(cancelled_text())),
            s,
            WorkerAction::Stop { record: false },
            seq![Effect::Save],
        ),
        (Stage::Waiting, EventView::Closed) => going(
            Stage::Done,
            m,
            s,
            WorkerAction::Stop { record: false },
            Seq::empty(),
        ),
        (Stage::Waiting, EventView::Permit) => admitted(id, m, s),
        (Stage::Sending { failed }, EventView::Chunks(result)) => match result {
            Ok(()) => chunks_sent(id, w.filename, m, s),
            Err(error) => if error == paused_text() {
                settled(m, one_failure(s, paused_name(w.filename)), Seq::empty())
            } else {
                chunks_failed(id, w.filename, failed as int, m, s)
            },
        },
        (Stage::Resting { failed }, EventView::Elapsed) => going(
            Stage::Sending { failed },
            m.set_status(id, TaskStatus::Running, None),
            s,
            WorkerAction::Send,
            seq![Effect::Save],
        ),
        (Stage::Finishing { failed }, EventView::Finished(result)) => match result {
            Ok(()) => settled(m, one_success(s), Seq::empty()),
            Err(_) => finish_failed(id, w.filename, failed as int, m, s),
        },
        (Stage::FinishResting { failed }, EventView::Elapsed) => going(
            Stage::Finishing { failed },
            m,
            s,
            WorkerAction::Finish,
            Seq::empty(),
        ),
        _ => going(w.stage, m, s, WorkerAction::Ignore, Seq::empty()),
    }
}

fn status_of(m: &Manager, upload_id: &str) -> (r: Option<TaskStatus>)
    requires
        m.wf(),
    ensures
        match r {
            Some(status) => m@.has_status(upload_id@, status),
            None => !m@.tasks.contains_key(upload_id@),
        },
{
    match m.tasks.get(upload_id) {
        Some(task) => Some(task.status),
        None => None,
    }
}

fn count_retry(m: &mut Manager, upload_id: &str, retries: u32, out: &mut Vec<Effect<String>>)
    requires
        old(m).wf(),
    ensures
        final(m).wf(),
        final(m)@ == with_retries(old(m)@, upload_id@, retries),
        sent(final(out)@) == sent(old(out)@).push(Effect::Save),
{
    match get_task(m, upload_id) {
        Some(task) => {
            let mut task = task;
            proof {
                m.tasks.lemma_ids();
            }
            task.retry_count = retries;
            m.tasks.insert(task);
        },
        None => {},
    }
    send(out, Effect::Save);
}

fn prefixed(prefix: &str, name: &str) -> (r: String)
    ensures
        r@ == prefix@ + name@,
{
    let mut out = prefix.to_string();
    out.append(name);
    out
}

impl Worker {
    /// The worker of an upload, before it has done anything.
    pub fn new(upload_id: &str, filename: &str) -> (r: Self)
        ensures
            r.wf(),
            r@ == (WorkerView { upload_id: upload_id@, filename: filename@, stage: Stage::Waiting }),
    {
        Worker { upload_id: upload_id.to_string(), filename: filename.to_string(), stage: Stage::Waiting }
    }

    /// The failed attempts are fewer than the limit.
    pub open spec fn wf(&self) -> bool {
        stage_ok(self@.stage)
    }

    /// Whether the worker holds a permit.
    pub fn holds_permit(&self) -> (r: bool)
        ensures
            r == holding(self@.stage),
    {
        match self.stage {
            Stage::Sending { .. } => true,
            Stage::Resting { .. } => true,
            _ => false,
        }
    }

    fn settle(&mut self, counter: &SessionCounter) -> (r: WorkerAction)
        requires
            counter@.success + counter@.failed <= u32::MAX,
        ensures
            final(self)@ == (WorkerView { stage: Stage::Done, ..old(self)@ }),
            r == (WorkerAction::Stop { record: session_complete(counter@) }),
    {
        self.stage = Stage::Done;
        WorkerAction::Stop { record: counter.is_complete() }
    }

    fn enter(&mut self, m: &mut Manager, counter: &SessionCounter, out: &mut Vec<Effect<String>>) -> (r: WorkerAction)
        requires
            old(m).wf(),
            old(self)@.stage == Stage::Waiting,
        ensures
            final(m).wf(),
            final(self).wf(),
            ({
                let turn = admitted(old(self)@.upload_id, old(m)@, counter@);
                &&& final(self)@ == (WorkerView { stage: turn.stage, ..old(self)@ })
                &&& final(m)@ == turn.manager
                &&& counter@ == turn.session
                &&& r == turn.action
                &&& sent(final(out)@) == sent(old(out)@) + turn.effects
            }),
    {
        match status_of(m, &self.upload_id) {
            None | Some(TaskStatus::Running) | Some(TaskStatus::Completed) | Some(TaskStatus::Cancelled) => {
                self.stage = Stage::Done;
                return WorkerAction::Stop { record: false };
            },
            _ => {},
        }
        if m.global_paused {
            suspend(m, &self.upload_id, out);
            self.stage = Stage::Done;
            return WorkerAction::Stop { record: false };
        }
        self.stage = Stage::Sending { failed: 0 };
        WorkerAction::Send
    }

    fn after_chunks(
        &mut self,
        failed: u32,
        m: &mut Manager,
        counter: &mut SessionCounter,
        result: &Result<(), String>,
        out: &mut Vec<Effect<String>>,
    ) -> (r: WorkerAction)
        requires
            old(m).wf(),
            failed < MAX_RETRY_COUNT,
            old(self)@.stage == (Stage::Sending { failed }),
            old(counter)@.success + old(counter)@.failed < u32::MAX,
        ensures
            final(m).wf(),
            final(self).wf(),
            ({
                let turn = worker_turn(old(self)@, old(m)@, old(counter)@, EventView::Chunks(outcome(*result)));
                &&& final(self)@ == (WorkerView { stage: turn.stage, ..old(self)@ })
                &&& final(m)@ == turn.manager
                &&& final(counter)@ == turn.session
                &&& r == turn.action
                &&& sent(final(out)@) == sent(old(out)@) + turn.effects
            }),
    {
        match result {
            Ok(()) => match status_of(m, &self.upload_id) {
                Some(TaskStatus::Cancelled) => {
                    counter.record_failure(&prefixed("<cancelled> ", &self.filename));
                    self.settle(counter)
                },
                Some(TaskStatus::Paused) => self.settle(counter),
                Some(TaskStatus::Completed) => {
                    counter.record_success();
                    self.settle(counter)
                },
                _ => {
                    self.stage = Stage::Finishing { failed: 0 };
                    WorkerAction::Finish
                },
            },
            Err(error) => {
                if is_stop(error) {
                    counter.record_failure(&prefixed("<paused> ", &self.filename));
                    return self.settle(counter);
                }
                let tries: u32 = failed + 1;
                count_retry(m, &self.upload_id, tries, out);
                if tries >= MAX_RETRY_COUNT {
                    counter.record_failure(&self.filename);
                    return self.settle(counter);
                }
                send(
                    out,
                    Effect::Broadcast(Message::Retrying { upload_id: self.upload_id.clone(), retry_count: tries }),
                );
                if m.global_cancelled || m.global_paused {
                    counter.record_failure(&self.filename);
                    return self.settle(counter);
                }
                self.stage = Stage::Resting { failed: tries };
                WorkerAction::Rest
            },
        }
    }

    fn after_finish(
        &mut self,
        failed: u32,
        m: &mut Manager,
        counter: &mut SessionCounter,
        result: &Result<(), String>,
        out: &mut Vec<Effect<String>>,
    ) -> (r: WorkerAction)
        requires
            old(m).wf(),
            failed < MAX_RETRY_COUNT,
            old(self)@.stage == (Stage::Finishing { failed }),
            old(counter)@.success + old(counter)@.failed < u32::MAX,
        ensures
            final(m).wf(),
            final(self).wf(),
            ({
                let turn = worker_turn(old(self)@, old(m)@, old(counter)@, EventView::Finished(outcome(*result)));
                &&& final(self)@ == (WorkerView { stage: turn.stage, ..old(self)@ })
                &&& final(m)@ == turn.manager
                &&& final(counter)@ == turn.session
                &&& r == turn.action
                &&& sent(final(out)@) == sent(old(out)@) + turn.effects
            }),
    {
        match result {
            Ok(()) => {
                counter.record_success();
                self.settle(counter)
            },
            Err(_) => {
                let tries: u32 = failed + 1;
                if tries >= MAX_RETRY_COUNT {
                    counter.record_failure(&self.filename);
                    return self.settle(counter);
                }
                update_task_status(m, &self.upload_id, TaskStatus::Running, None, out);
                self.stage = Stage::FinishResting { failed: tries };
                WorkerAction::Rest
            },
        }
    }

    /// Takes an event in, and says what the worker does next.
    pub fn step(
        &mut self,
        m: &mut Manager,
        counter: &mut SessionCounter,
        event: &WorkerEvent,
        out: &mut Vec<Effect<String>>,
    ) -> (r: WorkerAction)
        requires
            old(m).wf(),
            old(self).wf(),
            old(counter)@.success + old(counter)@.failed < u32::MAX,
        ensures
            final(m).wf(),
            final(self).wf(),
            ({
                let turn = worker_turn(old(self)@, old(m)@, old(counter)@, event@);
                &&& final(self)@ == (WorkerView { stage: turn.stage, ..old(self)@ })
                &&& final(m)@ == turn.manager
                &&& final(counter)@ == turn.session
                &&& r == turn.action
                &&& sent(final(out)@) == sent(old(out)@) + turn.effects
            }),
    {
        match (self.stage, event) {
            (Stage::Waiting, WorkerEvent::Cancelled) => {
                update_task_status(m, &self.upload_id, TaskStatus::Cancelled, Some("已取消".to_string()), out);
                self.stage = Stage::Done;
                WorkerAction::Stop { record: false }
            },
            (Stage::Waiting, WorkerEvent::Closed) => {
                self.stage = Stage::Done;
                WorkerAction::Stop { record: false }
            },
            (Stage::Waiting, WorkerEvent::Permit) => self.enter(m, counter, out),
            (Stage::Sending { failed }, WorkerEvent::Chunks(result)) => self.after_chunks(
                failed,
                m,
                counter,
                result,
                out,
            ),
            (Stage::Resting { failed }, WorkerEvent::Elapsed) => {
                update_task_status(m, &self.upload_id, TaskStatus::Running, None, out);
                self.stage = Stage::Sending { failed };
                WorkerAction::Send
            },
            (Stage::Finishing { failed }, WorkerEvent::Finished(result)) => self.after_finish(
                failed,
                m,
                counter,
                result,
                out,
            ),
            (Stage::FinishResting { failed }, WorkerEvent::Elapsed) => {
                self.stage = Stage::Finishing { failed };
                WorkerAction::Finish
            },
            _ => WorkerAction::Ignore,
        }
    }
}

/// How many turns a worker may still take.
pub open spec fn turns_left(stage: Stage) -> nat {
    match stage {
        Stage::Waiting => 13,
        Stage::Sending { failed } => (6 + 2 * (MAX_RETRY_COUNT - failed)) as nat,
        Stage::Resting { failed } => (7 + 2 * (MAX_RETRY_COUNT - failed)) as nat,
        Stage::Finishing { failed } => (2 * (MAX_RETRY_COUNT - failed)) as nat,
        Stage::FinishResting { failed } => (1 + 2 * (MAX_RETRY_COUNT - failed)) as nat,
        Stage::Done => 0,
    }
}

/// A worker ends: each turn that it takes brings it nearer to its end, so that its chunks are sent
/// and its completion is asked for no more often than the limit.
pub proof fn law_worker_ends(w: WorkerView, m: ManagerView, s: SessionView, event: EventView)
    requires
        stage_ok(w.stage),
    ensures
        stage_ok(worker_turn(w, m, s, event).stage),
        worker_turn(w, m, s, event).action != WorkerAction::Ignore ==> turns_left(worker_turn(w, m, s, event).stage)
            < turns_left(w.stage),
        worker_turn(w, m, s, event).action == WorkerAction::Ignore ==> worker_turn(w, m, s, event) == (Turn {
            stage: w.stage,
            manager: m,
            session: s,
            action: WorkerAction::Ignore,
            effects: Seq::empty(),
        }),
{
}

/// A worker counts its upload at most once, and only as it ends: as sent, or as failed under its
/// name, the one for a cancelled or the one for a paused upload.
pub proof fn law_worker_counts_once(w: WorkerView, m: ManagerView, s: SessionView, event: EventView)
    ensures
        w.stage == Stage::Done ==> worker_turn(w, m, s, event).session == s,
        worker_turn(w, m, s, event).stage != Stage::Done ==> worker_turn(w, m, s, event).session == s,
        ({
            let after = worker_turn(w, m, s, event).session;
            ||| after == s
            ||| after == one_success(s)
            ||| after == one_failure(s, w.filename)
            ||| after == one_failure(s, cancelled_name(w.filename))
            ||| after == one_failure(s, paused_name(w.filename))
        }),
{
}

/// A worker whose turn it is to send chunks holds a permit, and one that has the backend complete
/// its upload does not.
pub proof fn law_permit_while_sending(w: WorkerView, m: ManagerView, s: SessionView, event: EventView)
    ensures
        worker_turn(w, m, s, event).action == WorkerAction::Send ==> holding(worker_turn(w, m, s, event).stage),
        worker_turn(w, m, s, event).action == WorkerAction::Finish ==> !holding(worker_turn(w, m, s, event).stage),
        worker_turn(w, m, s, event).action is Stop ==> !holding(worker_turn(w, m, s, event).stage),
{
}

/// A worker counts its upload as sent only once the backend has completed it. When the chunks have been
/// sent, and the task was not cancelled, paused or completed meanwhile, the backend is asked to complete
/// the upload, and nothing has been counted. Whatever happens, one success more means that the backend
/// has just completed the upload, or had done so before.
pub proof fn law_sent_means_completed(w: WorkerView, m: ManagerView, s: SessionView, event: EventView)
    ensures
        ({
            let turn = worker_turn(w, m, s, event);
            let known = m.tasks.contains_key(w.upload_id);
            let status = m.tasks[w.upload_id].status;
            &&& w.stage is Sending && event == EventView::Chunks(Ok(())) && !(known && (status == TaskStatus::Cancelled
                || status == TaskStatus::Paused || status == TaskStatus::Completed)) ==> {
                &&& turn.action == WorkerAction::Finish
                &&& turn.stage == (Stage::Finishing { failed: 0 })
                &&& turn.session == s
                &&& turn.manager == m
                &&& turn.effects.len() == 0
            }
            &&& turn.session.success != s.success ==> {
                ||| w.stage is Finishing && event is Finished && event->Finished_0 is Ok
                ||| w.stage is Sending && event is Chunks && event->Chunks_0 is Ok && known && status
                    == TaskStatus::Completed
            }
        }),
{
}

/// An upload that the backend has completed, or whose task was completed by the time its chunks had been
/// sent, is counted as sent, once, and the worker ends; nothing else is counted or changed.
pub proof fn law_completed_is_counted(w: WorkerView, m: ManagerView, s: SessionView, event: EventView)
    requires
        s.success < u32::MAX,
        (w.stage is Finishing && event == EventView::Finished(Ok(()))) || (w.stage is Sending && event
            == EventView::Chunks(Ok(())) && m.tasks.contains_key(w.upload_id) && m.tasks[w.upload_id].status
            == TaskStatus::Completed),
    ensures
        ({
            let turn = worker_turn(w, m, s, event);
            &&& turn.stage == Stage::Done
            &&& turn.session.success == s.success + 1
            &&& turn.session.failed == s.failed
            &&& turn.session.failed_files == s.failed_files
            &&& turn.session.total == s.total
            &&& turn.session.time == s.time
            &&& turn.manager == m
            &&& turn.effects.len() == 0
            &&& turn.action == (WorkerAction::Stop { record: s.success + 1 + s.failed >= s.total })
        }),
{
}

/// An upload that was cancelled while its chunks were sent counts as failed, under a name that says so;
/// one that was stopped by a pause counts so too. One whose task was paused as its last chunk arrived is
/// not counted: it will be resumed. In each case the worker ends and the task stays as it is.
pub proof fn law_stopped_uploads(w: WorkerView, m: ManagerView, s: SessionView)
    requires
        w.stage is Sending,
        s.failed < u32::MAX,
    ensures
        ({
            let turn = worker_turn(w, m, s, EventView::Chunks(Ok(())));
            &&& m.tasks.contains_key(w.upload_id) && m.tasks[w.upload_id].status == TaskStatus::Cancelled ==> {
                &&& turn.stage == Stage::Done
                &&& turn.session.failed == s.failed + 1
                &&& turn.session.failed_files == s.failed_files.push("<cancelled> "@ + w.filename)
                &&& turn.session.success == s.success
                &&& turn.action == (WorkerAction::Stop { record: s.success + s.failed + 1 >= s.total })
                &&& turn.manager == m
                &&& turn.effects.len() == 0
            }
            &&& m.tasks.contains_key(w.upload_id) && m.tasks[w.upload_id].status == TaskStatus::Paused ==> {
                &&& turn.stage == Stage::Done
                &&& turn.session == s
                &&& turn.action == (WorkerAction::Stop { record: s.success + s.failed >= s.total })
                &&& turn.manager == m
                &&& turn.effects.len() == 0
            }
        }),
        ({
            let turn = worker_turn(w, m, s, EventView::Chunks(Err("paused"@)));
            &&& turn.stage == Stage::Done
            &&& turn.session.failed == s.failed + 1
            &&& turn.session.failed_files == s.failed_files.push("<paused> "@ + w.filename)
            &&& turn.session.success == s.success
            &&& turn.action == (WorkerAction::Stop { record: s.success + s.failed + 1 >= s.total })
            &&& turn.manager == m
            &&& turn.effects.len() == 0
        }),
{
}

/// The task with this id counts this many retries and is otherwise as it was, and so is everything else.
pub open spec fn only_retries(before: ManagerView, after: ManagerView, id: Seq<char>, retries: int) -> bool {
    &&& after.tasks.dom() == before.tasks.dom()
    &&& forall|k: Seq<char>| k != id && #[trigger] before.tasks.contains_key(k) ==> after.tasks[k] == before.tasks[k]
    &&& before.tasks.contains_key(id) ==> after.tasks[id] == (TaskView {
        retry_count: retries as u32,
        ..before.tasks[id]
    })
    &&& after == (ManagerView { tasks: after.tasks, ..before })
}

/// Chunks that could not be sent are sent again after a rest, twice; the task tells how often it was
/// tried. At the third failure the upload counts as failed, under its name; so it does where everything
/// has been cancelled or paused meanwhile. Nothing is counted before.
pub proof fn law_sending_is_tried_three_times(w: WorkerView, m: ManagerView, s: SessionView, error: Seq<char>)
    requires
        w.stage is Sending,
        w.stage->Sending_failed < 3,
        error != "paused"@,
        s.failed < u32::MAX,
    ensures
        ({
            let failed = w.stage->Sending_failed;
            let turn = worker_turn(w, m, s, EventView::Chunks(Err(error)));
            let gives_up = failed == 2 || m.global_cancelled || m.global_paused;
            &&& only_retries(m, turn.manager, w.upload_id, failed + 1)
            &&& turn.session.success == s.success
            &&& !gives_up ==> {
                &&& turn.action == WorkerAction::Rest
                &&& turn.stage == (Stage::Resting { failed: (failed + 1) as u32 })
                &&& turn.session == s
            }
            &&& gives_up ==> {
                &&& turn.action == (WorkerAction::Stop { record: s.success + s.failed + 1 >= s.total })
                &&& turn.stage == Stage::Done
                &&& turn.session.failed == s.failed + 1
                &&& turn.session.failed_files == s.failed_files.push(w.filename)
            }
            &&& turn.effects == (if failed == 2 {
                seq![Effect::Save]
            } else {
                seq![
                    Effect::Save,
                    Effect::Broadcast(Message::Retrying { upload_id: w.upload_id, retry_count: (failed + 1) as u32 }),
                ]
            })
        }),
{
    let turn = worker_turn(w, m, s, EventView::Chunks(Err(error)));
    assert(turn.manager.tasks.dom() =~= m.tasks.dom());
}

/// A backend that did not complete an upload is asked again after a rest, twice, for which the task runs
/// on; at the third failure the upload counts as failed, under its name.
pub proof fn law_completing_is_tried_three_times(w: WorkerView, m: ManagerView, s: SessionView, error: Seq<char>)
    requires
        w.stage is Finishing,
        w.stage->Finishing_failed < 3,
        s.failed < u32::MAX,
    ensures
        ({
            let failed = w.stage->Finishing_failed;
            let turn = worker_turn(w, m, s, EventView::Finished(Err(error)));
            &&& failed < 2 ==> {
                &&& turn.action == WorkerAction::Rest
                &&& turn.stage == (Stage::FinishResting { failed: (failed + 1) as u32 })
                &&& turn.session == s
                &&& m.tasks.contains_key(w.upload_id) ==> turn.manager.tasks[w.upload_id] == (TaskView {
                    status: TaskStatus::Running,
                    error: None,
                    ..m.tasks[w.upload_id]
                })
                &&& turn.manager.tasks.dom() == m.tasks.dom()
                &&& forall|k: Seq<char>|
                    k != w.upload_id && #[trigger] m.tasks.contains_key(k) ==> turn.manager.tasks[k] == m.tasks[k]
                &&& turn.manager == (ManagerView { tasks: turn.manager.tasks, ..m })
                &&& turn.effects == seq![Effect::<Seq<char>>::Save]
            }
            &&& failed == 2 ==> {
                &&& turn.action == (WorkerAction::Stop { record: s.success + s.failed + 1 >= s.total })
                &&& turn.stage == Stage::Done
                &&& turn.session.success == s.success
                &&& turn.session.failed == s.failed + 1
                &&& turn.session.failed_files == s.failed_files.push(w.filename)
                &&& turn.manager == m
                &&& turn.effects.len() == 0
            }
        }),
{
    let turn = worker_turn(w, m, s, EventView::Finished(Err(error)));
    assert(turn.manager.tasks.dom() =~= m.tasks.dom());
}

/// After a rest the worker goes on with what failed, as often tried as before; where it sends the chunks
/// again, the task runs.
pub proof fn law_rests_end(w: WorkerView, m: ManagerView, s: SessionView)
    ensures
        ({
            let turn = worker_turn(w, m, s, EventView::Elapsed);
            &&& w.stage is Resting ==> {
                &&& turn.action == WorkerAction::Send
                &&& turn.stage == (Stage::Sending { failed: w.stage->Resting_failed })
                &&& turn.session == s
                &&& m.tasks.contains_key(w.upload_id) ==> turn.manager.tasks[w.upload_id] == (TaskView {
                    status: TaskStatus::Running,
                    error: None,
                    ..m.tasks[w.upload_id]
                })
                &&& turn.manager.tasks.dom() == m.tasks.dom()
                &&& forall|k: Seq<char>|
                    k != w.upload_id && #[trigger] m.tasks.contains_key(k) ==> turn.manager.tasks[k] == m.tasks[k]
                &&& turn.manager == (ManagerView { tasks: turn.manager.tasks, ..m })
                &&& turn.effects == seq![Effect::<Seq<char>>::Save]
            }
            &&& w.stage is FinishResting ==> {
                &&& turn.action == WorkerAction::Finish
                &&& turn.stage == (Stage::Finishing { failed: w.stage->FinishResting_failed })
                &&& turn.session == s
                &&& turn.manager == m
                &&& turn.effects.len() == 0
            }
        }),
{
    let turn = worker_turn(w, m, s, EventView::Elapsed);
    assert(turn.manager.tasks.dom() =~= m.tasks.dom());
}

/// A worker that gets its permit sends exactly the uploads whose task waits, failed or is paused, unless
/// everything is paused; then the task is. One that is cancelled before cancels its task. None of this is
/// counted, and no other task is touched.
pub proof fn law_worker_starts(w: WorkerView, m: ManagerView, s: SessionView, other: Seq<char>)
    requires
        w.stage is Waiting,
    ensures
        ({
            let turn = worker_turn(w, m, s, EventView::Permit);
            let known = m.tasks.contains_key(w.upload_id);
            let status = m.tasks[w.upload_id].status;
            let waits = known && (status == TaskStatus::Pending || status == TaskStatus::Failed || status
                == TaskStatus::Paused);
            &&& turn.session == s
            &&& waits && !m.global_paused ==> turn.action == WorkerAction::Send && turn.stage == (Stage::Sending {
                failed: 0,
            }) && turn.manager == m && turn.effects.len() == 0
            &&& !waits ==> turn.action == (WorkerAction::Stop { record: false }) && turn.stage == Stage::Done
                && turn.manager == m && turn.effects.len() == 0
            &&& waits && m.global_paused ==> {
                &&& turn.action == (WorkerAction::Stop { record: false })
                &&& turn.stage == Stage::Done
                &&& turn.manager.tasks[w.upload_id].status == TaskStatus::Paused
                &&& turn.manager.paused == m.paused.insert(w.upload_id)
                &&& turn.manager.tokens == m.tokens
                &&& turn.effects == seq![
                    Effect::Save,
                    Effect::Broadcast(Message::Paused { upload_id: w.upload_id }),
                ]
            }
            &&& other != w.upload_id && m.tasks.contains_key(other) ==> turn.manager.tasks.contains_key(other)
                && turn.manager.tasks[other] == m.tasks[other]
        }),
        ({
            let turn = worker_turn(w, m, s, EventView::Cancelled);
            &&& turn.session == s
            &&& turn.action == (WorkerAction::Stop { record: false })
            &&& turn.stage == Stage::Done
            &&& m.tasks.contains_key(w.upload_id) ==> turn.manager.tasks[w.upload_id] == (TaskView {
                status: TaskStatus::Cancelled,
                error: Some("已取消"@),
                ..m.tasks[w.upload_id]
            })
            &&& other != w.upload_id && m.tasks.contains_key(other) ==> turn.manager.tasks.contains_key(other)
                && turn.manager.tasks[other] == m.tasks[other]
            &&& turn.effects == seq![Effect::<Seq<char>>::Save]
        }),
        ({
            let turn = worker_turn(w, m, s, EventView::Closed);
            &&& turn.session == s
            &&& turn.manager == m
            &&& turn.action == (WorkerAction::Stop { record: false })
            &&& turn.stage == Stage::Done
        }),
{
}

/// What a worker does next fits where it stands: it sends chunks only while it holds its permit and has
/// failed fewer than three times, and it takes in only what it waits for.
pub proof fn law_worker_expects(w: WorkerView, m: ManagerView, s: SessionView, event: EventView)
    ensures
        ({
            let turn = worker_turn(w, m, s, event);
            let expected = match w.stage {
                Stage::Waiting => event is Cancelled || event is Closed || event is Permit,
                Stage::Sending { .. } => event is Chunks,
                Stage::Resting { .. } => event is Elapsed,
                Stage::Finishing { .. } => event is Finished,
                Stage::FinishResting { .. } => event is Elapsed,
                Stage::Done => false,
            };
            &&& turn.action == WorkerAction::Ignore <==> !expected
            &&& !expected ==> turn.stage == w.stage && turn.manager == m && turn.session == s && turn.effects.len()
                == 0
        }),
        holding(w.stage) <==> (w.stage is Sending || w.stage is Resting),
{
}

/// What happens to a worker is told by its kind and by the outcome that it brings.
pub proof fn law_event_is_what_it_brings(event: WorkerEvent)
    ensures
        event is Cancelled <==> event@ is Cancelled,
        event is Closed <==> event@ is Closed,
        event is Permit <==> event@ is Permit,
        event is Elapsed <==> event@ is Elapsed,
        event is Chunks <==> event@ is Chunks,
        event is Finished <==> event@ is Finished,
        event matches WorkerEvent::Chunks(result) ==> (event@->Chunks_0 is Ok <==> result is Ok) && (result is Err
            ==> event@->Chunks_0->Err_0 == result->Err_0@),
        event matches WorkerEvent::Finished(result) ==> (event@->Finished_0 is Ok <==> result is Ok) && (result is Err
            ==> event@->Finished_0->Err_0 == result->Err_0@),
{
}

/// Whatever happens to a worker touches no task but its own, of which it changes only the status, the error
/// and the number of retries, and nothing else but the pause mark of its upload; of the session it changes
/// only the counts and the names. It ends exactly where it stops, and a session is recorded only by the
/// worker that completes it.
pub proof fn law_turn_keeps_the_rest(w: WorkerView, m: ManagerView, s: SessionView, event: EventView, other: Seq<char>)
    ensures
        ({
            let turn = worker_turn(w, m, s, event);
            let id = w.upload_id;
            &&& turn.manager.tasks.contains_key(other) == m.tasks.contains_key(other)
            &&& m.tasks.contains_key(other) && other != id ==> turn.manager.tasks[other] == m.tasks[other]
            &&& m.tasks.contains_key(id) ==> m.tasks[id] == (TaskView {
                status: m.tasks[id].status,
                error: m.tasks[id].error,
                retry_count: m.tasks[id].retry_count,
                ..turn.manager.tasks[id]
            })
            &&& other != id ==> turn.manager.paused.contains(other) == m.paused.contains(other)
            &&& turn.manager == (ManagerView { tasks: turn.manager.tasks, paused: turn.manager.paused, ..m })
            &&& !(w.stage is Waiting && event is Permit && m.global_paused) ==> turn.manager.paused == m.paused
            &&& turn.session.total == s.total
            &&& turn.session.time == s.time
            &&& turn.action is Stop ==> turn.stage == Stage::Done
            &&& turn.stage == Stage::Done && w.stage != Stage::Done ==> turn.action is Stop
            &&& turn.action == (WorkerAction::Stop { record: true }) ==> turn.session.success + turn.session.failed
                >= s.total
            &&& w.stage is Waiting ==> turn.action != (WorkerAction::Stop { record: true })
            &&& w.stage is Waiting && event is Closed ==> turn.effects.len() == 0
            &&& w.stage is Waiting && event is Permit && turn.manager != m ==> turn.manager.tasks[id].error is None
                && turn.manager.tasks[id].retry_count == m.tasks[id].retry_count
        }),
{
}

} // verus!
