//! The manager: the tasks of all users, which of them are paused, which uploads can be stopped,
//! and whether everything has been paused or cancelled.
//!
//! Each operation changes the state at once and lists what is to be done outside, in order.
use vstd::prelude::*;
use crate::text::{opt, same};
use super::message::{send, sent, Effect, Message};
use super::permits::FilePermits;
use super::registry::{IdSet, TokenTable};
use super::store::{
    distinct_ids, lemma_insert_at, lemma_no_tasks, lemma_prefix, lists, restricted, task_map, TaskStore,
};
use super::{TaskStatus, TaskView, TransferTask};

verus! {

/// The state of all transfers.
pub struct Manager {
    pub tasks: TaskStore,
    /// The uploads that have been paused.
    pub paused: IdSet,
    /// The cancellation tokens of the running uploads.
    pub tokens: TokenTable,
    /// The permits of the uploads whose files are being sent.
    pub sending: FilePermits,
    /// The number of the batch that was begun last.
    pub batch: u64,
    /// The batch that was begun last has been cancelled.
    pub batch_cancelled: bool,
    /// Everything has been cancelled: no upload starts until the user asks for a new one.
    pub global_cancelled: bool,
    /// Everything has been paused: no upload starts until all are resumed or the user asks for a new one.
    pub global_paused: bool,
}

/// What the state of all transfers holds.
#[verifier::ext_equal]
pub struct ManagerView {
    pub tasks: Map<Seq<char>, TaskView>,
    pub paused: Set<Seq<char>>,
    pub tokens: Map<Seq<char>, u64>,
    pub sending: Seq<Seq<char>>,
    pub batch: u64,
    pub batch_cancelled: bool,
    pub global_cancelled: bool,
    pub global_paused: bool,
}

impl View for Manager {
    type V = ManagerView;

    open spec fn view(&self) -> ManagerView {
        ManagerView {
            tasks: self.tasks@,
            paused: self.paused@,
            tokens: self.tokens@,
            sending: self.sending@,
            batch: self.batch,
            batch_cancelled: self.batch_cancelled,
            global_cancelled: self.global_cancelled,
            global_paused: self.global_paused,
        }
    }
}

/// The task waits or runs.
pub open spec fn queued(task: TaskView) -> bool {
    task.status == TaskStatus::Running || task.status == TaskStatus::Pending
}

/// The task waits, runs or is paused.
pub open spec fn active(task: TaskView) -> bool {
    queued(task) || task.status == TaskStatus::Paused
}

/// The task waits or is paused.
pub open spec fn held(task: TaskView) -> bool {
    task.status == TaskStatus::Paused || task.status == TaskStatus::Pending
}

/// The task may be resumed.
pub open spec fn resumable(task: TaskView) -> bool {
    task.status == TaskStatus::Paused || task.status == TaskStatus::Failed || task.status == TaskStatus::Pending
}

/// The task belongs to the user, or to nobody.
pub open spec fn owned(task: TaskView, user: Seq<char>) -> bool {
    task.user_id is None || task.user_id == Some(user)
}

/// What is said of a task whose file is gone.
pub open spec fn file_missing() -> Seq<char> {
    "文件不存在，无法续传"@
}

impl ManagerView {
    /// The task with this id takes this status and this error, if there is one.
    pub open spec fn set_status(self, id: Seq<char>, status: TaskStatus, error: Option<Seq<char>>) -> ManagerView {
        ManagerView {
            tasks: if self.tasks.contains_key(id) {
                self.tasks.insert(id, TaskView { status, error, ..self.tasks[id] })
            } else {
                self.tasks
            },
            ..self
        }
    }

    /// The task with this id is complete, if there is one.
    pub open spec fn complete(self, id: Seq<char>) -> ManagerView {
        ManagerView {
            tasks: if self.tasks.contains_key(id) {
                let task = self.tasks[id];
                self.tasks.insert(
                    id,
                    TaskView { status: TaskStatus::Completed, uploaded_chunks: task.total_chunks, ..task },
                )
            } else {
                self.tasks
            },
            ..self
        }
    }

    /// The upload has no cancellation token.
    pub open spec fn without_token(self, id: Seq<char>) -> ManagerView {
        ManagerView { tokens: self.tokens.remove(id), ..self }
    }

    /// The task has this status.
    pub open spec fn has_status(self, id: Seq<char>, status: TaskStatus) -> bool {
        self.tasks.contains_key(id) && self.tasks[id].status == status
    }
}

/// The upload's token is let go, if it has one.
pub open spec fn forgets(tokens: Map<Seq<char>, u64>, id: Seq<char>) -> Seq<Effect<Seq<char>>> {
    if tokens.contains_key(id) {
        seq![Effect::ForgetToken(tokens[id])]
    } else {
        Seq::empty()
    }
}

/// The upload's token is fired, if it has one.
pub open spec fn cancels(tokens: Map<Seq<char>, u64>, id: Seq<char>) -> Seq<Effect<Seq<char>>> {
    if tokens.contains_key(id) {
        seq![Effect::CancelToken(tokens[id])]
    } else {
        Seq::empty()
    }
}

/// The tokens of the uploads are fired, one upload after the other.
pub open spec fn all_cancels(tokens: Map<Seq<char>, u64>, ids: Seq<Seq<char>>) -> Seq<Effect<Seq<char>>>
    decreases ids.len(),
{
    if ids.len() == 0 {
        Seq::empty()
    } else {
        all_cancels(tokens, ids.drop_last()) + cancels(tokens, ids.last())
    }
}

/// The tokens of the uploads are let go, one upload after the other.
pub open spec fn all_forgets(tokens: Map<Seq<char>, u64>, ids: Seq<Seq<char>>) -> Seq<Effect<Seq<char>>>
    decreases ids.len(),
{
    if ids.len() == 0 {
        Seq::empty()
    } else {
        all_forgets(tokens, ids.drop_last()) + forgets(tokens, ids.last())
    }
}

/// The state when nothing has been done.
pub open spec fn initial() -> ManagerView {
    ManagerView {
        tasks: Map::empty(),
        paused: Set::empty(),
        tokens: Map::empty(),
        sending: Seq::empty(),
        batch: 0,
        batch_cancelled: false,
        global_cancelled: false,
        global_paused: false,
    }
}

/// The tasks of a list by id, in which a later task stands for an earlier one with the same id.
pub open spec fn inserted_all(tasks: Map<Seq<char>, TaskView>, list: Seq<TransferTask>) -> Map<Seq<char>, TaskView>
    decreases list.len(),
{
    if list.len() == 0 {
        tasks
    } else {
        inserted_all(tasks, list.drop_last()).insert(list.last()@.upload_id, list.last()@)
    }
}

/// The tasks that were saved, each under the id with which it was saved. A later one stands for an
/// earlier one with the same id.
pub open spec fn saved_tasks(saved: Seq<(String, TransferTask)>) -> Map<Seq<char>, TaskView>
    decreases saved.len(),
{
    if saved.len() == 0 {
        Map::empty()
    } else {
        saved_tasks(saved.drop_last()).insert(
            saved.last().0@,
            TaskView { upload_id: saved.last().0@, ..saved.last().1@ },
        )
    }
}

/// The task stays when the finished ones are cleared: it belongs to another user, or it is active.
pub open spec fn stays(task: TaskView, user: Seq<char>) -> bool {
    !owned(task, user) || active(task)
}

pub(crate) fn is_owned(task: &TransferTask, user: &str) -> (r: bool)
    ensures
        r == owned(task@, user@),
{
    match &task.user_id {
        Some(u) => same(u, user),
        None => true,
    }
}

pub(crate) fn is_queued(task: &TransferTask) -> (r: bool)
    ensures
        r == queued(task@),
{
    task.status == TaskStatus::Running || task.status == TaskStatus::Pending
}

pub(crate) fn is_active(task: &TransferTask) -> (r: bool)
    ensures
        r == active(task@),
{
    is_queued(task) || task.status == TaskStatus::Paused
}

/// A task under the id with which it was saved.
fn saved_task(id: &str, task: &TransferTask) -> (r: TransferTask)
    ensures
        r@ == (TaskView { upload_id: id@, ..task@ }),
{
    let mut task = task.clone();
    task.upload_id = id.to_string();
    task
}

impl Manager {
    /// The parts of the state are as they should be.
    pub open spec fn wf(&self) -> bool {
        &&& self.tasks.wf()
        &&& self.tokens.wf()
        &&& self.sending.wf()
    }

    /// The state at the start, with the tasks that were found on disk, each with its id.
    pub fn new(saved: &Vec<(String, TransferTask)>) -> (r: Self)
        ensures
            r.wf(),
            r@ == (ManagerView { tasks: saved_tasks(saved@), ..initial() }),
    {
        let mut tasks = TaskStore::new();
        let mut i: usize = 0;
        while i < saved.len()
            invariant
                i <= saved@.len(),
                tasks.wf(),
                tasks@ == saved_tasks(saved@.take(i as int)),
            decreases saved@.len() - i,
        {
            tasks.insert(saved_task(&saved[i].0, &saved[i].1));
            assert(saved@.take(i + 1).drop_last() == saved@.take(i as int));
            i = i + 1;
        }
        assert(saved@.take(i as int) == saved@);
        Manager {
            tasks,
            paused: IdSet::new(),
            tokens: TokenTable::new(),
            sending: FilePermits::new(),
            batch: 0,
            batch_cancelled: false,
            global_cancelled: false,
            global_paused: false,
        }
    }
}

/// Whether an upload has been paused.
pub fn is_paused(m: &Manager, upload_id: &str) -> (r: bool)
    ensures
        r == m@.paused.contains(upload_id@),
{
    m.paused.contains(upload_id)
}

/// Gives an upload the cancellation token with this number.
pub fn register_cancel_token(m: &mut Manager, upload_id: &str, token: u64, out: &mut Vec<Effect<String>>)
    requires
        old(m).wf(),
    ensures
        final(m).wf(),
        final(m)@ == (ManagerView { tokens: old(m)@.tokens.insert(upload_id@, token), ..old(m)@ }),
        sent(final(out)@) == sent(old(out)@) + forgets(old(m)@.tokens, upload_id@),
{
    match m.tokens.get(upload_id) {
        Some(number) => {
            send(out, Effect::ForgetToken(number));
        },
        None => {},
    }
    m.tokens.insert(upload_id, token);
}

/// Takes an upload's cancellation token away.
pub fn remove_cancel_token(m: &mut Manager, upload_id: &str, out: &mut Vec<Effect<String>>)
    requires
        old(m).wf(),
    ensures
        final(m).wf(),
        final(m)@ == old(m)@.without_token(upload_id@),
        sent(final(out)@) == sent(old(out)@) + forgets(old(m)@.tokens, upload_id@),
{
    match m.tokens.get(upload_id) {
        Some(number) => {
            send(out, Effect::ForgetToken(number));
        },
        None => {},
    }
    m.tokens.remove(upload_id);
}

/// Forgets every task.
pub fn clear_tasks(m: &mut Manager, out: &mut Vec<Effect<String>>)
    requires
        old(m).wf(),
    ensures
        final(m).wf(),
        final(m)@ == (ManagerView { tasks: Map::empty(), ..old(m)@ }),
        sent(final(out)@) == sent(old(out)@).push(Effect::Save),
{
    m.tasks.clear();
    send(out, Effect::Save);
}

/// Forgets the user's tasks that are complete, cancelled or failed.
pub fn clear_completed_tasks(m: &mut Manager, user_id: &str, out: &mut Vec<Effect<String>>)
    requires
        old(m).wf(),
    ensures
        final(m).wf(),
        final(m)@ == (ManagerView {
            tasks: restricted(old(m)@.tasks, |t: TaskView| stays(t, user_id@)),
            ..old(m)@
        }),
        sent(final(out)@) == sent(old(out)@) + seq![Effect::Save, Effect::Broadcast(Message::QueueCleared)],
{
    let ghost p = |t: TaskView| stays(t, user_id@);
    let ghost all = m.tasks.sequence();
    let mut kept = TaskStore::new();
    let mut i: usize = 0;
    proof {
        m.tasks.lemma_ids();
        lemma_no_tasks(all.take(0));
        assert(kept@ =~= restricted(task_map(all.take(0)), p));
    }
    while i < m.tasks.len()
        invariant
            i <= all.len(),
            *m == *old(m),
            all == m.tasks.sequence(),
            distinct_ids(all),
            kept.wf(),
            p == (|t: TaskView| stays(t, user_id@)),
            kept@ == restricted(task_map(all.take(i as int)), p),
        decreases all.len() - i,
    {
        let task = m.tasks.at(i);
        proof {
            lemma_prefix(all, i as int);
        }
        if !is_owned(task, user_id) || is_active(task) {
            kept.insert(task.clone());
            assert(p(task@));
        }
        assert(kept@ =~= restricted(task_map(all.take(i + 1)), p));
        i = i + 1;
    }
    assert(all.take(i as int) == all);
    m.tasks = kept;
    send(out, Effect::Save);
    send(out, Effect::Broadcast(Message::QueueCleared));
}

/// Takes the tasks that were found on disk for the current user, each with its id, in place of those at
/// hand.
pub fn reload_tasks_for_current_user(m: &mut Manager, user_id: &str, saved: &Vec<(String, TransferTask)>)
    requires
        old(m).wf(),
    ensures
        final(m).wf(),
        final(m)@ == (ManagerView {
            tasks: restricted(saved_tasks(saved@), |t: TaskView| owned(t, user_id@)),
            ..old(m)@
        }),
{
    let ghost p = |t: TaskView| owned(t, user_id@);
    let mut tasks = TaskStore::new();
    let mut i: usize = 0;
    assert(tasks@ =~= restricted(saved_tasks(saved@.take(0)), p));
    while i < saved.len()
        invariant
            i <= saved@.len(),
            tasks.wf(),
            p == (|t: TaskView| owned(t, user_id@)),
            tasks@ == restricted(saved_tasks(saved@.take(i as int)), p),
        decreases saved@.len() - i,
    {
        assert(saved@.take(i + 1).drop_last() == saved@.take(i as int));
        if is_owned(&saved[i].1, user_id) {
            tasks.insert(saved_task(&saved[i].0, &saved[i].1));
        } else {
            tasks.remove(&saved[i].0);
        }
        assert(tasks@ =~= restricted(saved_tasks(saved@.take(i + 1)), p));
        i = i + 1;
    }
    assert(saved@.take(i as int) == saved@);
    m.tasks = tasks;
}

/// The newest task comes first.
pub open spec fn newest_first(tasks: Seq<TransferTask>) -> bool {
    forall|i: int, j: int|
        0 <= i < j < tasks.len() ==> (#[trigger] tasks[i]).created_at >= (#[trigger] tasks[j]).created_at
}

/// The tasks that the user may see, the newest first.
pub fn get_all_tasks(m: &Manager, user_id: &str) -> (r: Vec<TransferTask>)
    requires
        m.wf(),
    ensures
        newest_first(r@),
        distinct_ids(r@),
        task_map(r@) == restricted(m@.tasks, |t: TaskView| owned(t, user_id@)),
{
    let ghost p = |t: TaskView| owned(t, user_id@);
    let ghost all = m.tasks.sequence();
    let mut list: Vec<TransferTask> = Vec::new();
    let mut i: usize = 0;
    proof {
        m.tasks.lemma_ids();
        lemma_no_tasks(all.take(0));
        lemma_no_tasks(list@);
        assert(task_map(list@) =~= restricted(task_map(all.take(0)), p));
    }
    while i < m.tasks.len()
        invariant
            i <= all.len(),
            all == m.tasks.sequence(),
            distinct_ids(all),
            distinct_ids(list@),
            newest_first(list@),
            p == (|t: TaskView| owned(t, user_id@)),
            task_map(list@) == restricted(task_map(all.take(i as int)), p),
        decreases all.len() - i,
    {
        let task = m.tasks.at(i);
        proof {
            lemma_prefix(all, i as int);
        }
        if is_owned(task, user_id) {
            let mut at: usize = 0;
            while at < list.len() && list[at].created_at >= task.created_at
                invariant
                    at <= list@.len(),
                    forall|j: int| 0 <= j < at ==> (#[trigger] list@[j]).created_at >= task.created_at,
                decreases list@.len() - at,
            {
                at = at + 1;
            }
            let ghost before = list@;
            proof {
                assert(!task_map(before).contains_key(task.upload_id@));
                lemma_insert_at(before, at as int, *task);
            }
            list.insert(at, task.clone());
            assert(p(task@));
            assert forall|a: int, b: int| 0 <= a < b < list@.len() implies (#[trigger] list@[a]).created_at
                >= (#[trigger] list@[b]).created_at by {
                if a < at && b < at {
                    assert(before[a].created_at >= before[b].created_at);
                } else if a < at && b > at {
                    assert(before[a].created_at >= before[b - 1].created_at);
                } else if a == at {
                    if b - 1 > at {
                        assert(before[at as int].created_at >= before[b - 1].created_at);
                    }
                    assert(before[at as int].created_at < task.created_at);
                } else if a > at {
                    assert(before[a - 1].created_at >= before[b - 1].created_at);
                }
            }
        }
        assert(task_map(list@) =~= restricted(task_map(all.take(i + 1)), p));
        i = i + 1;
    }
    assert(all.take(i as int) == all);
    list
}

/// The task with this id.
pub fn get_task(m: &Manager, upload_id: &str) -> (r: Option<TransferTask>)
    requires
        m.wf(),
    ensures
        match r {
            Some(task) => m@.tasks.contains_key(upload_id@) && m@.tasks[upload_id@] == task@,
            None => !m@.tasks.contains_key(upload_id@),
        },
{
    match m.tasks.get(upload_id) {
        Some(task) => Some(task.clone()),
        None => None,
    }
}

/// Puts a task in, in place of the one with the same id.
pub fn upsert_task(m: &mut Manager, task: TransferTask, out: &mut Vec<Effect<String>>)
    requires
        old(m).wf(),
    ensures
        final(m).wf(),
        final(m)@ == (ManagerView { tasks: old(m)@.tasks.insert(task@.upload_id, task@), ..old(m)@ }),
        sent(final(out)@) == sent(old(out)@).push(Effect::Save),
{
    m.tasks.insert(task);
    send(out, Effect::Save);
}

/// Puts several tasks in, and writes them to disk once.
pub fn upsert_tasks_batch(m: &mut Manager, tasks: &Vec<TransferTask>, out: &mut Vec<Effect<String>>)
    requires
        old(m).wf(),
    ensures
        final(m).wf(),
        final(m)@ == (ManagerView { tasks: inserted_all(old(m)@.tasks, tasks@), ..old(m)@ }),
        sent(final(out)@) == (if tasks@.len() == 0 {
            sent(old(out)@)
        } else {
            sent(old(out)@).push(Effect::Save)
        }),
{
    if tasks.len() == 0 {
        return;
    }
    let mut i: usize = 0;
    while i < tasks.len()
        invariant
            i <= tasks@.len(),
            m.wf(),
            m@ == (ManagerView { tasks: inserted_all(old(m)@.tasks, tasks@.take(i as int)), ..old(m)@ }),
        decreases tasks@.len() - i,
    {
        m.tasks.insert(tasks[i].clone());
        assert(tasks@.take(i + 1).drop_last() == tasks@.take(i as int));
        i = i + 1;
    }
    assert(tasks@.take(i as int) == tasks@);
    send(out, Effect::Save);
}

/// Sets the status and the error of a task.
pub fn update_task_status(
    m: &mut Manager,
    upload_id: &str,
    status: TaskStatus,
    error: Option<String>,
    out: &mut Vec<Effect<String>>,
)
    requires
        old(m).wf(),
    ensures
        final(m).wf(),
        final(m)@ == old(m)@.set_status(upload_id@, status, opt(error)),
        sent(final(out)@) == sent(old(out)@).push(Effect::Save),
{
    match get_task(m, upload_id) {
        Some(task) => {
            let mut task = task;
            proof {
                m.tasks.lemma_ids();
            }
            task.status = status;
            task.error = error;
            m.tasks.insert(task);
        },
        None => {},
    }
    send(out, Effect::Save);
}

/// The task with this id has sent this many chunks, if there is one.
pub open spec fn with_progress(tasks: Map<Seq<char>, TaskView>, id: Seq<char>, uploaded: u32) -> Map<Seq<char>, TaskView> {
    if tasks.contains_key(id) {
        tasks.insert(id, TaskView { uploaded_chunks: uploaded, ..tasks[id] })
    } else {
        tasks
    }
}

pub(crate) fn set_progress(m: &mut Manager, upload_id: &str, uploaded_chunks: u32)
    requires
        old(m).wf(),
    ensures
        final(m).wf(),
        final(m)@ == (ManagerView {
            tasks: with_progress(old(m)@.tasks, upload_id@, uploaded_chunks),
            ..old(m)@
        }),
{
    match get_task(m, upload_id) {
        Some(task) => {
            let mut task = task;
            proof {
                m.tasks.lemma_ids();
            }
            task.uploaded_chunks = uploaded_chunks;
            m.tasks.insert(task);
        },
        None => {},
    }
}

/// Sets how many chunks of a task have been sent.
pub fn update_task_progress(m: &mut Manager, upload_id: &str, uploaded_chunks: u32, out: &mut Vec<Effect<String>>)
    requires
        old(m).wf(),
    ensures
        final(m).wf(),
        final(m)@ == (ManagerView {
            tasks: with_progress(old(m)@.tasks, upload_id@, uploaded_chunks),
            ..old(m)@
        }),
        sent(final(out)@) == sent(old(out)@).push(Effect::Save),
{
    set_progress(m, upload_id, uploaded_chunks);
    send(out, Effect::Save);
}

/// Setting the status of a task gives it that status and that error, and nothing else changes; a task that
/// is not there is not made.
pub proof fn law_status_is_set(
    m: ManagerView,
    id: Seq<char>,
    status: TaskStatus,
    error: Option<Seq<char>>,
    other: Seq<char>,
)
    ensures
        ({
            let after = m.set_status(id, status, error);
            &&& after.tasks.contains_key(other) == m.tasks.contains_key(other)
            &&& m.tasks.contains_key(id) ==> after.tasks[id].status == status && after.tasks[id].error == error
            &&& m.tasks.contains_key(id) ==> m.tasks[id] == (TaskView {
                status: m.tasks[id].status,
                error: m.tasks[id].error,
                ..after.tasks[id]
            })
            &&& m.tasks.contains_key(other) && other != id ==> after.tasks[other] == m.tasks[other]
            &&& m == (ManagerView { tasks: m.tasks, ..after })
        }),
{
}

/// A task that is complete has sent all its chunks, and keeps everything else that it holds; nothing else
/// changes.
pub proof fn law_complete_is_complete(m: ManagerView, id: Seq<char>, other: Seq<char>)
    ensures
        ({
            let after = m.complete(id);
            &&& after.tasks.contains_key(other) == m.tasks.contains_key(other)
            &&& m.tasks.contains_key(id) ==> {
                &&& after.tasks[id].status == TaskStatus::Completed
                &&& after.tasks[id].uploaded_chunks == m.tasks[id].total_chunks
                &&& m.tasks[id] == (TaskView {
                    status: m.tasks[id].status,
                    uploaded_chunks: m.tasks[id].uploaded_chunks,
                    ..after.tasks[id]
                })
            }
            &&& m.tasks.contains_key(other) && other != id ==> after.tasks[other] == m.tasks[other]
            &&& m == (ManagerView { tasks: m.tasks, ..after })
        }),
{
}

/// The number of chunks that a task has sent is set, and nothing else changes.
pub proof fn law_progress_is_set(tasks: Map<Seq<char>, TaskView>, id: Seq<char>, uploaded: u32, other: Seq<char>)
    ensures
        ({
            let after = with_progress(tasks, id, uploaded);
            &&& after.contains_key(other) == tasks.contains_key(other)
            &&& tasks.contains_key(id) ==> after[id].uploaded_chunks == uploaded
            &&& tasks.contains_key(id) ==> tasks[id] == (TaskView {
                uploaded_chunks: tasks[id].uploaded_chunks,
                ..after[id]
            })
            &&& tasks.contains_key(other) && other != id ==> after[other] == tasks[other]
        }),
{
}

/// A token that is taken away is gone; the tokens of other uploads, and everything else, stay.
pub proof fn law_token_is_taken_away(m: ManagerView, id: Seq<char>, other: Seq<char>)
    ensures
        ({
            let after = m.without_token(id);
            &&& !after.tokens.contains_key(id)
            &&& other != id ==> after.tokens.contains_key(other) == m.tokens.contains_key(other)
            &&& other != id && m.tokens.contains_key(other) ==> after.tokens[other] == m.tokens[other]
            &&& m == (ManagerView { tokens: m.tokens, ..after })
        }),
{
}

/// A task has at most one status, and none where it is not there.
pub proof fn law_one_status(m: ManagerView, id: Seq<char>, status: TaskStatus)
    ensures
        m.tasks.contains_key(id) ==> m.has_status(id, m.tasks[id].status),
        m.has_status(id, status) ==> m.tasks.contains_key(id) && m.tasks[id].status == status,
{
}

/// Every status is of one kind: a task waits or runs, is paused, or has ended; one that is complete or was
/// cancelled cannot be resumed, and one that runs need not be.
pub proof fn law_kinds_of_status(task: TaskView)
    ensures
        match task.status {
            TaskStatus::Pending => queued(task) && active(task) && held(task) && resumable(task),
            TaskStatus::Running => queued(task) && active(task) && !held(task) && !resumable(task),
            TaskStatus::Paused => !queued(task) && active(task) && held(task) && resumable(task),
            TaskStatus::Completed => !queued(task) && !active(task) && !held(task) && !resumable(task),
            TaskStatus::Failed => !queued(task) && !active(task) && !held(task) && resumable(task),
            TaskStatus::Cancelled => !queued(task) && !active(task) && !held(task) && !resumable(task),
        },
{
}

/// A task belongs to the user whose name it bears, and to everybody where it bears none. Clearing drops
/// what belongs to the user and is complete, cancelled or failed, and nothing else.
pub proof fn law_what_is_cleared(task: TaskView, user: Seq<char>, other: Seq<char>)
    ensures
        task.user_id is None ==> owned(task, user),
        task.user_id == Some(user) ==> owned(task, user),
        task.user_id == Some(other) && other != user ==> !owned(task, user) && stays(task, user),
        task.status == TaskStatus::Pending || task.status == TaskStatus::Running || task.status == TaskStatus::Paused
            ==> stays(task, user),
        task.user_id is None || task.user_id == Some(user) ==> (stays(task, user) <==> !(task.status
            == TaskStatus::Completed || task.status == TaskStatus::Failed || task.status == TaskStatus::Cancelled)),
{
}

/// Where the store is narrowed to the tasks that meet a condition, it holds these, unchanged, and no other.
pub proof fn law_narrowed_store(tasks: Map<Seq<char>, TaskView>, p: spec_fn(TaskView) -> bool, id: Seq<char>)
    ensures
        restricted(tasks, p).contains_key(id) <==> tasks.contains_key(id) && p(tasks[id]),
        tasks.contains_key(id) && p(tasks[id]) ==> restricted(tasks, p)[id] == tasks[id],
{
}

/// Of several tasks that are put in, each is there afterwards, the last where two bear the same id.
pub proof fn law_all_are_put_in(tasks: Map<Seq<char>, TaskView>, list: Seq<TransferTask>, i: int)
    requires
        0 <= i < list.len(),
        forall|j: int| i < j < list.len() ==> (#[trigger] list[j]).upload_id@ != list[i].upload_id@,
    ensures
        inserted_all(tasks, list).contains_key(list[i].upload_id@),
        inserted_all(tasks, list)[list[i].upload_id@] == list[i]@,
    decreases list.len(),
{
    let fewer = list.drop_last();
    if i < fewer.len() {
        assert(fewer[i] == list[i]);
        assert forall|j: int| i < j < fewer.len() implies (#[trigger] fewer[j]).upload_id@ != fewer[i].upload_id@ by {
            assert(fewer[j] == list[j]);
        }
        law_all_are_put_in(tasks, fewer, i);
        assert(list[list.len() - 1].upload_id@ != list[i].upload_id@);
    }
}

/// Where several tasks are put in, the tasks under other ids stay.
pub proof fn law_others_stay(tasks: Map<Seq<char>, TaskView>, list: Seq<TransferTask>, id: Seq<char>)
    requires
        forall|i: int| 0 <= i < list.len() ==> (#[trigger] list[i]).upload_id@ != id,
    ensures
        inserted_all(tasks, list).contains_key(id) == tasks.contains_key(id),
        inserted_all(tasks, list)[id] == tasks[id],
    decreases list.len(),
{
    if list.len() > 0 {
        let fewer = list.drop_last();
        assert forall|i: int| 0 <= i < fewer.len() implies (#[trigger] fewer[i]).upload_id@ != id by {
            assert(fewer[i] == list[i]);
        }
        law_others_stay(tasks, fewer, id);
        assert(list[list.len() - 1].upload_id@ != id);
    }
}

/// Every task that was saved is there at the start, under the id with which it was saved, and it bears that
/// id; of two under one id, the last.
pub proof fn law_saved_tasks_are_there(saved: Seq<(String, TransferTask)>, i: int)
    requires
        0 <= i < saved.len(),
        forall|j: int| i < j < saved.len() ==> (#[trigger] saved[j]).0@ != saved[i].0@,
    ensures
        saved_tasks(saved).contains_key(saved[i].0@),
        saved_tasks(saved)[saved[i].0@].upload_id == saved[i].0@,
        saved_tasks(saved)[saved[i].0@] == (TaskView { upload_id: saved[i].0@, ..saved[i].1@ }),
    decreases saved.len(),
{
    let fewer = saved.drop_last();
    if i < fewer.len() {
        assert(fewer[i] == saved[i]);
        assert forall|j: int| i < j < fewer.len() implies (#[trigger] fewer[j]).0@ != fewer[i].0@ by {
            assert(fewer[j] == saved[j]);
        }
        law_saved_tasks_are_there(fewer, i);
        assert(saved[saved.len() - 1].0@ != saved[i].0@);
    }
}

/// No task is there at the start but those that were saved.
pub proof fn law_only_saved_tasks_are_there(saved: Seq<(String, TransferTask)>, id: Seq<char>)
    requires
        forall|i: int| 0 <= i < saved.len() ==> (#[trigger] saved[i]).0@ != id,
    ensures
        !saved_tasks(saved).contains_key(id),
    decreases saved.len(),
{
    if saved.len() > 0 {
        let fewer = saved.drop_last();
        assert forall|i: int| 0 <= i < fewer.len() implies (#[trigger] fewer[i]).0@ != id by {
            assert(fewer[i] == saved[i]);
        }
        law_only_saved_tasks_are_there(fewer, id);
        assert(saved[saved.len() - 1].0@ != id);
    }
}

/// At the start there is no task, no upload is paused or can be stopped, no file is being sent, and nothing
/// has been paused or cancelled.
pub proof fn law_nothing_at_the_start(id: Seq<char>)
    ensures
        !initial().tasks.contains_key(id),
        !initial().paused.contains(id),
        !initial().tokens.contains_key(id),
        initial().sending.len() == 0,
        initial().batch == 0,
        !initial().batch_cancelled && !initial().global_cancelled && !initial().global_paused,
{
}

/// What a list of tasks holds is what each of them holds, under its own id; where the newest come first, no
/// task is older than the next.
pub proof fn law_listed_tasks(tasks: Seq<TransferTask>, i: int, j: int, id: Seq<char>)
    requires
        distinct_ids(tasks),
        0 <= i < j < tasks.len(),
    ensures
        tasks[i].upload_id@ != tasks[j].upload_id@,
        task_map(tasks).contains_key(tasks[i].upload_id@),
        task_map(tasks)[tasks[i].upload_id@] == tasks[i]@,
        task_map(tasks)[tasks[j].upload_id@] == tasks[j]@,
        task_map(tasks).contains_key(id) <==> exists|k: int|
            0 <= k < tasks.len() && (#[trigger] tasks[k]).upload_id@ == id,
        newest_first(tasks) ==> tasks[i].created_at >= tasks[j].created_at,
{
    let at = super::store::task_position(tasks, tasks[i].upload_id@);
    assert(0 <= at < tasks.len() && tasks[at].upload_id@ == tasks[i].upload_id@);
    assert(at == i);
    let at = super::store::task_position(tasks, tasks[j].upload_id@);
    assert(0 <= at < tasks.len() && tasks[at].upload_id@ == tasks[j].upload_id@);
    assert(at == j);
}

/// A task is known by what it holds: its texts, its numbers, its status and its times, each in its place.
pub proof fn law_task_is_what_it_holds(task: TransferTask)
    ensures
        task@.upload_id == task.upload_id@,
        task@.filename == task.filename@,
        task@.file_size == task.file_size,
        task@.total_chunks == task.total_chunks,
        task@.uploaded_chunks == task.uploaded_chunks,
        task@.status == task.status,
        task@.created_at == task.created_at,
        task@.chunk_size == task.chunk_size,
        task@.retry_count == task.retry_count,
        task@.error is Some <==> task.error is Some,
        task.error is Some ==> task@.error->0 == task.error->0@,
        task@.file_path is Some <==> task.file_path is Some,
        task.file_path is Some ==> task@.file_path->0 == task.file_path->0@,
        task@.user_id is Some <==> task.user_id is Some,
        task.user_id is Some ==> task@.user_id->0 == task.user_id->0@,
        task@.project_id is Some <==> task.project_id is Some,
        task.project_id is Some ==> task@.project_id->0 == task.project_id->0@,
        task@.folder_id is Some <==> task.folder_id is Some,
        task.folder_id is Some ==> task@.folder_id->0 == task.folder_id->0@,
{
}

} // verus!
