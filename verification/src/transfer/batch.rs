//! A batch of uploads: what the user is asked to pick, how the files are begun a few at a time, and
//! how the begun ones are handed to workers.
use vstd::prelude::*;
use vstd::string::*;
use crate::text::{copy_opt, decimal, opt, push_decimal, strings};
use super::control::{orphaned, resume_orphaned_tasks, resumes};
use super::init::InitDone;
use super::manager::{
    get_task, inserted_all, queued, update_task_status, upsert_task, upsert_tasks_batch, Manager, ManagerView,
};
use super::message::{send, sent, Effect, Message, Notice};
use super::session::{one_failure, one_success, session_complete, SessionCounter};
use super::store::lists;
use super::worker::taken;
use super::{DetailView, TaskStatus, TaskView, TransferTask, UploadTaskDetail};

verus! {

/// How many files are sent at a time.
pub const MAX_CONCURRENT_FILES: usize = 3;

/// How many files are begun at a time.
pub const MAX_CONCURRENT_INIT: usize = 8;

/// How many begun uploads may wait for a permit or run.
pub const WORKER_WINDOW: usize = 6;

/// How many begun uploads are written to disk at once.
pub const BATCH_WRITE_SIZE: usize = 100;

/// What the user is asked to pick.
#[derive(Debug, Clone, Copy, PartialEq, Eq, Structural)]
pub enum Pick {
    Folder,
    File,
    Files,
}

/// What the user is asked to pick for this many files; none means a folder.
pub open spec fn pick_for(count: u32) -> Pick {
    if count == 0 {
        Pick::Folder
    } else if count == 1 {
        Pick::File
    } else {
        Pick::Files
    }
}

/// What the user is told to pick.
pub open spec fn pick_title(count: u32) -> Seq<char> {
    match pick_for(count) {
        Pick::Folder => "选择要上传的文件夹"@,
        Pick::File => "选择要上传的文件"@,
        Pick::Files => "选择要上传的 "@ + decimal(count as nat) + " 个文件"@,
    }
}

/// What the user is asked to pick, and in which words.
pub fn pick(count: u32) -> (r: (Pick, String))
    ensures
        r.0 == pick_for(count),
        r.1@ == pick_title(count),
{
    if count == 0 {
        (Pick::Folder, "选择要上传的文件夹".to_string())
    } else if count == 1 {
        (Pick::File, "选择要上传的文件".to_string())
    } else {
        let mut title = "选择要上传的 ".to_string();
        push_decimal(&mut title, count as u64);
        title.append(" 个文件");
        (Pick::Files, title)
    }
}

/// What the user is told to pick for an upload whose file is known by name.
pub fn file_picker_title(filename: &str) -> (r: String)
    ensures
        r@ == "选择文件："@ + filename@,
{
    let mut title = "选择文件：".to_string();
    title.append(filename);
    title
}

/// Where the files of a batch come from.
#[derive(Debug, Clone, Copy, PartialEq, Eq, Structural)]
pub enum Source {
    /// There are none.
    Nothing,
    /// The files in the picked folder.
    Folder,
    /// The picked paths.
    Paths,
}

/// Where the files come from when this many paths were picked, the first of which is a folder or
/// not.
pub open spec fn source_of(count: u32, paths: nat, first_is_folder: bool) -> Source {
    if paths == 0 {
        Source::Nothing
    } else if count == 0 && paths == 1 {
        if first_is_folder {
            Source::Folder
        } else {
            Source::Nothing
        }
    } else {
        Source::Paths
    }
}

/// Where the files of a batch come from.
pub fn choose_source(count: u32, paths: usize, first_is_folder: bool) -> (r: Source)
    ensures
        r == source_of(count, paths as nat, first_is_folder),
{
    if paths == 0 {
        Source::Nothing
    } else if count == 0 && paths == 1 {
        if first_is_folder {
            Source::Folder
        } else {
            Source::Nothing
        }
    } else {
        Source::Paths
    }
}

/// The token that is used: the given one, or else the one at hand.
pub open spec fn token_used(given: Option<Seq<char>>, stored: Option<Seq<char>>) -> Option<Seq<char>> {
    match given {
        Some(token) => Some(token),
        None => stored,
    }
}

/// The token that is used.
pub fn choose_token(given: &Option<String>, stored: &Option<String>) -> (r: Option<String>)
    ensures
        opt(r) == token_used(opt(*given), opt(*stored)),
{
    match given {
        Some(token) => Some(token.clone()),
        None => copy_opt(stored),
    }
}

/// The number of the batch behind this one.
pub open spec fn next_batch(batch: u64) -> u64 {
    if batch < u64::MAX {
        (batch + 1) as u64
    } else {
        0
    }
}

/// The state after a batch has been begun.
pub open spec fn batch_begun(m: ManagerView) -> ManagerView {
    ManagerView {
        global_cancelled: false,
        global_paused: false,
        batch: next_batch(m.batch),
        batch_cancelled: false,
        ..m
    }
}

/// Begins a batch, with a number of its own: that everything was cancelled or paused before does not
/// concern it. The result is the token that the batch uses; without one no file is sent. The uploads that
/// were paused stay so.
pub fn enqueue_upload_by_params(m: &mut Manager, given: &Option<String>, stored: &Option<String>) -> (r: Option<
    String,
>)
    requires
        old(m).wf(),
    ensures
        final(m).wf(),
        final(m)@ == batch_begun(old(m)@),
        opt(r) == token_used(opt(*given), opt(*stored)),
{
    m.global_cancelled = false;
    m.global_paused = false;
    m.batch = if m.batch < u64::MAX {
        m.batch + 1
    } else {
        0
    };
    m.batch_cancelled = false;
    choose_token(given, stored)
}

/// The task takes this status and keeps its error, if there is one.
pub open spec fn marked(m: ManagerView, id: Seq<char>, status: TaskStatus) -> ManagerView {
    ManagerView {
        tasks: if m.tasks.contains_key(id) {
            m.tasks.insert(id, TaskView { status, ..m.tasks[id] })
        } else {
            m.tasks
        },
        ..m
    }
}

fn mark(m: &mut Manager, upload_id: &str, status: TaskStatus, out: &mut Vec<Effect<String>>)
    requires
        old(m).wf(),
    ensures
        final(m).wf(),
        final(m)@ == marked(old(m)@, upload_id@, status),
        sent(final(out)@) == sent(old(out)@).push(Effect::Save),
{
    match get_task(m, upload_id) {
        Some(task) => {
            let mut task = task;
            proof {
                m.tasks.lemma_ids();
            }
            task.status = status;
            m.tasks.insert(task);
        },
        None => {},
    }
    send(out, Effect::Save);
}

/// The beginning of a batch's files, a few at a time. The files are numbered from 0.
pub struct InitPhase {
    total: usize,
    next: usize,
    in_flight: usize,
    batch: Vec<TransferTask>,
}

/// How far the beginning of a batch's files has come.
#[verifier::ext_equal]
pub struct PhaseView {
    /// How many files there are.
    pub total: usize,
    /// The first file that is not under way.
    pub next: usize,
    /// How many files are under way.
    pub in_flight: usize,
    /// The tasks that are not in the store yet.
    pub batch: Seq<TransferTask>,
}

impl View for InitPhase {
    type V = PhaseView;

    closed spec fn view(&self) -> PhaseView {
        PhaseView { total: self.total, next: self.next, in_flight: self.in_flight, batch: self.batch@ }
    }
}

/// Never more files are under way than may be, no file is begun before those in front of it, and
/// few tasks wait to be written.
pub open spec fn phase_ok(p: PhaseView) -> bool {
    &&& p.in_flight <= MAX_CONCURRENT_INIT
    &&& p.in_flight <= p.next <= p.total
    &&& p.batch.len() <= BATCH_WRITE_SIZE
}

/// What to do with an upload that has begun.
pub enum Begun {
    /// Nothing more. The record of the batch is due if `record` says so.
    Kept { record: bool },
    /// Hand it to a worker.
    HandOver(UploadTaskDetail),
}

/// What comes next for a batch's files.
#[derive(Debug, Clone, Copy, PartialEq, Eq, Structural)]
pub enum NextInit {
    /// Begin the file with this number.
    Begin(usize),
    /// Wait for a file that is under way.
    Wait,
    /// Stop.
    Stop,
}

/// One file fewer is under way, and its task waits to be written.
pub open spec fn landed(p: PhaseView, task: TransferTask) -> PhaseView {
    PhaseView { in_flight: (p.in_flight - 1) as usize, batch: p.batch.push(task), ..p }
}

/// What is said of an upload that has begun.
pub open spec fn begun_effects(done: InitDone) -> Seq<Effect<Seq<char>>> {
    let task = done.task@;
    if done.instant {
        seq![
            Effect::Emit(Notice::Instant { filename: task.filename, file_size: task.file_size }),
            Effect::Broadcast(
                Message::UploadInstant {
                    upload_id: task.upload_id,
                    filename: task.filename,
                    file_size: task.file_size,
                },
            ),
        ]
    } else {
        seq![
            Effect::Emit(
                Notice::Started {
                    upload_id: task.upload_id,
                    filename: task.filename,
                    file_size: task.file_size,
                },
            ),
            Effect::Broadcast(
                Message::UploadQueued {
                    upload_id: task.upload_id,
                    filename: task.filename,
                    total_chunks: done.detail@.total_chunks,
                },
            ),
        ]
    }
}

/// The state after an upload has begun: where everything is cancelled or paused, so is it.
pub open spec fn begun_state(m: ManagerView, done: InitDone) -> ManagerView {
    let id = done.task@.upload_id;
    if done.instant {
        m
    } else if m.global_cancelled {
        marked(m, id, TaskStatus::Cancelled)
    } else if m.global_paused {
        ManagerView { paused: m.paused.insert(id), ..marked(m, id, TaskStatus::Paused) }
    } else {
        m
    }
}

/// The upload goes to a worker.
pub open spec fn handed_over(m: ManagerView, done: InitDone) -> bool {
    !done.instant && !m.global_cancelled && !m.global_paused
}

/// The tasks that wait have been written.
pub open spec fn flushed(m: ManagerView, batch: Seq<TransferTask>) -> ManagerView {
    ManagerView { tasks: inserted_all(m.tasks, batch), ..m }
}

/// Writing the tasks that wait is one write.
pub open spec fn flush_effects(batch: Seq<TransferTask>) -> Seq<Effect<Seq<char>>> {
    if batch.len() == 0 {
        Seq::empty()
    } else {
        seq![Effect::Save]
    }
}

/// What comes next.
pub open spec fn next_init(p: PhaseView, cancelled: bool) -> NextInit {
    if cancelled {
        NextInit::Stop
    } else if p.next < p.total {
        NextInit::Begin(p.next)
    } else if p.in_flight == 0 {
        NextInit::Stop
    } else {
        NextInit::Wait
    }
}

/// The tasks are written now: there are many, or the phase ends.
pub open spec fn writes_now(p: PhaseView, cancelled: bool) -> bool {
    p.batch.len() >= BATCH_WRITE_SIZE || next_init(p, cancelled) is Stop
}

impl InitPhase {
    /// The limits are kept.
    pub open spec fn wf(&self) -> bool {
        phase_ok(self@)
    }

    /// Begins the first files of a batch: as many as may be under way.
    pub fn new(total: usize) -> (r: Self)
        ensures
            r.wf(),
            r@.total == total,
            r@.in_flight == r@.next,
            r@.next == if total < MAX_CONCURRENT_INIT {
                total
            } else {
                MAX_CONCURRENT_INIT
            },
            r@.batch == Seq::<TransferTask>::empty(),
    {
        let first: usize = if total < MAX_CONCURRENT_INIT {
            total
        } else {
            MAX_CONCURRENT_INIT
        };
        InitPhase { total, next: first, in_flight: first, batch: Vec::new() }
    }

    /// How many files are under way.
    pub fn in_flight(&self) -> (r: usize)
        ensures
            r == self@.in_flight,
    {
        self.in_flight
    }

    /// Takes in that an upload has begun.
    pub fn begun(
        &mut self,
        m: &mut Manager,
        counter: &mut SessionCounter,
        done: InitDone,
        out: &mut Vec<Effect<String>>,
    ) -> (r: Begun)
        requires
            old(m).wf(),
            old(self).wf(),
            old(self)@.in_flight > 0,
            old(self)@.batch.len() < BATCH_WRITE_SIZE,
            old(counter)@.success + old(counter)@.failed < u32::MAX,
        ensures
            final(m).wf(),
            final(self).wf(),
            final(self)@ == landed(old(self)@, done.task),
            final(m)@ == begun_state(old(m)@, done),
            final(counter)@ == if done.instant {
                one_success(old(counter)@)
            } else {
                old(counter)@
            },
            match r {
                Begun::HandOver(detail) => handed_over(old(m)@, done) && detail == done.detail,
                Begun::Kept { record } => !handed_over(old(m)@, done) && record == (done.instant && session_complete(
                    final(counter)@,
                )),
            },
            sent(final(out)@) == sent(old(out)@) + begun_effects(done) + (if !done.instant && !handed_over(
                old(m)@,
                done,
            ) {
                seq![Effect::Save]
            } else {
                Seq::empty()
            }),
    {
        self.in_flight = self.in_flight - 1;
        let InitDone { detail, task, instant } = done;
        if instant {
            send(
                out,
                Effect::Emit(Notice::Instant { filename: task.filename.clone(), file_size: task.file_size }),
            );
            send(
                out,
                Effect::Broadcast(
                    Message::UploadInstant {
                        upload_id: task.upload_id.clone(),
                        filename: task.filename.clone(),
                        file_size: task.file_size,
                    },
                ),
            );
            counter.record_success();
            let record = counter.is_complete();
            self.batch.push(task);
            return Begun::Kept { record };
        }
        send(
            out,
            Effect::Emit(
                Notice::Started {
                    upload_id: task.upload_id.clone(),
                    filename: task.filename.clone(),
                    file_size: task.file_size,
                },
            ),
        );
        send(
            out,
            Effect::Broadcast(
                Message::UploadQueued {
                    upload_id: task.upload_id.clone(),
                    filename: task.filename.clone(),
                    total_chunks: detail.total_chunks,
                },
            ),
        );
        let upload_id = task.upload_id.clone();
        self.batch.push(task);
        if m.global_cancelled {
            mark(m, &upload_id, TaskStatus::Cancelled, out);
            return Begun::Kept { record: false };
        }
        if m.global_paused {
            mark(m, &upload_id, TaskStatus::Paused, out);
            m.paused.insert(&upload_id);
            return Begun::Kept { record: false };
        }
        Begun::HandOver(detail)
    }

    /// Takes in that an upload has not begun. The record of the batch is due if the result says so.
    pub fn failed(&mut self, counter: &mut SessionCounter, filename: &str) -> (r: bool)
        requires
            old(self).wf(),
            old(self)@.in_flight > 0,
            old(counter)@.success + old(counter)@.failed < u32::MAX,
        ensures
            final(self).wf(),
            final(self)@ == (PhaseView { in_flight: (old(self)@.in_flight - 1) as usize, ..old(self)@ }),
            final(counter)@ == one_failure(old(counter)@, filename@),
            r == session_complete(final(counter)@),
    {
        self.in_flight = self.in_flight - 1;
        counter.record_failure(filename);
        counter.is_complete()
    }

    /// Takes in that nothing is known of an upload that was under way.
    pub fn lost(&mut self)
        requires
            old(self).wf(),
            old(self)@.in_flight > 0,
        ensures
            final(self).wf(),
            final(self)@ == (PhaseView { in_flight: (old(self)@.in_flight - 1) as usize, ..old(self)@ }),
    {
        self.in_flight = self.in_flight - 1;
    }

    /// Writes the tasks that wait.
    pub fn flush(&mut self, m: &mut Manager, out: &mut Vec<Effect<String>>)
        requires
            old(m).wf(),
            old(self).wf(),
        ensures
            final(m).wf(),
            final(self).wf(),
            final(self)@ == (PhaseView { batch: Seq::empty(), ..old(self)@ }),
            final(m)@ == flushed(old(m)@, old(self)@.batch),
            sent(final(out)@) == sent(old(out)@) + flush_effects(old(self)@.batch),
    {
        upsert_tasks_batch(m, &self.batch, out);
        self.batch = Vec::new();
        assert(self@ =~= (PhaseView { batch: Seq::empty(), ..old(self)@ }));
    }

    /// Goes on after a file that was under way has landed. When the phase stops, every task has been
    /// written.
    pub fn proceed(&mut self, m: &mut Manager, cancelled: bool, out: &mut Vec<Effect<String>>) -> (r: NextInit)
        requires
            old(m).wf(),
            old(self).wf(),
            old(self)@.in_flight < MAX_CONCURRENT_INIT,
        ensures
            final(m).wf(),
            final(self).wf(),
            final(self)@.batch.len() < BATCH_WRITE_SIZE,
            r == next_init(old(self)@, cancelled),
            final(self)@ == (PhaseView {
                next: if r is Begin {
                    (old(self)@.next + 1) as usize
                } else {
                    old(self)@.next
                },
                in_flight: if r is Begin {
                    (old(self)@.in_flight + 1) as usize
                } else {
                    old(self)@.in_flight
                },
                batch: if writes_now(old(self)@, cancelled) {
                    Seq::empty()
                } else {
                    old(self)@.batch
                },
                ..old(self)@
            }),
            final(m)@ == if writes_now(old(self)@, cancelled) {
                flushed(old(m)@, old(self)@.batch)
            } else {
                old(m)@
            },
            sent(final(out)@) == if writes_now(old(self)@, cancelled) {
                sent(old(out)@) + flush_effects(old(self)@.batch)
            } else {
                sent(old(out)@)
            },
    {
        let next = if cancelled {
            NextInit::Stop
        } else if self.next < self.total {
            NextInit::Begin(self.next)
        } else if self.in_flight == 0 {
            NextInit::Stop
        } else {
            NextInit::Wait
        };
        if self.batch.len() >= BATCH_WRITE_SIZE || next == NextInit::Stop {
            self.flush(m, out);
        }
        match next {
            NextInit::Begin(_) => {
                self.next = self.next + 1;
                self.in_flight = self.in_flight + 1;
            },
            _ => {},
        }
        next
    }
}

/// The workers of a batch, and the channel from which they get their uploads.
#[derive(Debug)]
pub struct Consumer {
    in_flight: usize,
    closed: bool,
}

/// How many workers there are, and whether more uploads may come.
#[verifier::ext_equal]
pub struct ConsumerView {
    pub in_flight: usize,
    pub closed: bool,
}

impl View for Consumer {
    type V = ConsumerView;

    closed spec fn view(&self) -> ConsumerView {
        ConsumerView { in_flight: self.in_flight, closed: self.closed }
    }
}

/// What a batch waits for. A wait for workers counts only where there are some; the cancelling of
/// the batch ends every wait.
#[derive(Debug, Clone, Copy, PartialEq, Eq, Structural)]
pub enum ConsumerWait {
    /// The end: nothing is waited for. What is left in the channel is thrown away if `drain` says so.
    Stop { drain: bool },
    /// The end of the pause, or a worker.
    Unpause,
    /// An upload from the channel, or a worker.
    Upload,
    /// A worker.
    Worker,
}

/// What a batch waits for.
pub open spec fn waits_for(c: ConsumerView, cancelled: bool, paused: bool) -> ConsumerWait {
    if cancelled {
        ConsumerWait::Stop { drain: true }
    } else if paused && !c.closed {
        ConsumerWait::Unpause
    } else if !c.closed && c.in_flight < WORKER_WINDOW {
        ConsumerWait::Upload
    } else if c.in_flight > 0 {
        ConsumerWait::Worker
    } else {
        ConsumerWait::Stop { drain: false }
    }
}

/// When a batch is cancelled while it waits, what is left in the channel is thrown away, unless only
/// a worker was waited for.
pub open spec fn drains_on_cancel(wait: ConsumerWait) -> bool {
    wait is Unpause || wait is Upload
}

impl Consumer {
    /// No more workers than the window holds.
    pub open spec fn wf(&self) -> bool {
        self@.in_flight <= WORKER_WINDOW
    }

    /// A batch without workers, to which uploads may come.
    pub fn new() -> (r: Self)
        ensures
            r.wf(),
            r@ == (ConsumerView { in_flight: 0, closed: false }),
    {
        Consumer { in_flight: 0, closed: false }
    }

    /// What the batch waits for.
    pub fn wait(&self, cancelled: bool, paused: bool) -> (r: ConsumerWait)
        requires
            self.wf(),
        ensures
            r == waits_for(self@, cancelled, paused),
    {
        if cancelled {
            ConsumerWait::Stop { drain: true }
        } else if paused && !self.closed {
            ConsumerWait::Unpause
        } else if !self.closed && self.in_flight < WORKER_WINDOW {
            ConsumerWait::Upload
        } else if self.in_flight > 0 {
            ConsumerWait::Worker
        } else {
            ConsumerWait::Stop { drain: false }
        }
    }

    /// Whether what is left in the channel is thrown away when the batch is cancelled while it waits
    /// for this.
    pub fn drains(wait: ConsumerWait) -> (r: bool)
        ensures
            r == drains_on_cancel(wait),
    {
        match wait {
            ConsumerWait::Unpause => true,
            ConsumerWait::Upload => true,
            _ => false,
        }
    }

    /// An upload came, and has a worker now.
    pub fn started(&mut self)
        requires
            old(self)@.in_flight < WORKER_WINDOW,
        ensures
            final(self).wf(),
            final(self)@ == (ConsumerView { in_flight: (old(self)@.in_flight + 1) as usize, ..old(self)@ }),
    {
        self.in_flight = self.in_flight + 1;
    }

    /// No more uploads will come.
    pub fn close(&mut self)
        requires
            old(self).wf(),
        ensures
            final(self).wf(),
            final(self)@ == (ConsumerView { closed: true, ..old(self)@ }),
    {
        self.closed = true;
    }

    /// A worker has ended.
    pub fn ended(&mut self)
        requires
            old(self).wf(),
            old(self)@.in_flight > 0,
        ensures
            final(self).wf(),
            final(self)@ == (ConsumerView { in_flight: (old(self)@.in_flight - 1) as usize, ..old(self)@ }),
    {
        self.in_flight = self.in_flight - 1;
    }
}

/// A batch that is not cancelled takes an upload only where a worker may have it, and does not stop
/// before the channel is closed and every worker has ended.
pub proof fn law_consumer_waits(c: ConsumerView, paused: bool)
    ensures
        waits_for(c, false, paused) == ConsumerWait::Upload ==> c.in_flight < WORKER_WINDOW && !c.closed && !paused,
        waits_for(c, false, paused) is Stop <==> c.closed && c.in_flight == 0,
        waits_for(c, false, paused) == ConsumerWait::Worker ==> c.in_flight > 0,
{
}

/// The files that have landed when every step is a landing followed by going on.
pub open spec fn in_turn(p: PhaseView, steps: nat) -> PhaseView
    decreases steps,
{
    if steps == 0 {
        p
    } else {
        let before = in_turn(p, (steps - 1) as nat);
        let down = PhaseView { in_flight: (before.in_flight - 1) as usize, ..before };
        match next_init(down, false) {
            NextInit::Begin(_) => PhaseView {
                next: (down.next + 1) as usize,
                in_flight: (down.in_flight + 1) as usize,
                ..down
            },
            _ => down,
        }
    }
}

/// Every file of a batch that is not cancelled is begun exactly once, in order, with no more under
/// way than may be; when as many files have landed as there are, none is under way or left.
pub proof fn law_every_file_is_begun(total: usize, steps: nat)
    requires
        steps <= total,
    ensures
        ({
            let first: usize = if total < MAX_CONCURRENT_INIT {
                total
            } else {
                MAX_CONCURRENT_INIT
            };
            let p = in_turn(
                PhaseView { total, next: first, in_flight: first, batch: Seq::empty() },
                steps,
            );
            &&& phase_ok(p)
            &&& p.total == total
            &&& p.next - p.in_flight == steps
            &&& p.in_flight == MAX_CONCURRENT_INIT || p.next == total
            &&& steps == total ==> p.in_flight == 0 && next_init(p, false) == NextInit::Stop
            &&& steps < total ==> p.in_flight > 0
        }),
    decreases steps,
{
    if steps > 0 {
        law_every_file_is_begun(total, (steps - 1) as nat);
    }
}

/// Ends a batch: says so, and has the user's tasks that were left waiting resumed, unless everything
/// is paused or cancelled.
pub fn finish_batch(m: &Manager, user_id: &str, out: &mut Vec<Effect<String>>) -> (r: Vec<String>)
    requires
        m.wf(),
    ensures
        if m@.global_paused || m@.global_cancelled {
            r@.len() == 0
        } else {
            lists(strings(r@), m@.tasks, |t: TaskView| orphaned(t, user_id@))
        },
        sent(final(out)@) == sent(old(out)@).push(Effect::Broadcast(Message::AllUploadsComplete)) + resumes(
            strings(r@),
        ),
{
    send(out, Effect::Broadcast(Message::AllUploadsComplete));
    resume_orphaned_tasks(m, user_id, out)
}

/// The upload waits or runs.
pub open spec fn under_way(m: ManagerView, id: Seq<char>) -> bool {
    m.tasks.contains_key(id) && queued(m.tasks[id])
}

/// Whether an upload is on its way already.
pub fn is_enqueued(m: &Manager, upload_id: &str) -> (r: bool)
    requires
        m.wf(),
    ensures
        r == under_way(m@, upload_id@),
{
    match m.tasks.get(upload_id) {
        Some(task) => task.status == TaskStatus::Pending || task.status == TaskStatus::Running,
        None => false,
    }
}

/// Whether an upload whose file was picked starts, now that it has a permit. It may have waited for
/// one, and something else may have taken the task up or ended it meanwhile.
pub fn starts_picked(m: &Manager, upload_id: &str, waited: bool) -> (r: bool)
    requires
        m.wf(),
    ensures
        r == (!waited || !taken(m@, upload_id@)),
{
    if !waited {
        return true;
    }
    match m.tasks.get(upload_id) {
        Some(task) => match task.status {
            TaskStatus::Running => false,
            TaskStatus::Completed => false,
            TaskStatus::Cancelled => false,
            _ => true,
        },
        None => false,
    }
}

/// The task of an upload that the backend has begun on its own.
pub open spec fn enqueued_task(id: Seq<char>, detail: DetailView, user: Seq<char>, now: u64) -> TaskView {
    TaskView {
        upload_id: id,
        filename: detail.original_filename,
        file_size: detail.file_size,
        total_chunks: detail.total_chunks,
        uploaded_chunks: 0,
        status: TaskStatus::Pending,
        error: None,
        created_at: now,
        file_path: None,
        chunk_size: Some(detail.chunk_size),
        user_id: Some(user),
        project_id: detail.project_id,
        folder_id: detail.folder_id,
        retry_count: 0,
    }
}

/// Queues an upload that the backend has begun on its own; the user is to pick its file. An upload that
/// waits or runs is left alone. The result says whether it was queued.
pub fn enqueue_upload(
    m: &mut Manager,
    upload_id: &str,
    detail: &UploadTaskDetail,
    user_id: &str,
    now: u64,
    out: &mut Vec<Effect<String>>,
) -> (r: bool)
    requires
        old(m).wf(),
    ensures
        final(m).wf(),
        r == !under_way(old(m)@, upload_id@),
        under_way(old(m)@, upload_id@) ==> final(m)@ == old(m)@ && sent(final(out)@) == sent(old(out)@),
        !under_way(old(m)@, upload_id@) ==> final(m)@ == (ManagerView {
            tasks: old(m)@.tasks.insert(upload_id@, enqueued_task(upload_id@, detail@, user_id@, now)),
            ..old(m)@
        }) && sent(final(out)@) == sent(old(out)@) + seq![
            Effect::Save,
            Effect::Emit(
                Notice::SelectFile {
                    upload_id: upload_id@,
                    filename: detail@.original_filename,
                    file_size: detail@.file_size,
                },
            ),
            Effect::ShowWindow,
        ],
{
    if is_enqueued(m, upload_id) {
        return false;
    }
    let task = TransferTask {
        upload_id: upload_id.to_string(),
        filename: detail.original_filename.clone(),
        file_size: detail.file_size,
        total_chunks: detail.total_chunks,
        uploaded_chunks: 0,
        status: TaskStatus::Pending,
        error: None,
        created_at: now,
        file_path: None,
        chunk_size: Some(detail.chunk_size),
        user_id: Some(user_id.to_string()),
        project_id: copy_opt(&detail.project_id),
        folder_id: copy_opt(&detail.folder_id),
        retry_count: 0,
    };
    assert(task@ =~= enqueued_task(upload_id@, detail@, user_id@, now));
    upsert_task(m, task, out);
    send(
        out,
        Effect::Emit(
            Notice::SelectFile {
                upload_id: upload_id.to_string(),
                filename: detail.original_filename.clone(),
                file_size: detail.file_size,
            },
        ),
    );
    send(out, Effect::ShowWindow);
    true
}

/// What is said of an upload for which the user picked no file.
pub open spec fn no_file_text() -> Seq<char> {
    "User cancelled"@
}

/// Notes that the user picked no file.
pub fn decline_upload(m: &mut Manager, upload_id: &str, out: &mut Vec<Effect<String>>)
    requires
        old(m).wf(),
    ensures
        final(m).wf(),
        final(m)@ == old(m)@.set_status(upload_id@, TaskStatus::Cancelled, Some(no_file_text())),
        sent(final(out)@) == sent(old(out)@).push(Effect::Save),
{
    update_task_status(m, upload_id, TaskStatus::Cancelled, Some("User cancelled".to_string()), out);
}

/// Asked for no file the user picks a folder, for one a file, and for more several files, whose number they
/// are told.
pub proof fn law_what_is_picked(count: u32)
    ensures
        pick_for(count) == Pick::Folder <==> count == 0,
        pick_for(count) == Pick::File <==> count == 1,
        pick_for(count) == Pick::Files <==> count >= 2,
        count == 0 ==> pick_title(count) == "选择要上传的文件夹"@,
        count == 1 ==> pick_title(count) == "选择要上传的文件"@,
        count >= 2 ==> pick_title(count) == "选择要上传的 "@ + decimal(count as nat) + " 个文件"@,
{
}

/// Where nothing was picked, nothing is sent. A single path that was picked as a folder is walked where it
/// is one, and else nothing is sent. Whatever else was picked is sent file by file.
pub proof fn law_source_of_the_files(count: u32, paths: nat, first_is_folder: bool)
    ensures
        source_of(count, 0, first_is_folder) == Source::Nothing,
        source_of(0, 1, true) == Source::Folder,
        source_of(0, 1, false) == Source::Nothing,
        count > 0 && paths > 0 ==> source_of(count, paths, first_is_folder) == Source::Paths,
        paths > 1 ==> source_of(count, paths, first_is_folder) == Source::Paths,
{
}

/// A token that was given is used; only where none was given is the stored one used.
pub proof fn law_given_token_is_used(token: Seq<char>, stored: Option<Seq<char>>)
    ensures
        token_used(Some(token), stored) == Some(token),
        token_used(None, stored) == stored,
{
}

/// A new batch bears a number that is not that of the batch before, and nothing is cancelled or paused any
/// more; the tasks, the tokens, the permits and the pause marks stay.
pub proof fn law_new_batch(m: ManagerView)
    ensures
        batch_begun(m).batch != m.batch,
        m.batch < u64::MAX ==> batch_begun(m).batch == m.batch + 1,
        m.batch == u64::MAX ==> batch_begun(m).batch == 0,
        !batch_begun(m).batch_cancelled && !batch_begun(m).global_cancelled && !batch_begun(m).global_paused,
        batch_begun(m).tasks == m.tasks,
        batch_begun(m).tokens == m.tokens,
        batch_begun(m).paused == m.paused,
        batch_begun(m).sending == m.sending,
{
}

/// A begun upload that the backend does not hold yet is handed over, unless everything was cancelled or
/// paused meanwhile: then its task, if there is one, is cancelled, or paused and known to be. An upload that
/// the backend holds already is never handed over, and nothing changes for it. No other task changes.
pub proof fn law_begun_upload_is_handed_over(m: ManagerView, done: InitDone, other: Seq<char>)
    ensures
        ({
            let id = done.task.upload_id@;
            let after = begun_state(m, done);
            &&& handed_over(m, done) <==> !done.instant && !m.global_cancelled && !m.global_paused
            &&& done.instant || handed_over(m, done) ==> after == m
            &&& !done.instant && m.global_cancelled ==> {
                &&& m.tasks.contains_key(id) ==> after.tasks[id] == (TaskView {
                    status: TaskStatus::Cancelled,
                    ..m.tasks[id]
                })
                &&& after.paused == m.paused
            }
            &&& !done.instant && !m.global_cancelled && m.global_paused ==> {
                &&& m.tasks.contains_key(id) ==> after.tasks[id] == (TaskView {
                    status: TaskStatus::Paused,
                    ..m.tasks[id]
                })
                &&& after.paused == m.paused.insert(id)
            }
            &&& after.tasks.contains_key(other) == m.tasks.contains_key(other)
            &&& m.tasks.contains_key(other) && other != id ==> after.tasks[other] == m.tasks[other]
            &&& after == (ManagerView { tasks: after.tasks, paused: after.paused, ..m })
        }),
{
}

/// The window and the clients hear of every begun upload, under its id, with its name and its size or its
/// number of chunks: that it was sent at once where the backend holds the file already, and else that it
/// waits.
pub proof fn law_begun_upload_is_told(done: InitDone)
    ensures
        begun_effects(done).len() == 2,
        done.instant ==> begun_effects(done)[0] == Effect::Emit(
            Notice::Instant { filename: done.task.filename@, file_size: done.task.file_size },
        ),
        done.instant ==> begun_effects(done)[1] == Effect::Broadcast(
            Message::UploadInstant {
                upload_id: done.task.upload_id@,
                filename: done.task.filename@,
                file_size: done.task.file_size,
            },
        ),
        !done.instant ==> begun_effects(done)[0] == Effect::Emit(
            Notice::Started {
                upload_id: done.task.upload_id@,
                filename: done.task.filename@,
                file_size: done.task.file_size,
            },
        ),
        !done.instant ==> begun_effects(done)[1] == Effect::Broadcast(
            Message::UploadQueued {
                upload_id: done.task.upload_id@,
                filename: done.task.filename@,
                total_chunks: done.detail.total_chunks,
            },
        ),
{
}

/// The begun uploads that are written are there afterwards, the last where two bear the same id, and the
/// tasks under other ids stay; the disk is written once, and not at all where there is nothing to write.
pub proof fn law_begun_uploads_are_written(m: ManagerView, batch: Seq<TransferTask>, i: int, id: Seq<char>)
    ensures
        0 <= i < batch.len() && batch[i].upload_id@ == id && (forall|j: int|
            i < j < batch.len() ==> (#[trigger] batch[j]).upload_id@ != id) ==> flushed(m, batch).tasks.contains_key(id)
            && flushed(m, batch).tasks[id] == batch[i]@,
        (forall|j: int| 0 <= j < batch.len() ==> (#[trigger] batch[j]).upload_id@ != id) ==> flushed(
            m,
            batch,
        ).tasks.contains_key(id) == m.tasks.contains_key(id) && flushed(m, batch).tasks[id] == m.tasks[id],
        flushed(m, batch) == (ManagerView { tasks: flushed(m, batch).tasks, ..m }),
        batch.len() == 0 ==> flush_effects(batch).len() == 0,
        batch.len() > 0 ==> flush_effects(batch).len() == 1 && flush_effects(batch)[0] == Effect::<Seq<char>>::Save,
{
    if 0 <= i < batch.len() && batch[i].upload_id@ == id && (forall|j: int|
        i < j < batch.len() ==> (#[trigger] batch[j]).upload_id@ != id) {
        super::manager::law_all_are_put_in(m.tasks, batch, i);
    }
    if forall|j: int| 0 <= j < batch.len() ==> (#[trigger] batch[j]).upload_id@ != id {
        super::manager::law_others_stay(m.tasks, batch, id);
    }
}

/// Files are begun in order until none is left, unless the batch was cancelled; then, and when none is left
/// and none is under way, the beginning of files is over.
pub proof fn law_files_are_begun_in_order(p: PhaseView)
    ensures
        next_init(p, true) == NextInit::Stop,
        p.next < p.total ==> next_init(p, false) == NextInit::Begin(p.next),
        p.next >= p.total && p.in_flight > 0 ==> next_init(p, false) == NextInit::Wait,
        p.next >= p.total && p.in_flight == 0 ==> next_init(p, false) == NextInit::Stop,
{
}

/// A file that has been begun is one less under way, and waits last to be written; nothing else changes.
pub proof fn law_begun_file_waits_to_be_written(p: PhaseView, task: TransferTask)
    requires
        p.in_flight > 0,
    ensures
        landed(p, task).in_flight == p.in_flight - 1,
        landed(p, task).batch.len() == p.batch.len() + 1,
        landed(p, task).batch.last() == task,
        landed(p, task).batch.drop_last() == p.batch,
        landed(p, task).next == p.next,
        landed(p, task).total == p.total,
{
}

/// What was begun is written when a hundred uploads wait for it, and when the beginning of files is over;
/// not before.
pub proof fn law_when_begun_files_are_written(p: PhaseView, cancelled: bool)
    ensures
        p.batch.len() >= 100 ==> writes_now(p, cancelled),
        cancelled ==> writes_now(p, cancelled),
        p.next >= p.total && p.in_flight == 0 ==> writes_now(p, cancelled),
        p.batch.len() < 100 && !cancelled && (p.next < p.total || p.in_flight > 0) ==> !writes_now(p, cancelled),
{
}

/// At most eight files are begun at a time, and at most a hundred wait to be written.
pub proof fn law_phase_bounds(p: PhaseView)
    ensures
        phase_ok(p) <==> p.in_flight <= 8 && p.batch.len() <= 100 && p.in_flight <= p.next <= p.total,
{
}

/// The numbers by which the work is bounded.
pub proof fn law_limits()
    ensures
        MAX_CONCURRENT_FILES == 3,
        MAX_CONCURRENT_INIT == 8,
        WORKER_WINDOW == 6,
        BATCH_WRITE_SIZE == 100,
{
}

/// Begun uploads are taken on while fewer than six are with workers and nothing is paused; when there are no
/// more, the workers are waited for; and a cancel stops everything. While everything is paused no begun
/// upload is taken on, but when no more are to come the workers are still waited for.
pub proof fn law_uploads_are_taken_on(c: ConsumerView, cancelled: bool, paused: bool)
    ensures
        cancelled ==> waits_for(c, cancelled, paused) == (ConsumerWait::Stop { drain: true }),
        !cancelled && paused && !c.closed ==> waits_for(c, cancelled, paused) == ConsumerWait::Unpause,
        !cancelled && !paused && !c.closed && c.in_flight < 6 ==> waits_for(c, cancelled, paused)
            == ConsumerWait::Upload,
        !cancelled && !paused && !c.closed && c.in_flight >= 6 ==> waits_for(c, cancelled, paused)
            == ConsumerWait::Worker,
        !cancelled && c.closed && c.in_flight > 0 ==> waits_for(c, cancelled, paused) == ConsumerWait::Worker,
        !cancelled && c.closed && c.in_flight == 0 ==> waits_for(c, cancelled, paused) == (ConsumerWait::Stop {
            drain: false,
        }),
        drains_on_cancel(ConsumerWait::Unpause),
        drains_on_cancel(ConsumerWait::Upload),
        !drains_on_cancel(ConsumerWait::Worker),
        !drains_on_cancel(ConsumerWait::Stop { drain: cancelled }),
{
}

/// An upload is on its way exactly where its task waits or runs.
pub proof fn law_on_its_way(m: ManagerView, id: Seq<char>)
    ensures
        under_way(m, id) <==> m.tasks.contains_key(id) && (m.tasks[id].status == TaskStatus::Pending
            || m.tasks[id].status == TaskStatus::Running),
{
}

/// A task that is put in the queue waits, belongs to the user, and is as large and cut as the backend says;
/// nothing of it has been sent, and its file is not known yet.
pub proof fn law_enqueued_task(id: Seq<char>, detail: DetailView, user: Seq<char>, now: u64)
    ensures
        ({
            let task = enqueued_task(id, detail, user, now);
            &&& task.upload_id == id
            &&& task.filename == detail.original_filename
            &&& task.file_size == detail.file_size
            &&& task.total_chunks == detail.total_chunks
            &&& task.chunk_size == Some(detail.chunk_size)
            &&& task.project_id == detail.project_id
            &&& task.folder_id == detail.folder_id
            &&& task.user_id == Some(user)
            &&& task.created_at == now
            &&& task.status == TaskStatus::Pending
            &&& task.uploaded_chunks == 0
            &&& task.retry_count == 0
            &&& task.error is None
            &&& task.file_path is None
        }),
        no_file_text() == "User cancelled"@,
{
}

} // verus!
