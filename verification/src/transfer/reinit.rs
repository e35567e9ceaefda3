//! Taking an interrupted upload up again: asking the backend how it stands there, and beginning it
//! anew where the backend has given it up.
use vstd::prelude::*;
use vstd::string::*;
use crate::api::{
    detail_address, detail_url, init_address, init_url, progress_address, progress_url, reinit_body, reinit_fields,
    success, Request, Sent, SentView,
};
use crate::json::{data_number, data_text, object_fields, read_data_number, read_data_text, read_document, Json};
use crate::text::{copy_opt, opt, same};
use super::manager::{get_task, update_task_status, Manager, ManagerView};
use super::message::{send, sent, Effect, Message};
use super::{DetailView, TaskStatus, TaskView, TransferTask, UploadTaskDetail};

verus! {

/// The chunk size where nobody gave one.
pub const DEFAULT_CHUNK_SIZE: u64 = 0x140_0000;

/// What is being asked of the backend.
pub enum Question<S> {
    /// How the upload stands.
    Progress,
    /// To which project the upload belongs.
    Detail,
    /// To begin the upload again in this project and folder.
    Init { project_id: S, folder_id: Option<S> },
    /// Nothing any more.
    Nothing,
}

impl View for Question<String> {
    type V = Question<Seq<char>>;

    open spec fn view(&self) -> Question<Seq<char>> {
        match self {
            Question::Progress => Question::Progress,
            Question::Detail => Question::Detail,
            Question::Init { project_id, folder_id } => Question::Init {
                project_id: project_id@,
                folder_id: opt(*folder_id),
            },
            Question::Nothing => Question::Nothing,
        }
    }
}

/// An upload that is taken up again.
pub struct Reinit {
    upload_id: String,
    task: TransferTask,
    api_url: String,
    question: Question<String>,
}

/// What an upload that is taken up again holds.
#[verifier::ext_equal]
pub struct ReinitView {
    pub upload_id: Seq<char>,
    pub task: TaskView,
    pub api_url: Seq<char>,
    pub question: Question<Seq<char>>,
}

impl View for Reinit {
    type V = ReinitView;

    closed spec fn view(&self) -> ReinitView {
        ReinitView {
            upload_id: self.upload_id@,
            task: self.task@,
            api_url: self.api_url@,
            question: self.question@,
        }
    }
}

/// What an answer does: what is asked next, or the id under which the upload goes on, or why it
/// cannot.
#[verifier::ext_equal]
pub struct ReinitTurn {
    pub question: Question<Seq<char>>,
    pub manager: ManagerView,
    pub result: Option<Result<Seq<char>, Seq<char>>>,
    pub effects: Seq<Effect<Seq<char>>>,
}

/// The upload goes on under this id, with nothing changed.
pub open spec fn goes_on(m: ManagerView, id: Seq<char>) -> ReinitTurn {
    ReinitTurn { question: Question::Nothing, manager: m, result: Some(Ok(id)), effects: Seq::empty() }
}

/// The upload cannot go on.
pub open spec fn fails(m: ManagerView, error: Seq<char>) -> ReinitTurn {
    ReinitTurn { question: Question::Nothing, manager: m, result: Some(Err(error)), effects: Seq::empty() }
}

/// The backend is asked something else.
pub open spec fn asks(m: ManagerView, question: Question<Seq<char>>) -> ReinitTurn {
    ReinitTurn { question, manager: m, result: None, effects: Seq::empty() }
}

/// The backend says that the upload stands like this; nothing where it does not say.
pub open spec fn backend_status(document: Option<Json>) -> Seq<char> {
    match data_text(document, "status"@) {
        Some(status) => status,
        None => ""@,
    }
}

/// An upload that stands like this cannot be continued.
pub open spec fn is_over(state: Seq<char>) -> bool {
    state == "aborted"@ || state == "failed"@ || state == "completed"@
}

/// The upload has to be begun again: in its project, where the task knows it.
pub open spec fn begins_again(r: ReinitView, m: ManagerView) -> ReinitTurn {
    match r.task.project_id {
        Some(project_id) => asks(m, Question::Init { project_id, folder_id: r.task.folder_id }),
        None => asks(m, Question::Detail),
    }
}

/// The answer to how the upload stands.
pub open spec fn progress_turn(r: ReinitView, m: ManagerView, answer: SentView) -> ReinitTurn {
    match answer {
        SentView::Answered { status, document, .. } => if success(status) {
            let state = backend_status(document);
            if is_over(state) {
                begins_again(r, m)
            } else {
                goes_on(m, r.upload_id)
            }
        } else if status == 404 {
            begins_again(r, m)
        } else {
            goes_on(m, r.upload_id)
        },
        SentView::Unreachable(_) => goes_on(m, r.upload_id),
    }
}

/// The answer to which project the upload belongs to.
pub open spec fn detail_turn(r: ReinitView, m: ManagerView, answer: SentView) -> ReinitTurn {
    match answer {
        SentView::Answered { status, status_text, document, .. } => if success(status) {
            match data_text(document, "project_id"@) {
                Some(project_id) => asks(
                    m,
                    Question::Init { project_id, folder_id: data_text(document, "folder_id"@) },
                ),
                None => fails(m, "Cannot reinit upload: unable to determine project_id for task "@ + r.upload_id),
            }
        } else {
            fails(
                m,
                "Cannot reinit upload: backend returned "@ + status_text + " when fetching task detail for "@
                    + r.upload_id,
            )
        },
        SentView::Unreachable(error) => fails(
            m,
            "Cannot reinit upload: failed to fetch task detail for "@ + r.upload_id + ": "@ + error,
        ),
    }
}

/// How many chunks the upload has now. A number that does not fit loses its upper half.
pub open spec fn new_total(task: TaskView, document: Option<Json>) -> u32 {
    match data_number(document, "total_chunks"@) {
        Some(n) => (n % 0x1_0000_0000) as u32,
        None => task.total_chunks,
    }
}

/// How large the upload's chunks are now.
pub open spec fn new_chunk_size(task: TaskView, document: Option<Json>) -> u64 {
    match data_number(document, "chunk_size"@) {
        Some(n) => n,
        None => match task.chunk_size {
            Some(n) => n,
            None => DEFAULT_CHUNK_SIZE,
        },
    }
}

/// The task has a new id and waits to be sent from its beginning, if there is one.
pub open spec fn renewed(
    m: ManagerView,
    old_id: Seq<char>,
    new_id: Seq<char>,
    total_chunks: u32,
    chunk_size: u64,
) -> ManagerView {
    ManagerView {
        tasks: if m.tasks.contains_key(old_id) {
            m.tasks.remove(old_id).insert(
                new_id,
                TaskView {
                    upload_id: new_id,
                    total_chunks,
                    chunk_size: Some(chunk_size),
                    uploaded_chunks: 0,
                    status: TaskStatus::Pending,
                    error: None,
                    ..m.tasks[old_id]
                },
            )
        } else {
            m.tasks
        },
        ..m
    }
}

/// The answer to beginning the upload again.
pub open spec fn init_turn(r: ReinitView, m: ManagerView, answer: SentView) -> ReinitTurn {
    match answer {
        SentView::Answered { status, status_text, document, text } => if !success(status) {
            fails(m, "Reinit upload API error "@ + status_text + ": "@ + text)
        } else if document is None {
            fails(m, "Failed to parse reinit response"@)
        } else {
            match data_text(document, "upload_id"@) {
                Some(new_id) => ReinitTurn {
                    question: Question::Nothing,
                    manager: renewed(
                        m,
                        r.upload_id,
                        new_id,
                        new_total(r.task, document),
                        new_chunk_size(r.task, document),
                    ),
                    result: Some(Ok(new_id)),
                    effects: (if m.tasks.contains_key(r.upload_id) {
                        seq![Effect::Save]
                    } else {
                        Seq::empty()
                    }) + seq![
                        Effect::Broadcast(
                            Message::TaskReinit { old_upload_id: r.upload_id, new_upload_id: new_id },
                        ),
                    ],
                },
                None => fails(m, "No upload_id in reinit response"@),
            }
        },
        SentView::Unreachable(_) => fails(m, "Failed to reinit upload"@),
    }
}

/// What an answer of the backend does.
pub open spec fn reinit_turn(r: ReinitView, m: ManagerView, answer: SentView) -> ReinitTurn {
    match r.question {
        Question::Progress => progress_turn(r, m, answer),
        Question::Detail => detail_turn(r, m, answer),
        Question::Init { .. } => init_turn(r, m, answer),
        Question::Nothing => asks(m, Question::Nothing),
    }
}

/// What a result holds.
pub open spec fn result_view(r: Option<Result<String, String>>) -> Option<Result<Seq<char>, Seq<char>>> {
    match r {
        Some(Ok(id)) => Some(Ok(id@)),
        Some(Err(e)) => Some(Err(e@)),
        None => None,
    }
}

fn renew_task(
    m: &mut Manager,
    old_id: &str,
    new_id: &str,
    total_chunks: u32,
    chunk_size: u64,
    out: &mut Vec<Effect<String>>,
)
    requires
        old(m).wf(),
    ensures
        final(m).wf(),
        final(m)@ == renewed(old(m)@, old_id@, new_id@, total_chunks, chunk_size),
        sent(final(out)@) == sent(old(out)@) + (if old(m)@.tasks.contains_key(old_id@) {
            seq![Effect::Save]
        } else {
            Seq::empty()
        }),
{
    match get_task(m, old_id) {
        Some(task) => {
            let mut task = task;
            m.tasks.remove(old_id);
            task.upload_id = new_id.to_string();
            task.total_chunks = total_chunks;
            task.chunk_size = Some(chunk_size);
            task.uploaded_chunks = 0;
            task.status = TaskStatus::Pending;
            task.error = None;
            m.tasks.insert(task);
            send(out, Effect::Save);
        },
        None => {},
    }
}

impl Reinit {
    /// Takes up an upload whose task is this one.
    pub fn new(upload_id: &str, task: &TransferTask, api_url: &str) -> (r: Self)
        ensures
            r@ == (ReinitView {
                upload_id: upload_id@,
                task: task@,
                api_url: api_url@,
                question: Question::Progress,
            }),
    {
        Reinit {
            upload_id: upload_id.to_string(),
            task: task.clone(),
            api_url: api_url.to_string(),
            question: Question::Progress,
        }
    }

    /// The request that puts the question.
    pub fn request(&self) -> (r: Option<Request>)
        ensures
            match self@.question {
                Question::Progress => r matches Some(Request::Get { url }) && url@ == progress_address(
                    self@.api_url,
                    self@.upload_id,
                ),
                Question::Detail => r matches Some(Request::Get { url }) && url@ == detail_address(
                    self@.api_url,
                    self@.upload_id,
                ),
                Question::Init { project_id, folder_id } => r matches Some(Request::Post { url, body }) && url@
                    == init_address(self@.api_url) && object_fields(body) == reinit_fields(
                    self@.task.filename,
                    self@.task.file_size,
                    project_id,
                    folder_id,
                ),
                Question::Nothing => r is None,
            },
    {
        match &self.question {
            Question::Progress => Some(Request::Get { url: progress_url(&self.api_url, &self.upload_id) }),
            Question::Detail => Some(Request::Get { url: detail_url(&self.api_url, &self.upload_id) }),
            Question::Init { project_id, folder_id } => Some(
                Request::Post {
                    url: init_url(&self.api_url),
                    body: reinit_body(&self.task.filename, self.task.file_size, project_id, folder_id),
                },
            ),
            Question::Nothing => None,
        }
    }

    fn after_progress(&mut self, answer: &Sent) -> (r: Option<Result<String, String>>)
        ensures
            forall|m: ManagerView|
                ({
                    let turn = #[trigger] progress_turn(old(self)@, m, answer@);
                    &&& final(self)@ == (ReinitView { question: turn.question, ..old(self)@ })
                    &&& m == turn.manager
                    &&& result_view(r) == turn.result
                    &&& turn.effects == Seq::<Effect<Seq<char>>>::empty()
                }),
    {
        let begin_again = match answer {
            Sent::Answered(reply) => {
                if reply.is_success() {
                    let document = read_document(&reply.body);
                    let state = match read_data_text(&document, "status") {
                        Some(s) => s,
                        None => "".to_string(),
                    };
                    same(&state, "aborted") || same(&state, "failed") || same(&state, "completed")
                } else {
                    reply.status == 404
                }
            },
            Sent::Unreachable(_) => false,
        };
        if !begin_again {
            self.question = Question::Nothing;
            return Some(Ok(self.upload_id.clone()));
        }
        self.question = match &self.task.project_id {
            Some(project_id) => Question::Init {
                project_id: project_id.clone(),
                folder_id: copy_opt(&self.task.folder_id),
            },
            None => Question::Detail,
        };
        None
    }

    fn after_detail(&mut self, answer: &Sent) -> (r: Option<Result<String, String>>)
        ensures
            forall|m: ManagerView|
                ({
                    let turn = #[trigger] detail_turn(old(self)@, m, answer@);
                    &&& final(self)@ == (ReinitView { question: turn.question, ..old(self)@ })
                    &&& m == turn.manager
                    &&& result_view(r) == turn.result
                    &&& turn.effects == Seq::<Effect<Seq<char>>>::empty()
                }),
    {
        match answer {
            Sent::Answered(reply) => {
                if reply.is_success() {
                    let document = read_document(&reply.body);
                    match read_data_text(&document, "project_id") {
                        Some(project_id) => {
                            let folder_id = read_data_text(&document, "folder_id");
                            self.question = Question::Init { project_id, folder_id };
                            None
                        },
                        None => {
                            let mut error = "Cannot reinit upload: unable to determine project_id for task "
                                .to_string();
                            error.append(&self.upload_id);
                            self.question = Question::Nothing;
                            Some(Err(error))
                        },
                    }
                } else {
                    let mut error = "Cannot reinit upload: backend returned ".to_string();
                    error.append(&reply.status_text);
                    error.append(" when fetching task detail for ");
                    error.append(&self.upload_id);
                    self.question = Question::Nothing;
                    Some(Err(error))
                }
            },
            Sent::Unreachable(cause) => {
                let mut error = "Cannot reinit upload: failed to fetch task detail for ".to_string();
                error.append(&self.upload_id);
                error.append(": ");
                error.append(cause);
                self.question = Question::Nothing;
                Some(Err(error))
            },
        }
    }

    fn after_init(&mut self, m: &mut Manager, answer: &Sent, out: &mut Vec<Effect<String>>) -> (r: Option<
        Result<String, String>,
    >)
        requires
            old(m).wf(),
        ensures
            final(m).wf(),
            ({
                let turn = init_turn(old(self)@, old(m)@, answer@);
                &&& final(self)@ == (ReinitView { question: turn.question, ..old(self)@ })
                &&& final(m)@ == turn.manager
                &&& result_view(r) == turn.result
                &&& sent(final(out)@) == sent(old(out)@) + turn.effects
            }),
    {
        self.question = Question::Nothing;
        let reply = match answer {
            Sent::Answered(reply) => reply,
            Sent::Unreachable(_) => {
                return Some(Err("Failed to reinit upload".to_string()));
            },
        };
        if !reply.is_success() {
            let mut error = "Reinit upload API error ".to_string();
            error.append(&reply.status_text);
            error.append(": ");
            error.append(&reply.text);
            return Some(Err(error));
        }
        let document = read_document(&reply.body);
        if document.is_none() {
            return Some(Err("Failed to parse reinit response".to_string()));
        }
        let new_id = match read_data_text(&document, "upload_id") {
            Some(id) => id,
            None => {
                return Some(Err("No upload_id in reinit response".to_string()));
            },
        };
        let total_chunks: u32 = match read_data_number(&document, "total_chunks") {
            Some(n) => (n % 0x1_0000_0000) as u32,
            None => self.task.total_chunks,
        };
        let chunk_size: u64 = match read_data_number(&document, "chunk_size") {
            Some(n) => n,
            None => match self.task.chunk_size {
                Some(n) => n,
                None => DEFAULT_CHUNK_SIZE,
            },
        };
        renew_task(m, &self.upload_id, &new_id, total_chunks, chunk_size, out);
        send(
            out,
            Effect::Broadcast(
                Message::TaskReinit { old_upload_id: self.upload_id.clone(), new_upload_id: new_id.clone() },
            ),
        );
        Some(Ok(new_id))
    }

    /// Takes the backend's answer in. The result, once there is one, is the id under which the
    /// upload goes on, or why it cannot.
    pub fn check_and_reinit_upload(&mut self, m: &mut Manager, answer: &Sent, out: &mut Vec<Effect<String>>) -> (r:
        Option<Result<String, String>>)
        requires
            old(m).wf(),
        ensures
            final(m).wf(),
            ({
                let turn = reinit_turn(old(self)@, old(m)@, answer@);
                &&& final(self)@ == (ReinitView { question: turn.question, ..old(self)@ })
                &&& final(m)@ == turn.manager
                &&& result_view(r) == turn.result
                &&& sent(final(out)@) == sent(old(out)@) + turn.effects
            }),
    {
        match &self.question {
            Question::Progress => {
                let ghost turn = progress_turn(self@, m@, answer@);
                let r = self.after_progress(answer);
                assert(sent(out@) =~= sent(old(out)@) + turn.effects);
                r
            },
            Question::Detail => {
                let ghost turn = detail_turn(self@, m@, answer@);
                let r = self.after_detail(answer);
                assert(sent(out@) =~= sent(old(out)@) + turn.effects);
                r
            },
            Question::Init { .. } => self.after_init(m, answer, out),
            Question::Nothing => None,
        }
    }
}

/// How far along the questions an upload is.
pub open spec fn questions_left(question: Question<Seq<char>>) -> nat {
    match question {
        Question::Progress => 3,
        Question::Detail => 2,
        Question::Init { .. } => 1,
        Question::Nothing => 0,
    }
}

/// At most three answers decide: each of them either gives a result or leads to a later question.
pub proof fn law_reinit_ends(r: ReinitView, m: ManagerView, answer: SentView)
    requires
        !(r.question is Nothing),
    ensures
        questions_left(reinit_turn(r, m, answer).question) < questions_left(r.question),
        reinit_turn(r, m, answer).question is Nothing <==> reinit_turn(r, m, answer).result is Some,
{
}

/// An upload that the backend has aborted, given up or completed, or does not know, is begun again. Any
/// other goes on under its id.
pub proof fn law_over_is_begun_again(r: ReinitView, m: ManagerView, answer: SentView)
    requires
        r.question is Progress,
    ensures
        reinit_turn(r, m, answer) == (if answer matches SentView::Answered { status, document, .. } && (status == 404 || (
        success(status) && is_over(backend_status(document)))) {
            begins_again(r, m)
        } else {
            goes_on(m, r.upload_id)
        }),
{
}

/// An upload that goes on under a new id leaves nothing under the old one, and its task is the old
/// one in all but its id, its chunks and its progress. Other tasks stay as they are.
pub proof fn law_reinit_moves_the_task(m: ManagerView, old_id: Seq<char>, new_id: Seq<char>, total: u32, size: u64)
    requires
        m.tasks.contains_key(old_id),
        old_id != new_id,
    ensures
        !renewed(m, old_id, new_id, total, size).tasks.contains_key(old_id),
        renewed(m, old_id, new_id, total, size).has_status(new_id, TaskStatus::Pending),
        ({
            let before = m.tasks[old_id];
            let after = renewed(m, old_id, new_id, total, size).tasks[new_id];
            &&& after.upload_id == new_id
            &&& after.uploaded_chunks == 0
            &&& after.filename == before.filename
            &&& after.file_size == before.file_size
            &&& after.file_path == before.file_path
            &&& after.user_id == before.user_id
            &&& after.created_at == before.created_at
            &&& after.project_id == before.project_id
            &&& after.folder_id == before.folder_id
            &&& after.retry_count == before.retry_count
        }),
        forall|other: Seq<char>|
            other != old_id && other != new_id ==> {
                &&& renewed(m, old_id, new_id, total, size).tasks.contains_key(other) == m.tasks.contains_key(other)
                &&& m.tasks.contains_key(other) ==> #[trigger] renewed(m, old_id, new_id, total, size).tasks[other]
                    == m.tasks[other]
            },
{
}

/// The state after an upload has been taken up again, or not.
pub open spec fn taken_up(m: ManagerView, id: Seq<char>, result: Result<Seq<char>, Seq<char>>) -> ManagerView {
    match result {
        Ok(_) => m,
        Err(error) => m.set_status(id, TaskStatus::Failed, Some(error)),
    }
}

/// The id under which the upload is to be sent: none where it cannot be, or is complete by now.
pub open spec fn to_send(m: ManagerView, result: Result<Seq<char>, Seq<char>>) -> Option<Seq<char>> {
    match result {
        Ok(id) => if m.has_status(id, TaskStatus::Completed) {
            None
        } else {
            Some(id)
        },
        Err(_) => None,
    }
}

/// Ends the questions: notes why the upload cannot go on, or says under which id it is to be sent.
pub fn take_up(m: &mut Manager, upload_id: &str, result: Result<String, String>, out: &mut Vec<Effect<String>>) -> (r:
    Option<String>)
    requires
        old(m).wf(),
    ensures
        final(m).wf(),
        match result {
            Ok(id) => {
                &&& final(m)@ == taken_up(old(m)@, upload_id@, Ok(id@))
                &&& opt(r) == to_send(old(m)@, Ok(id@))
                &&& sent(final(out)@) == sent(old(out)@)
            },
            Err(e) => {
                &&& final(m)@ == taken_up(old(m)@, upload_id@, Err(e@))
                &&& r is None
                &&& sent(final(out)@) == sent(old(out)@).push(Effect::Save)
            },
        },
{
    match result {
        Ok(id) => match m.tasks.get(&id) {
            Some(task) => if task.status == TaskStatus::Completed {
                None
            } else {
                Some(id)
            },
            None => Some(id),
        },
        Err(e) => {
            update_task_status(m, upload_id, TaskStatus::Failed, Some(e), out);
            None
        },
    }
}

/// The task that was resumed, cut as the one that is known under the id by now.
pub open spec fn cut_as_known(m: ManagerView, id: Seq<char>, task: TaskView) -> TaskView {
    if m.tasks.contains_key(id) {
        TaskView { total_chunks: m.tasks[id].total_chunks, chunk_size: m.tasks[id].chunk_size, ..task }
    } else {
        task
    }
}

/// What is sent of a resumed task: its file in chunks of the size that the task knows.
pub open spec fn resumed_detail(id: Seq<char>, task: TaskView, chunk_size: u64) -> DetailView {
    DetailView {
        upload_id: id,
        asset_id: Seq::empty(),
        original_filename: task.filename,
        file_size: task.file_size,
        chunk_size: match task.chunk_size {
            Some(n) => n,
            None => chunk_size,
        },
        total_chunks: task.total_chunks,
        uploaded_chunks: Seq::empty(),
        oss_path: Seq::empty(),
        oss_upload_id: None,
        project_id: task.project_id,
        folder_id: task.folder_id,
    }
}

/// An upload that was begun again is sent in the chunks that the backend has asked for.
pub proof fn law_begun_again_is_cut_anew(
    m: ManagerView,
    old_id: Seq<char>,
    new_id: Seq<char>,
    total: u32,
    size: u64,
    own_size: u64,
)
    requires
        m.tasks.contains_key(old_id),
    ensures
        ({
            let after = renewed(m, old_id, new_id, total, size);
            let detail = resumed_detail(new_id, cut_as_known(after, new_id, m.tasks[old_id]), own_size);
            &&& detail.total_chunks == total
            &&& detail.chunk_size == size
        }),
{
}

/// Starts the upload of a resumed task, once it has a permit. `task` is the task as it was resumed, and
/// `chunk_size` is the client's own.
pub fn begin_resumed(
    m: &mut Manager,
    upload_id: &str,
    task: &TransferTask,
    chunk_size: usize,
    out: &mut Vec<Effect<String>>,
) -> (r: UploadTaskDetail)
    requires
        old(m).wf(),
    ensures
        final(m).wf(),
        final(m)@ == old(m)@.set_status(upload_id@, TaskStatus::Running, None),
        r@ == resumed_detail(upload_id@, cut_as_known(old(m)@, upload_id@, task@), chunk_size as u64),
        sent(final(out)@) == sent(old(out)@) + seq![
            Effect::Save,
            Effect::Broadcast(
                Message::UploadStart {
                    upload_id: upload_id@,
                    filename: task@.filename,
                    total_chunks: cut_as_known(old(m)@, upload_id@, task@).total_chunks,
                },
            ),
        ],
{
    let (total_chunks, known_size): (u32, Option<u64>) = match m.tasks.get(upload_id) {
        Some(known) => (known.total_chunks, known.chunk_size),
        None => (task.total_chunks, task.chunk_size),
    };
    update_task_status(m, upload_id, TaskStatus::Running, None, out);
    send(
        out,
        Effect::Broadcast(
            Message::UploadStart {
                upload_id: upload_id.to_string(),
                filename: task.filename.clone(),
                total_chunks,
            },
        ),
    );
    let detail = UploadTaskDetail {
        upload_id: upload_id.to_string(),
        asset_id: String::new(),
        original_filename: task.filename.clone(),
        file_size: task.file_size,
        chunk_size: match known_size {
            Some(n) => n,
            None => chunk_size as u64,
        },
        total_chunks,
        uploaded_chunks: Vec::new(),
        oss_path: String::new(),
        oss_upload_id: None,
        project_id: copy_opt(&task.project_id),
        folder_id: copy_opt(&task.folder_id),
    };
    assert(detail@ =~= resumed_detail(upload_id@, cut_as_known(old(m)@, upload_id@, task@), chunk_size as u64));
    detail
}

/// The document says this text under this name in its data.
pub open spec fn says(document: Option<Json>, name: Seq<char>, text: Seq<char>) -> bool {
    document matches Some(Json::Object(fields)) && fields.contains_key("data"@) && (
    fields["data"@] matches Json::Object(data) && data.contains_key(name) && data[name] == Json::Text(text))
}

/// The document says this number under this name in its data.
pub open spec fn counts(document: Option<Json>, name: Seq<char>, number: u64) -> bool {
    document matches Some(Json::Object(fields)) && fields.contains_key("data"@) && (
    fields["data"@] matches Json::Object(data) && data.contains_key(name) && data[name] == Json::Number(Some(number)))
}

/// An upload that the backend says is aborted, failed or completed, or does not know, is begun again: in the
/// project and folder of its task, or, where the task knows none, once the backend has told them. Any other
/// goes on under its id. Either way the state stays as it is and nothing is sent.
pub proof fn law_what_is_over_is_begun_again(
    r: ReinitView,
    m: ManagerView,
    status: u16,
    status_text: Seq<char>,
    document: Option<Json>,
    text: Seq<char>,
    cause: Seq<char>,
)
    requires
        r.question is Progress,
    ensures
        ({
            let turn = reinit_turn(r, m, SentView::Answered { status, status_text, document, text });
            let over = status == 404 || (200 <= status <= 299 && (says(document, "status"@, "aborted"@) || says(
                document,
                "status"@,
                "failed"@,
            ) || says(document, "status"@, "completed"@)));
            &&& turn.manager == m
            &&& turn.effects.len() == 0
            &&& over ==> turn.result is None
            &&& over && r.task.project_id is Some ==> turn.question == (Question::Init {
                project_id: r.task.project_id->0,
                folder_id: r.task.folder_id,
            })
            &&& over && r.task.project_id is None ==> turn.question is Detail
            &&& !over ==> turn.question is Nothing && turn.result == Some(Ok::<Seq<char>, Seq<char>>(r.upload_id))
        }),
        ({
            let turn = reinit_turn(r, m, SentView::Unreachable(cause));
            &&& turn.manager == m
            &&& turn.effects.len() == 0
            &&& turn.question is Nothing
            &&& turn.result == Some(Ok::<Seq<char>, Seq<char>>(r.upload_id))
        }),
{
    reveal_strlit("");
    reveal_strlit("aborted");
    reveal_strlit("failed");
    reveal_strlit("completed");
    assert(""@.len() == 0);
    assert("aborted"@.len() == 7 && "failed"@.len() == 6 && "completed"@.len() == 9);
}

/// Where the backend tells the project of an upload, the upload is begun again there, in the folder that the
/// backend tells, if it tells one; where it does not, the upload cannot go on. The state stays as it is.
pub proof fn law_project_is_the_backends(
    r: ReinitView,
    m: ManagerView,
    status: u16,
    status_text: Seq<char>,
    document: Option<Json>,
    text: Seq<char>,
    project: Seq<char>,
    folder: Seq<char>,
    cause: Seq<char>,
)
    requires
        r.question is Detail,
    ensures
        ({
            let turn = reinit_turn(r, m, SentView::Answered { status, status_text, document, text });
            let met = 200 <= status <= 299;
            &&& turn.manager == m
            &&& turn.effects.len() == 0
            &&& met && says(document, "project_id"@, project) ==> {
                &&& turn.result is None
                &&& turn.question is Init
                &&& turn.question->project_id == project
                &&& says(document, "folder_id"@, folder) <==> turn.question->folder_id == Some(folder)
            }
            &&& !met ==> turn.question is Nothing && turn.result is Some && turn.result->0 is Err
            &&& turn.result matches Some(Ok(_)) ==> false
        }),
        ({
            let turn = reinit_turn(r, m, SentView::Unreachable(cause));
            &&& turn.manager == m
            &&& turn.question is Nothing
            &&& turn.result is Some
            &&& turn.result->0 is Err
        }),
{
}

/// An upload that was begun again goes on under the id that the backend gave, with the number and the size
/// of chunks that the backend named: its task has them, waits from its beginning without an error, and is
/// gone from the old id; the clients are told of both ids. No other task and nothing else changes.
pub proof fn law_begun_again_under_the_new_id(
    r: ReinitView,
    m: ManagerView,
    status: u16,
    status_text: Seq<char>,
    document: Option<Json>,
    text: Seq<char>,
    new_id: Seq<char>,
    total: u64,
    size: u64,
    other: Seq<char>,
)
    requires
        r.question is Init,
        200 <= status <= 299,
        says(document, "upload_id"@, new_id),
        new_id != r.upload_id,
        m.tasks.contains_key(r.upload_id),
    ensures
        ({
            let turn = reinit_turn(r, m, SentView::Answered { status, status_text, document, text });
            let task = turn.manager.tasks[new_id];
            let before = m.tasks[r.upload_id];
            &&& turn.question is Nothing
            &&& turn.result == Some(Ok::<Seq<char>, Seq<char>>(new_id))
            &&& !turn.manager.tasks.contains_key(r.upload_id)
            &&& turn.manager.tasks.contains_key(new_id)
            &&& task.upload_id == new_id
            &&& task.status == TaskStatus::Pending
            &&& task.uploaded_chunks == 0
            &&& task.error is None
            &&& task.filename == before.filename
            &&& task.file_size == before.file_size
            &&& task.file_path == before.file_path
            &&& task.user_id == before.user_id
            &&& task.project_id == before.project_id
            &&& task.folder_id == before.folder_id
            &&& task.created_at == before.created_at
            &&& task.retry_count == before.retry_count
            &&& counts(document, "total_chunks"@, total) && total <= u32::MAX ==> task.total_chunks == total
            &&& counts(document, "total_chunks"@, total) ==> task.total_chunks as int == total as int % 0x1_0000_0000
            &&& counts(document, "chunk_size"@, size) ==> task.chunk_size == Some(size)
            &&& other != r.upload_id && other != new_id ==> turn.manager.tasks.contains_key(other)
                == m.tasks.contains_key(other)
            &&& other != r.upload_id && other != new_id && m.tasks.contains_key(other)
                ==> turn.manager.tasks[other] == m.tasks[other]
            &&& turn.manager == (ManagerView { tasks: turn.manager.tasks, ..m })
            &&& turn.effects == seq![
                Effect::Save,
                Effect::Broadcast(Message::TaskReinit { old_upload_id: r.upload_id, new_upload_id: new_id }),
            ]
        }),
{
}

/// Where the backend does not say how the file is cut, it is cut as before; a size that nobody knows is
/// 20 MiB. An upload that could not be begun again, or has no id, cannot go on, and its task stays.
pub proof fn law_begun_again_or_not(
    r: ReinitView,
    m: ManagerView,
    status: u16,
    status_text: Seq<char>,
    fields: Map<Seq<char>, Json>,
    text: Seq<char>,
    cause: Seq<char>,
)
    requires
        r.question is Init,
        !fields.contains_key("data"@),
    ensures
        ({
            let turn = reinit_turn(
                r,
                m,
                SentView::Answered { status, status_text, document: Some(Json::Object(fields)), text },
            );
            &&& turn.question is Nothing
            &&& turn.result is Some
            &&& turn.result->0 is Err
            &&& turn.manager == m
            &&& turn.effects.len() == 0
            &&& !(200 <= status <= 299) ==> turn.result->0->Err_0 == "Reinit upload API error "@ + status_text + ": "@
                + text
        }),
        ({
            let turn = reinit_turn(r, m, SentView::Answered { status, status_text, document: None, text });
            &&& turn.result is Some
            &&& turn.result->0 is Err
            &&& turn.manager == m
        }),
        ({
            let turn = reinit_turn(r, m, SentView::Unreachable(cause));
            &&& turn.question is Nothing
            &&& turn.result is Some
            &&& turn.result->0 is Err
            &&& turn.manager == m
        }),
        new_total(r.task, Some(Json::Object(fields))) == r.task.total_chunks,
        r.task.chunk_size matches Some(n) ==> new_chunk_size(r.task, Some(Json::Object(fields))) == n,
        r.task.chunk_size is None ==> new_chunk_size(r.task, Some(Json::Object(fields))) == 20971520,
{
}

/// An upload that was taken up again is sent under the id that it goes on with, unless its task is complete
/// by then. One that cannot go on is not sent, and its task has failed with the reason.
pub proof fn law_taken_up_is_sent(m: ManagerView, id: Seq<char>, effective: Seq<char>, error: Seq<char>, other: Seq<char>)
    ensures
        m.tasks.contains_key(effective) && m.tasks[effective].status == TaskStatus::Completed ==> to_send(
            m,
            Ok(effective),
        ) is None,
        !(m.tasks.contains_key(effective) && m.tasks[effective].status == TaskStatus::Completed) ==> to_send(
            m,
            Ok(effective),
        ) == Some(effective),
        to_send(m, Err(error)) is None,
        taken_up(m, id, Ok(effective)) == m,
        m.tasks.contains_key(id) ==> taken_up(m, id, Err(error)).tasks[id] == (TaskView {
            status: TaskStatus::Failed,
            error: Some(error),
            ..m.tasks[id]
        }),
        other != id && m.tasks.contains_key(other) ==> taken_up(m, id, Err(error)).tasks.contains_key(other)
            && taken_up(m, id, Err(error)).tasks[other] == m.tasks[other],
{
}

/// A resumed upload sends the task's file, whole, under the id it goes on with, cut as the task that is
/// known under the id says; where no size is known, as the client itself cuts.
pub proof fn law_resumed_upload_sends_the_file(m: ManagerView, id: Seq<char>, task: TaskView, own_size: u64)
    ensures
        ({
            let detail = resumed_detail(id, cut_as_known(m, id, task), own_size);
            let known = if m.tasks.contains_key(id) {
                m.tasks[id]
            } else {
                task
            };
            &&& detail.upload_id == id
            &&& detail.original_filename == task.filename
            &&& detail.file_size == task.file_size
            &&& detail.project_id == task.project_id
            &&& detail.folder_id == task.folder_id
            &&& detail.total_chunks == known.total_chunks
            &&& known.chunk_size matches Some(n) ==> detail.chunk_size == n
            &&& known.chunk_size is None ==> detail.chunk_size == own_size
            &&& detail.uploaded_chunks.len() == 0
            &&& detail.asset_id.len() == 0
            &&& detail.oss_path.len() == 0
            &&& detail.oss_upload_id is None
        }),
{
}

/// The words of the errors by which an upload cannot be begun again, with what the backend said; nothing is
/// asked any more then, nothing changes, and nothing is told.
pub proof fn law_begun_again_errors(
    r: ReinitView,
    m: ManagerView,
    status: u16,
    status_text: Seq<char>,
    document: Option<Json>,
    text: Seq<char>,
    cause: Seq<char>,
)
    ensures
        ({
            let answer = SentView::Answered { status, status_text, document, text };
            let met = 200 <= status <= 299;
            let ended = |error: Seq<char>| ReinitTurn {
                question: Question::Nothing,
                manager: m,
                result: Some(Err(error)),
                effects: Seq::empty(),
            };
            &&& !met ==> detail_turn(r, m, answer) == ended(
                "Cannot reinit upload: backend returned "@ + status_text + " when fetching task detail for "@
                    + r.upload_id,
            )
            &&& met && data_text(document, "project_id"@) is None ==> detail_turn(r, m, answer) == ended(
                "Cannot reinit upload: unable to determine project_id for task "@ + r.upload_id,
            )
            &&& detail_turn(r, m, SentView::Unreachable(cause)) == ended(
                "Cannot reinit upload: failed to fetch task detail for "@ + r.upload_id + ": "@ + cause,
            )
            &&& !met ==> init_turn(r, m, answer) == ended("Reinit upload API error "@ + status_text + ": "@ + text)
            &&& met && document is None ==> init_turn(r, m, answer) == ended("Failed to parse reinit response"@)
            &&& met && document is Some && data_text(document, "upload_id"@) is None ==> init_turn(r, m, answer)
                == ended("No upload_id in reinit response"@)
            &&& init_turn(r, m, SentView::Unreachable(cause)) == ended("Failed to reinit upload"@)
        }),
{
}

/// What is asked next is what the step in hand calls for: each step answers its own question, and after the
/// last nothing is asked and nothing changes.
pub proof fn law_each_question_has_its_answer(r: ReinitView, m: ManagerView, answer: SentView)
    ensures
        r.question is Progress ==> reinit_turn(r, m, answer) == progress_turn(r, m, answer),
        r.question is Detail ==> reinit_turn(r, m, answer) == detail_turn(r, m, answer),
        r.question is Init ==> reinit_turn(r, m, answer) == init_turn(r, m, answer),
        r.question is Nothing ==> reinit_turn(r, m, answer) == (ReinitTurn {
            question: Question::Nothing,
            manager: m,
            result: None,
            effects: Seq::empty(),
        }),
{
}

/// The result tells the id of the upload or the error, where there is one.
pub proof fn law_result_is_told(result: Option<Result<String, String>>, q: Question<String>)
    ensures
        result is None <==> result_view(result) is None,
        result matches Some(Ok(id)) ==> result_view(result) == Some(Ok::<Seq<char>, Seq<char>>(id@)),
        result matches Some(Err(error)) ==> result_view(result) == Some(Err::<Seq<char>, Seq<char>>(error@)),
        q is Progress <==> q@ is Progress,
        q is Detail <==> q@ is Detail,
        q is Nothing <==> q@ is Nothing,
        q matches Question::Init { project_id, folder_id } ==> q@ == (Question::<Seq<char>>::Init {
            project_id: project_id@,
            folder_id: match folder_id {
                Some(id) => Some(id@),
                None => None,
            },
        }),
{
}

/// Where the task of an upload that was begun again is not at hand, nothing changes, but the clients are told
/// and the upload goes on under its new id. Where the backend gives the id again that the upload had, its
/// task stands there, from its beginning.
pub proof fn law_begun_again_without_a_task(
    r: ReinitView,
    m: ManagerView,
    status: u16,
    status_text: Seq<char>,
    document: Option<Json>,
    text: Seq<char>,
    new_id: Seq<char>,
    other: Seq<char>,
)
    requires
        r.question is Init,
        200 <= status <= 299,
        says(document, "upload_id"@, new_id),
    ensures
        ({
            let turn = reinit_turn(r, m, SentView::Answered { status, status_text, document, text });
            &&& turn.question is Nothing
            &&& turn.result == Some(Ok::<Seq<char>, Seq<char>>(new_id))
            &&& turn.effects.last() == Effect::Broadcast(
                Message::TaskReinit { old_upload_id: r.upload_id, new_upload_id: new_id },
            )
            &&& !m.tasks.contains_key(r.upload_id) ==> turn.manager == m && turn.effects.len() == 1
            &&& m.tasks.contains_key(r.upload_id) && new_id == r.upload_id ==> {
                &&& turn.manager.tasks.contains_key(new_id)
                &&& turn.manager.tasks[new_id] == (TaskView {
                    status: TaskStatus::Pending,
                    uploaded_chunks: 0,
                    error: None,
                    upload_id: new_id,
                    total_chunks: new_total(r.task, document),
                    chunk_size: Some(new_chunk_size(r.task, document)),
                    ..m.tasks[new_id]
                })
                &&& turn.effects.len() == 2 && turn.effects[0] == Effect::<Seq<char>>::Save
                &&& other != new_id ==> turn.manager.tasks.contains_key(other) == m.tasks.contains_key(other)
                &&& other != new_id && m.tasks.contains_key(other) ==> turn.manager.tasks[other] == m.tasks[other]
            }
            &&& turn.manager == (ManagerView { tasks: turn.manager.tasks, ..m })
        }),
{
}

/// The file is cut as the backend says, as far as it says it, and else as before; a size that nobody knows is
/// 20 MiB.
pub proof fn law_how_the_file_is_cut(task: TaskView, document: Option<Json>)
    ensures
        data_number(document, "total_chunks"@) is None ==> new_total(task, document) == task.total_chunks,
        data_number(document, "total_chunks"@) matches Some(n) ==> new_total(task, document) as int == n as int
            % 0x1_0000_0000,
        data_number(document, "chunk_size"@) matches Some(n) ==> new_chunk_size(task, document) == n,
        data_number(document, "chunk_size"@) is None && task.chunk_size is Some ==> new_chunk_size(task, document)
            == task.chunk_size->0,
        data_number(document, "chunk_size"@) is None && task.chunk_size is None ==> new_chunk_size(task, document)
            == 20 * 1024 * 1024,
{
}

} // verus!
