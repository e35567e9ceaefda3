//! Beginning the upload of one file: what the backend is told of the file, and the task that comes
//! of its answer.
use vstd::prelude::*;
use vstd::string::*;
use crate::api::{init_address, init_body, init_fields, init_url, reinit_fields, Answer, Request};
use crate::json::{object_fields, Scalar};
use crate::pairs::TextMap;
use crate::text::{copy_opt, decimal, opt, push_decimal};
use super::folders::{target_folder, target_folder_id};
use super::manager::{Manager, ManagerView};
use super::message::{send, sent, Effect, Message};
use super::reinit::DEFAULT_CHUNK_SIZE;
use super::{DetailView, TaskStatus, TaskView, TransferTask, UploadTaskDetail};

verus! {

/// What the backend says of an upload that it has begun.
#[derive(Debug)]
pub struct InitResponseData {
    pub upload_id: Option<String>,
    pub asset_id: Option<String>,
    pub chunk_size: Option<u64>,
    pub total_chunks: Option<u64>,
    pub is_instant_upload: Option<bool>,
    pub is_duplicate: Option<bool>,
}

/// The envelope of what the backend says of an upload that it has begun.
#[derive(Debug)]
pub struct InitResponse {
    pub data: Option<InitResponseData>,
}

/// One file that is to be uploaded.
#[derive(Debug)]
pub struct InitJob {
    pub filename: String,
    pub file_path: String,
    pub file_size: u64,
    pub project_id: String,
    pub folder_id: Option<String>,
}

/// What a file that is to be uploaded holds.
#[verifier::ext_equal]
pub struct JobView {
    pub filename: Seq<char>,
    pub file_path: Seq<char>,
    pub file_size: u64,
    pub project_id: Seq<char>,
    pub folder_id: Option<Seq<char>>,
}

impl View for InitJob {
    type V = JobView;

    open spec fn view(&self) -> JobView {
        JobView {
            filename: self.filename@,
            file_path: self.file_path@,
            file_size: self.file_size,
            project_id: self.project_id@,
            folder_id: opt(self.folder_id),
        }
    }
}

/// An upload that has begun: its task, and what is to be sent. One that is instant has nothing left
/// to send.
#[derive(Debug)]
pub struct InitDone {
    pub detail: UploadTaskDetail,
    pub task: TransferTask,
    pub instant: bool,
}

/// The name by which a file is called: its own, or `unknown` where it has none.
pub open spec fn called(name: Option<Seq<char>>) -> Seq<char> {
    match name {
        Some(name) => name,
        None => "unknown"@,
    }
}

/// The name by which a file is called.
pub fn file_label(name: Option<String>) -> (r: String)
    ensures
        r@ == called(opt(name)),
{
    match name {
        Some(name) => name,
        None => "unknown".to_string(),
    }
}

/// The backend has the file already.
pub open spec fn is_instant(data: InitResponseData) -> bool {
    data.is_instant_upload == Some(true) || data.is_duplicate == Some(true)
}

/// The id of an upload that needed none.
pub open spec fn instant_id(now: u64, filename: Seq<char>) -> Seq<char> {
    "instant-"@ + decimal(now as nat) + "-"@ + filename
}

/// The asset that the upload becomes; nothing where the backend names none.
pub open spec fn asset_of(data: InitResponseData) -> Seq<char> {
    match opt(data.asset_id) {
        Some(id) => id,
        None => Seq::empty(),
    }
}

/// How large the chunks of the upload are.
pub open spec fn size_of_chunks(data: InitResponseData) -> u64 {
    match data.chunk_size {
        Some(n) => n,
        None => DEFAULT_CHUNK_SIZE,
    }
}

/// How many chunks the upload has. A number that does not fit loses its upper half.
pub open spec fn number_of_chunks(data: InitResponseData) -> u32 {
    match data.total_chunks {
        Some(n) => (n % 0x1_0000_0000) as u32,
        None => 1,
    }
}

/// How a task begins: cancelled or paused where everything is, else waiting.
pub open spec fn first_status(m: ManagerView) -> TaskStatus {
    if m.global_cancelled {
        TaskStatus::Cancelled
    } else if m.global_paused {
        TaskStatus::Paused
    } else {
        TaskStatus::Pending
    }
}

/// What is to be sent for a file.
pub open spec fn job_detail(
    job: JobView,
    id: Seq<char>,
    asset: Seq<char>,
    chunk_size: u64,
    total_chunks: u32,
) -> DetailView {
    DetailView {
        upload_id: id,
        asset_id: asset,
        original_filename: job.filename,
        file_size: job.file_size,
        chunk_size,
        total_chunks,
        uploaded_chunks: Seq::empty(),
        oss_path: Seq::empty(),
        oss_upload_id: None,
        project_id: Some(job.project_id),
        folder_id: job.folder_id,
    }
}

/// The task of a file that the backend has already.
pub open spec fn instant_task(job: JobView, user: Seq<char>, now: u64) -> TaskView {
    TaskView {
        upload_id: instant_id(now, job.filename),
        filename: job.filename,
        file_size: job.file_size,
        total_chunks: 1,
        uploaded_chunks: 1,
        status: TaskStatus::Completed,
        error: None,
        created_at: now,
        file_path: Some(job.file_path),
        chunk_size: None,
        user_id: Some(user),
        project_id: Some(job.project_id),
        folder_id: job.folder_id,
        retry_count: 0,
    }
}

/// The task of a file that is to be sent.
pub open spec fn new_task(
    job: JobView,
    m: ManagerView,
    id: Seq<char>,
    chunk_size: u64,
    total_chunks: u32,
    user: Seq<char>,
    now: u64,
) -> TaskView {
    TaskView {
        upload_id: id,
        filename: job.filename,
        file_size: job.file_size,
        total_chunks,
        uploaded_chunks: 0,
        status: first_status(m),
        error: None,
        created_at: now,
        file_path: Some(job.file_path),
        chunk_size: Some(chunk_size),
        user_id: Some(user),
        project_id: Some(job.project_id),
        folder_id: job.folder_id,
        retry_count: 0,
    }
}

/// The backend's word on the upload, where it gave one.
pub open spec fn init_data(answer: Answer<InitResponse>) -> Option<InitResponseData> {
    match answer {
        Answer::Met(response) => response.data,
        _ => None,
    }
}

/// The upload has begun: the backend has the file already, or gives the upload an id.
pub open spec fn has_begun(data: Option<InitResponseData>) -> bool {
    match data {
        Some(data) => is_instant(data) || data.upload_id is Some,
        None => false,
    }
}

/// The state after the upload has begun.
pub open spec fn init_state(m: ManagerView, data: InitResponseData) -> ManagerView {
    if !is_instant(data) && first_status(m) == TaskStatus::Paused {
        ManagerView { paused: m.paused.insert(opt(data.upload_id)->0), ..m }
    } else {
        m
    }
}

/// What comes of an upload that has begun.
pub open spec fn init_result(
    job: JobView,
    m: ManagerView,
    data: InitResponseData,
    user: Seq<char>,
    now: u64,
    done: InitDone,
) -> bool {
    if is_instant(data) {
        &&& done.instant
        &&& done.task@ == instant_task(job, user, now)
        &&& done.detail@ == job_detail(job, instant_id(now, job.filename), asset_of(data), 0, 1)
    } else {
        let id = opt(data.upload_id)->0;
        &&& !done.instant
        &&& done.task@ == new_task(job, m, id, size_of_chunks(data), number_of_chunks(data), user, now)
        &&& done.detail@ == job_detail(job, id, asset_of(data), size_of_chunks(data), number_of_chunks(data))
    }
}

fn text_or_empty(text: &Option<String>) -> (r: String)
    ensures
        r@ == (match opt(*text) {
            Some(s) => s,
            None => Seq::empty(),
        }),
{
    match text {
        Some(s) => s.clone(),
        None => String::new(),
    }
}

fn flag(value: Option<bool>) -> (r: bool)
    ensures
        r == (value == Some(true)),
{
    match value {
        Some(b) => b,
        None => false,
    }
}

impl InitJob {
    /// A file that is to be uploaded to a project: to the folder made for the one in which the file
    /// stands, or else to the one that was chosen.
    pub fn new(
        filename: String,
        file_path: String,
        file_size: u64,
        place: &Option<String>,
        made: &TextMap,
        project_id: &str,
        chosen: &Option<String>,
    ) -> (r: Self)
        ensures
            r@ == (JobView {
                filename: filename@,
                file_path: file_path@,
                file_size,
                project_id: project_id@,
                folder_id: target_folder(opt(*place), made@, opt(*chosen)),
            }),
    {
        let folder_id = target_folder_id(place, made, chosen);
        InitJob { filename, file_path, file_size, project_id: project_id.to_string(), folder_id }
    }

    /// The request that begins the upload, of which the clients of the socket are told.
    pub fn request(
        &self,
        api_url: &str,
        asset_type_id: &Option<String>,
        checksum: &Option<String>,
        out: &mut Vec<Effect<String>>,
    ) -> (r: Request)
        ensures
            r matches Request::Post { url, body } && url@ == init_address(api_url@) && object_fields(body)
                == init_fields(
                self@.filename,
                self@.file_size,
                self@.project_id,
                self@.folder_id,
                opt(*asset_type_id),
                opt(*checksum),
            ),
            sent(final(out)@) == sent(old(out)@).push(
                Effect::Broadcast(Message::UploadHashing { filename: self@.filename, file_size: self@.file_size }),
            ),
    {
        send(
            out,
            Effect::Broadcast(Message::UploadHashing { filename: self.filename.clone(), file_size: self.file_size }),
        );
        Request::Post {
            url: init_url(api_url),
            body: init_body(
                &self.filename,
                self.file_size,
                &self.project_id,
                &self.folder_id,
                asset_type_id,
                checksum,
            ),
        }
    }

    fn detail(&self, upload_id: &str, asset_id: String, chunk_size: u64, total_chunks: u32) -> (r: UploadTaskDetail)
        ensures
            r@ == job_detail(self@, upload_id@, asset_id@, chunk_size, total_chunks),
    {
        let r = UploadTaskDetail {
            upload_id: upload_id.to_string(),
            asset_id,
            original_filename: self.filename.clone(),
            file_size: self.file_size,
            chunk_size,
            total_chunks,
            uploaded_chunks: Vec::new(),
            oss_path: String::new(),
            oss_upload_id: None,
            project_id: Some(self.project_id.clone()),
            folder_id: copy_opt(&self.folder_id),
        };
        assert(r@ =~= job_detail(self@, upload_id@, asset_id@, chunk_size, total_chunks));
        r
    }

    fn instant(&self, data: &InitResponseData, user_id: &str, now: u64) -> (r: InitDone)
        ensures
            r.instant,
            r.task@ == instant_task(self@, user_id@, now),
            r.detail@ == job_detail(self@, instant_id(now, self@.filename), asset_of(*data), 0, 1),
    {
        let mut id = "instant-".to_string();
        push_decimal(&mut id, now);
        id.append("-");
        id.append(&self.filename);
        let detail = self.detail(&id, text_or_empty(&data.asset_id), 0, 1);
        let task = TransferTask {
            upload_id: id,
            filename: self.filename.clone(),
            file_size: self.file_size,
            total_chunks: 1,
            uploaded_chunks: 1,
            status: TaskStatus::Completed,
            error: None,
            created_at: now,
            file_path: Some(self.file_path.clone()),
            chunk_size: None,
            user_id: Some(user_id.to_string()),
            project_id: Some(self.project_id.clone()),
            folder_id: copy_opt(&self.folder_id),
            retry_count: 0,
        };
        assert(task@ =~= instant_task(self@, user_id@, now));
        InitDone { detail, task, instant: true }
    }

    /// Takes the backend's answer in. Where the upload has not begun, the file's name is the error.
    pub fn do_init_task(&self, m: &mut Manager, answer: &Answer<InitResponse>, user_id: &str, now: u64) -> (r: Result<
        InitDone,
        String,
    >)
        requires
            old(m).wf(),
        ensures
            final(m).wf(),
            match r {
                Ok(done) => {
                    &&& has_begun(init_data(*answer))
                    &&& final(m)@ == init_state(old(m)@, init_data(*answer)->0)
                    &&& init_result(self@, old(m)@, init_data(*answer)->0, user_id@, now, done)
                },
                Err(name) => {
                    &&& !has_begun(init_data(*answer))
                    &&& final(m)@ == old(m)@
                    &&& name@ == self@.filename
                },
            },
    {
        let data = match answer {
            Answer::Met(response) => match &response.data {
                Some(data) => data,
                None => {
                    return Err(self.filename.clone());
                },
            },
            _ => {
                return Err(self.filename.clone());
            },
        };
        if flag(data.is_instant_upload) || flag(data.is_duplicate) {
            return Ok(self.instant(data, user_id, now));
        }
        let upload_id = match &data.upload_id {
            Some(id) => id,
            None => {
                return Err(self.filename.clone());
            },
        };
        let chunk_size: u64 = match data.chunk_size {
            Some(n) => n,
            None => DEFAULT_CHUNK_SIZE,
        };
        let total_chunks: u32 = match data.total_chunks {
            Some(n) => (n % 0x1_0000_0000) as u32,
            None => 1,
        };
        let status = if m.global_cancelled {
            TaskStatus::Cancelled
        } else if m.global_paused {
            m.paused.insert(upload_id);
            TaskStatus::Paused
        } else {
            TaskStatus::Pending
        };
        let detail = self.detail(upload_id, text_or_empty(&data.asset_id), chunk_size, total_chunks);
        let task = TransferTask {
            upload_id: upload_id.clone(),
            filename: self.filename.clone(),
            file_size: self.file_size,
            total_chunks,
            uploaded_chunks: 0,
            status,
            error: None,
            created_at: now,
            file_path: Some(self.file_path.clone()),
            chunk_size: Some(chunk_size),
            user_id: Some(user_id.to_string()),
            project_id: Some(self.project_id.clone()),
            folder_id: copy_opt(&self.folder_id),
            retry_count: 0,
        };
        assert(task@ =~= new_task(
            self@,
            old(m)@,
            upload_id@,
            size_of_chunks(*data),
            number_of_chunks(*data),
            user_id@,
            now,
        ));
        Ok(InitDone { detail, task, instant: false })
    }
}

/// An upload that the backend has begun is the file's: it has the id, the chunk size and the number of
/// chunks that the backend named, in its task and in what is sent, so that the chunks to be sent are
/// exactly those from 1 to that number; and the file, the project, the folder and the user are the ones it
/// was begun for. A number of chunks that does not fit keeps its lower half; where the backend names none
/// there is one chunk, and where it names no size the chunks have 20 MiB.
pub proof fn law_begun_upload_is_as_the_backend_says(
    job: JobView,
    m: ManagerView,
    data: InitResponseData,
    id: String,
    user: Seq<char>,
    now: u64,
    done: InitDone,
    chunk: u32,
)
    requires
        data.is_instant_upload != Some(true),
        data.is_duplicate != Some(true),
        data.upload_id == Some(id),
        init_result(job, m, data, user, now, done),
    ensures
        !done.instant,
        done.task@.upload_id == id@,
        done.detail@.upload_id == id@,
        data.total_chunks matches Some(n) ==> {
            &&& n <= u32::MAX ==> done.task@.total_chunks == n && done.detail@.total_chunks == n
            &&& done.task@.total_chunks as int == n as int % 0x1_0000_0000
            &&& done.detail@.total_chunks as int == n as int % 0x1_0000_0000
            &&& n <= u32::MAX ==> (super::chunks::missing_chunks(
                done.detail@.total_chunks as nat,
                Seq::empty(),
            ).contains(chunk) <==> 1 <= chunk <= n)
        },
        data.total_chunks is None ==> done.task@.total_chunks == 1 && done.detail@.total_chunks == 1,
        data.chunk_size matches Some(n) ==> done.task@.chunk_size == Some(n) && done.detail@.chunk_size == n,
        data.chunk_size is None ==> done.task@.chunk_size == Some(20971520u64) && done.detail@.chunk_size == 20971520,
        data.asset_id matches Some(asset) ==> done.detail@.asset_id == asset@,
        data.asset_id is None ==> done.detail@.asset_id.len() == 0,
        done.task@.filename == job.filename,
        done.detail@.original_filename == job.filename,
        done.task@.file_size == job.file_size,
        done.detail@.file_size == job.file_size,
        done.task@.file_path == Some(job.file_path),
        done.task@.project_id == Some(job.project_id),
        done.detail@.project_id == Some(job.project_id),
        done.task@.folder_id == job.folder_id,
        done.detail@.folder_id == job.folder_id,
        done.task@.user_id == Some(user),
        done.task@.created_at == now,
        done.task@.uploaded_chunks == 0,
        done.task@.retry_count == 0,
        done.task@.error is None,
        done.detail@.uploaded_chunks.len() == 0,
{
    super::chunks::law_missing_chunks(done.detail@.total_chunks as nat, Seq::empty());
}

/// A new upload waits; where everything has been cancelled it is cancelled, and where everything is paused
/// it is paused and known to be. Nothing else in the state changes.
pub proof fn law_begun_upload_waits(
    job: JobView,
    m: ManagerView,
    data: InitResponseData,
    id: String,
    user: Seq<char>,
    now: u64,
    done: InitDone,
    other: Seq<char>,
)
    requires
        data.is_instant_upload != Some(true),
        data.is_duplicate != Some(true),
        data.upload_id == Some(id),
        init_result(job, m, data, user, now, done),
    ensures
        m.global_cancelled ==> done.task@.status == TaskStatus::Cancelled,
        !m.global_cancelled && m.global_paused ==> done.task@.status == TaskStatus::Paused,
        !m.global_cancelled && !m.global_paused ==> done.task@.status == TaskStatus::Pending,
        init_state(m, data).paused.contains(id@) <==> m.paused.contains(id@) || (m.global_paused && !m.global_cancelled),
        other != id@ ==> init_state(m, data).paused.contains(other) == m.paused.contains(other),
        init_state(m, data) == (ManagerView { paused: init_state(m, data).paused, ..m }),
{
}

/// A file that the backend has already is complete at once, with nothing to send, whichever of the two
/// ways the backend says so; its id is made up from the moment and its name.
pub proof fn law_instant_upload_is_complete(
    job: JobView,
    m: ManagerView,
    data: InitResponseData,
    user: Seq<char>,
    now: u64,
    done: InitDone,
)
    requires
        data.is_instant_upload == Some(true) || data.is_duplicate == Some(true),
        init_result(job, m, data, user, now, done),
    ensures
        done.instant,
        done.task@.status == TaskStatus::Completed,
        done.task@.total_chunks == 1,
        done.task@.uploaded_chunks == 1,
        done.task@.upload_id == "instant-"@ + decimal(now as nat) + "-"@ + job.filename,
        done.detail@.upload_id == done.task@.upload_id,
        done.task@.filename == job.filename,
        done.task@.file_size == job.file_size,
        done.task@.file_path == Some(job.file_path),
        done.task@.user_id == Some(user),
        done.task@.created_at == now,
        done.task@.error is None,
        done.task@.project_id == Some(job.project_id),
        done.task@.folder_id == job.folder_id,
        init_state(m, data) == m,
{
}

/// An upload has begun exactly if the backend met the request and either has the file or gave an id.
pub proof fn law_begun_means_answered(answer: Answer<InitResponse>)
    ensures
        has_begun(init_data(answer)) <==> (answer matches Answer::Met(response) && response.data is Some && (
        response.data->0.upload_id is Some || response.data->0.is_instant_upload == Some(true)
            || response.data->0.is_duplicate == Some(true))),
        answer matches Answer::Met(response) ==> init_data(answer) == response.data,
        !(answer is Met) ==> init_data(answer) is None,
{
}

/// What the backend is told of a file: its name, its size, where it is to go, its type and its checksum,
/// and nothing else. What is not known is null.
pub proof fn law_init_request(
    filename: Seq<char>,
    file_size: u64,
    project: Seq<char>,
    folder: Option<Seq<char>>,
    asset_type: Option<Seq<char>>,
    checksum: Option<Seq<char>>,
    key: Seq<char>,
)
    ensures
        ({
            let fields = init_fields(filename, file_size, project, folder, asset_type, checksum);
            &&& fields["filename"@] == Scalar::Text(filename)
            &&& fields["file_size"@] == Scalar::<Seq<char>>::Number(file_size)
            &&& fields["project_id"@] == Scalar::Text(project)
            &&& fields["folder_id"@] == (match folder {
                Some(id) => Scalar::Text(id),
                None => Scalar::Null,
            })
            &&& fields["asset_type_id"@] == (match asset_type {
                Some(id) => Scalar::Text(id),
                None => Scalar::Null,
            })
            &&& fields["md5_checksum"@] == (match checksum {
                Some(sum) => Scalar::Text(sum),
                None => Scalar::Null,
            })
            &&& fields.contains_key(key) <==> key == "filename"@ || key == "file_size"@ || key == "project_id"@ || key
                == "folder_id"@ || key == "asset_type_id"@ || key == "md5_checksum"@
        }),
        ({
            let fields = reinit_fields(filename, file_size, project, folder);
            &&& fields["filename"@] == Scalar::Text(filename)
            &&& fields["file_size"@] == Scalar::<Seq<char>>::Number(file_size)
            &&& fields["project_id"@] == Scalar::Text(project)
            &&& fields["folder_id"@] == (match folder {
                Some(id) => Scalar::Text(id),
                None => Scalar::Null,
            })
            &&& fields.contains_key(key) <==> key == "filename"@ || key == "file_size"@ || key == "project_id"@ || key
                == "folder_id"@
        }),
{
    reveal_strlit("filename");
    reveal_strlit("file_size");
    reveal_strlit("project_id");
    reveal_strlit("folder_id");
    reveal_strlit("asset_type_id");
    reveal_strlit("md5_checksum");
    assert("filename"@.len() == 8 && "file_size"@.len() == 9 && "project_id"@.len() == 10 && "folder_id"@.len() == 9
        && "asset_type_id"@.len() == 13 && "md5_checksum"@.len() == 12);
    assert("file_size"@[1] != "folder_id"@[1]);
}

/// A file is called by its name, and one without a name is called so.
pub proof fn law_files_have_names(name: Seq<char>)
    ensures
        called(Some(name)) == name,
        called(None) == "unknown"@,
{
}

/// What is known of a begun upload beside its task: the backend's id and asset, and the file's name, size and
/// place, cut as the task is; nothing of it has been sent. A file that the backend holds already is not cut.
pub proof fn law_begun_upload_detail(
    job: JobView,
    m: ManagerView,
    data: InitResponseData,
    user: Seq<char>,
    now: u64,
    done: InitDone,
)
    requires
        init_result(job, m, data, user, now, done),
    ensures
        done.instant <==> data.is_instant_upload == Some(true) || data.is_duplicate == Some(true),
        done.detail@.upload_id == done.task@.upload_id,
        data.asset_id is Some ==> done.detail@.asset_id == data.asset_id->0@,
        data.asset_id is None ==> done.detail@.asset_id.len() == 0,
        done.detail@.original_filename == job.filename,
        done.detail@.file_size == job.file_size,
        done.detail@.project_id == Some(job.project_id),
        done.detail@.folder_id == job.folder_id,
        done.detail@.uploaded_chunks.len() == 0,
        done.detail@.oss_path.len() == 0,
        done.detail@.oss_upload_id is None,
        done.detail@.total_chunks == done.task@.total_chunks,
        !done.instant ==> done.task@.chunk_size == Some(done.detail@.chunk_size),
        !done.instant ==> done.task@.uploaded_chunks == 0,
        done.instant ==> done.detail@.chunk_size == 0 && done.task@.chunk_size is None,
        done.task@.filename == job.filename,
        done.task@.file_size == job.file_size,
        done.task@.file_path == Some(job.file_path),
        done.task@.project_id == Some(job.project_id),
        done.task@.folder_id == job.folder_id,
        done.task@.user_id == Some(user),
        done.task@.created_at == now,
        done.task@.retry_count == 0,
        done.task@.error is None,
{
}

/// A file that is to be sent is told by its name, its place and its size, and by where it goes.
pub proof fn law_job_is_what_it_holds(job: InitJob)
    ensures
        job@.filename == job.filename@,
        job@.file_path == job.file_path@,
        job@.file_size == job.file_size,
        job@.project_id == job.project_id@,
        job@.folder_id is Some <==> job.folder_id is Some,
        job.folder_id is Some ==> job@.folder_id->0 == job.folder_id->0@,
{
}

/// What is known of an upload task is told by its texts, its numbers and its chunks, each in its place.
pub proof fn law_detail_is_what_it_holds(detail: UploadTaskDetail)
    ensures
        detail@.upload_id == detail.upload_id@,
        detail@.asset_id == detail.asset_id@,
        detail@.original_filename == detail.original_filename@,
        detail@.file_size == detail.file_size,
        detail@.chunk_size == detail.chunk_size,
        detail@.total_chunks == detail.total_chunks,
        detail@.uploaded_chunks == detail.uploaded_chunks@,
        detail@.oss_path == detail.oss_path@,
        detail@.oss_upload_id is Some <==> detail.oss_upload_id is Some,
        detail.oss_upload_id is Some ==> detail@.oss_upload_id->0 == detail.oss_upload_id->0@,
        detail@.project_id is Some <==> detail.project_id is Some,
        detail.project_id is Some ==> detail@.project_id->0 == detail.project_id->0@,
        detail@.folder_id is Some <==> detail.folder_id is Some,
        detail.folder_id is Some ==> detail@.folder_id->0 == detail.folder_id->0@,
{
}

} // verus!
