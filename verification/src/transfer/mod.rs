//! The transfer of files: what a task is, and the modules that move it from the queue to the
//! backend.
use vstd::prelude::*;
use crate::text::{copy_opt, opt};

pub mod batch;
pub mod chunks;
pub mod control;
pub mod folder_laws;
pub mod folders;
pub mod init;
pub mod laws;
pub mod lifecycle;
pub mod manager;
pub mod message;
pub mod permits;
pub mod registry;
pub mod reinit;
pub mod session;
pub mod store;
pub mod upload;
pub mod walk_laws;
pub mod worker;

verus! {

/// How far a task has come.
#[derive(Debug, Clone, Copy, PartialEq, Eq, Structural)]
pub enum TaskStatus {
    Pending,
    Running,
    Paused,
    Completed,
    Failed,
    Cancelled,
}

/// One file that is being sent to the backend.
#[derive(Debug)]
pub struct TransferTask {
    pub upload_id: String,
    pub filename: String,
    pub file_size: u64,
    pub total_chunks: u32,
    pub uploaded_chunks: u32,
    pub status: TaskStatus,
    pub error: Option<String>,
    pub created_at: u64,
    /// The local file, by which an interrupted transfer goes on.
    pub file_path: Option<String>,
    /// The chunk size that the backend gave, so that a resumed transfer cuts at the same places.
    pub chunk_size: Option<u64>,
    /// The user to whom the task belongs.
    pub user_id: Option<String>,
    pub project_id: Option<String>,
    pub folder_id: Option<String>,
    pub retry_count: u32,
}

/// What a task holds.
#[verifier::ext_equal]
pub struct TaskView {
    pub upload_id: Seq<char>,
    pub filename: Seq<char>,
    pub file_size: u64,
    pub total_chunks: u32,
    pub uploaded_chunks: u32,
    pub status: TaskStatus,
    pub error: Option<Seq<char>>,
    pub created_at: u64,
    pub file_path: Option<Seq<char>>,
    pub chunk_size: Option<u64>,
    pub user_id: Option<Seq<char>>,
    pub project_id: Option<Seq<char>>,
    pub folder_id: Option<Seq<char>>,
    pub retry_count: u32,
}

impl View for TransferTask {
    type V = TaskView;

    open spec fn view(&self) -> TaskView {
        TaskView {
            upload_id: self.upload_id@,
            filename: self.filename@,
            file_size: self.file_size,
            total_chunks: self.total_chunks,
            uploaded_chunks: self.uploaded_chunks,
            status: self.status,
            error: opt(self.error),
            created_at: self.created_at,
            file_path: opt(self.file_path),
            chunk_size: self.chunk_size,
            user_id: opt(self.user_id),
            project_id: opt(self.project_id),
            folder_id: opt(self.folder_id),
            retry_count: self.retry_count,
        }
    }
}

impl Clone for TransferTask {
    fn clone(&self) -> (r: Self)
        ensures
            r == *self,
    {
        TransferTask {
            upload_id: self.upload_id.clone(),
            filename: self.filename.clone(),
            file_size: self.file_size,
            total_chunks: self.total_chunks,
            uploaded_chunks: self.uploaded_chunks,
            status: self.status,
            error: copy_opt(&self.error),
            created_at: self.created_at,
            file_path: copy_opt(&self.file_path),
            chunk_size: self.chunk_size,
            user_id: copy_opt(&self.user_id),
            project_id: copy_opt(&self.project_id),
            folder_id: copy_opt(&self.folder_id),
            retry_count: self.retry_count,
        }
    }
}

/// What the backend says of one upload task.
#[derive(Debug)]
pub struct UploadTaskDetail {
    pub upload_id: String,
    pub asset_id: String,
    pub original_filename: String,
    pub file_size: u64,
    pub chunk_size: u64,
    pub total_chunks: u32,
    /// The numbers of the chunks that the backend has, counted from 1.
    pub uploaded_chunks: Vec<u32>,
    pub oss_path: String,
    pub oss_upload_id: Option<String>,
    pub project_id: Option<String>,
    pub folder_id: Option<String>,
}

/// What an upload task's detail holds.
#[verifier::ext_equal]
pub struct DetailView {
    pub upload_id: Seq<char>,
    pub asset_id: Seq<char>,
    pub original_filename: Seq<char>,
    pub file_size: u64,
    pub chunk_size: u64,
    pub total_chunks: u32,
    pub uploaded_chunks: Seq<u32>,
    pub oss_path: Seq<char>,
    pub oss_upload_id: Option<Seq<char>>,
    pub project_id: Option<Seq<char>>,
    pub folder_id: Option<Seq<char>>,
}

impl View for UploadTaskDetail {
    type V = DetailView;

    open spec fn view(&self) -> DetailView {
        DetailView {
            upload_id: self.upload_id@,
            asset_id: self.asset_id@,
            original_filename: self.original_filename@,
            file_size: self.file_size,
            chunk_size: self.chunk_size,
            total_chunks: self.total_chunks,
            uploaded_chunks: self.uploaded_chunks@,
            oss_path: self.oss_path@,
            oss_upload_id: opt(self.oss_upload_id),
            project_id: opt(self.project_id),
            folder_id: opt(self.folder_id),
        }
    }
}

impl Clone for UploadTaskDetail {
    fn clone(&self) -> (r: Self)
        ensures
            r@ == self@,
    {
        UploadTaskDetail {
            upload_id: self.upload_id.clone(),
            asset_id: self.asset_id.clone(),
            original_filename: self.original_filename.clone(),
            file_size: self.file_size,
            chunk_size: self.chunk_size,
            total_chunks: self.total_chunks,
            uploaded_chunks: self.uploaded_chunks.clone(),
            oss_path: self.oss_path.clone(),
            oss_upload_id: copy_opt(&self.oss_upload_id),
            project_id: copy_opt(&self.project_id),
            folder_id: copy_opt(&self.folder_id),
        }
    }
}

/// The chunks that the backend has recorded for an upload.
#[derive(Debug)]
pub struct UploadProgress {
    pub uploaded_chunks: Vec<u32>,
    pub total_chunks: u32,
}

impl Default for UploadProgress {
    fn default() -> (r: Self)
        ensures
            r.uploaded_chunks@ == Seq::<u32>::empty(),
            r.total_chunks == 0,
    {
        UploadProgress { uploaded_chunks: Vec::new(), total_chunks: 0 }
    }
}

/// The envelope of the backend's answers.
pub struct ApiResponse<T> {
    pub code: i32,
    pub msg: Option<String>,
    pub data: Option<T>,
}

} // verus!
