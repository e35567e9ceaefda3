//! What the client says: the messages that it broadcasts to the clients of its socket, the
//! notices that it gives to its own window, and the other effects that a decision has outside.
use vstd::prelude::*;
use crate::json::{json_line, new_object, no_fields, object_fields, object_text, only_scalars, put, Object, Scalar};

verus! {

/// A message to every client of the local socket.
#[derive(Debug)]
pub enum Message<S> {
    QueueCleared,
    TaskCancelled { upload_id: S },
    Paused { upload_id: S },
    Resumed { upload_id: S },
    UploadStart { upload_id: S, filename: S, total_chunks: u32 },
    UploadQueued { upload_id: S, filename: S, total_chunks: u32 },
    UploadInstant { upload_id: S, filename: S, file_size: u64 },
    UploadHashing { filename: S, file_size: u64 },
    Progress { upload_id: S, uploaded_chunks: u32, total_chunks: u32 },
    Completed { upload_id: S },
    Finished { upload_id: S },
    Retrying { upload_id: S, retry_count: u32 },
    TaskReinit { old_upload_id: S, new_upload_id: S },
    AllPaused,
    AllResumed,
    AllUploadsComplete,
    Connected { client_id: u64 },
}

impl View for Message<String> {
    type V = Message<Seq<char>>;

    open spec fn view(&self) -> Message<Seq<char>> {
        match self {
            Message::QueueCleared => Message::QueueCleared,
            Message::TaskCancelled { upload_id } => Message::TaskCancelled { upload_id: upload_id@ },
            Message::Paused { upload_id } => Message::Paused { upload_id: upload_id@ },
            Message::Resumed { upload_id } => Message::Resumed { upload_id: upload_id@ },
            Message::UploadStart { upload_id, filename, total_chunks } => Message::UploadStart {
                upload_id: upload_id@,
                filename: filename@,
                total_chunks: *total_chunks,
            },
            Message::UploadQueued { upload_id, filename, total_chunks } => Message::UploadQueued {
                upload_id: upload_id@,
                filename: filename@,
                total_chunks: *total_chunks,
            },
            Message::UploadInstant { upload_id, filename, file_size } => Message::UploadInstant {
                upload_id: upload_id@,
                filename: filename@,
                file_size: *file_size,
            },
            Message::UploadHashing { filename, file_size } => Message::UploadHashing {
                filename: filename@,
                file_size: *file_size,
            },
            Message::Progress { upload_id, uploaded_chunks, total_chunks } => Message::Progress {
                upload_id: upload_id@,
                uploaded_chunks: *uploaded_chunks,
                total_chunks: *total_chunks,
            },
            Message::Completed { upload_id } => Message::Completed { upload_id: upload_id@ },
            Message::Finished { upload_id } => Message::Finished { upload_id: upload_id@ },
            Message::Retrying { upload_id, retry_count } => Message::Retrying {
                upload_id: upload_id@,
                retry_count: *retry_count,
            },
            Message::TaskReinit { old_upload_id, new_upload_id } => Message::TaskReinit {
                old_upload_id: old_upload_id@,
                new_upload_id: new_upload_id@,
            },
            Message::AllPaused => Message::AllPaused,
            Message::AllResumed => Message::AllResumed,
            Message::AllUploadsComplete => Message::AllUploadsComplete,
            Message::Connected { client_id } => Message::Connected { client_id: *client_id },
        }
    }
}

/// A notice to the client's own window.
#[derive(Debug)]
pub enum Notice<S> {
    SelectFile { upload_id: S, filename: S, file_size: u64 },
    Instant { filename: S, file_size: u64 },
    Started { upload_id: S, filename: S, file_size: u64 },
    TokenSaved { token: S },
    UserMismatch,
}

impl View for Notice<String> {
    type V = Notice<Seq<char>>;

    open spec fn view(&self) -> Notice<Seq<char>> {
        match self {
            Notice::SelectFile { upload_id, filename, file_size } => Notice::SelectFile {
                upload_id: upload_id@,
                filename: filename@,
                file_size: *file_size,
            },
            Notice::Instant { filename, file_size } => Notice::Instant {
                filename: filename@,
                file_size: *file_size,
            },
            Notice::Started { upload_id, filename, file_size } => Notice::Started {
                upload_id: upload_id@,
                filename: filename@,
                file_size: *file_size,
            },
            Notice::TokenSaved { token } => Notice::TokenSaved { token: token@ },
            Notice::UserMismatch => Notice::UserMismatch,
        }
    }
}

/// What is to be done outside, in this order, once a decision has been taken.
#[derive(Debug)]
pub enum Effect<S> {
    /// Write the task store to disk as it is now.
    Save,
    /// Send a message to every client of the local socket.
    Broadcast(Message<S>),
    /// Give a notice to the window.
    Emit(Notice<S>),
    /// Fire the cancellation token with this number.
    CancelToken(u64),
    /// Let go of the cancellation token with this number.
    ForgetToken(u64),
    /// Tell the backend to abort an upload.
    Abort(S),
    /// Resume a task, on its own.
    Resume(S),
    /// Carry a resumed task's upload on, on its own.
    RunResumed(S),
    /// Stop the batch with this number.
    CancelBatch(u64),
    /// Show the window.
    ShowWindow,
}

impl View for Effect<String> {
    type V = Effect<Seq<char>>;

    open spec fn view(&self) -> Effect<Seq<char>> {
        match self {
            Effect::Save => Effect::Save,
            Effect::Broadcast(m) => Effect::Broadcast(m@),
            Effect::Emit(n) => Effect::Emit(n@),
            Effect::CancelToken(t) => Effect::CancelToken(*t),
            Effect::ForgetToken(t) => Effect::ForgetToken(*t),
            Effect::Abort(id) => Effect::Abort(id@),
            Effect::Resume(id) => Effect::Resume(id@),
            Effect::RunResumed(id) => Effect::RunResumed(id@),
            Effect::CancelBatch(batch) => Effect::CancelBatch(*batch),
            Effect::ShowWindow => Effect::ShowWindow,
        }
    }
}

/// What a list of effects holds.
pub open spec fn sent(effects: Seq<Effect<String>>) -> Seq<Effect<Seq<char>>> {
    effects.map_values(|e: Effect<String>| e@)
}

/// Adds an effect to the list of what is to be done.
pub fn send(out: &mut Vec<Effect<String>>, effect: Effect<String>)
    ensures
        sent(final(out)@) == sent(old(out)@).push(effect@),
{
    out.push(effect);
    assert(sent(out@) =~= sent(old(out)@).push(effect@));
}

/// The fields of the JSON object that stands for a message. A progress message carries one field
/// more, the percentage, which is a fraction.
pub open spec fn message_fields(message: Message<Seq<char>>) -> Map<Seq<char>, Scalar<Seq<char>>> {
    let none = no_fields();
    match message {
        Message::QueueCleared => none.insert("type"@, Scalar::Text("queue_cleared"@)),
        Message::TaskCancelled { upload_id } => none.insert("type"@, Scalar::Text("task_cancelled"@)).insert(
            "upload_id"@,
            Scalar::Text(upload_id),
        ),
        Message::Paused { upload_id } => none.insert("type"@, Scalar::Text("paused"@)).insert(
            "upload_id"@,
            Scalar::Text(upload_id),
        ),
        Message::Resumed { upload_id } => none.insert("type"@, Scalar::Text("resumed"@)).insert(
            "upload_id"@,
            Scalar::Text(upload_id),
        ),
        Message::UploadStart { upload_id, filename, total_chunks } => none.insert(
            "type"@,
            Scalar::Text("upload_start"@),
        ).insert("upload_id"@, Scalar::Text(upload_id)).insert("filename"@, Scalar::Text(filename)).insert(
            "total_chunks"@,
            Scalar::Number(total_chunks as u64),
        ),
        Message::UploadQueued { upload_id, filename, total_chunks } => none.insert(
            "type"@,
            Scalar::Text("upload_queued"@),
        ).insert("upload_id"@, Scalar::Text(upload_id)).insert("filename"@, Scalar::Text(filename)).insert(
            "total_chunks"@,
            Scalar::Number(total_chunks as u64),
        ),
        Message::UploadInstant { upload_id, filename, file_size } => none.insert(
            "type"@,
            Scalar::Text("upload_instant"@),
        ).insert("upload_id"@, Scalar::Text(upload_id)).insert("filename"@, Scalar::Text(filename)).insert(
            "file_size"@,
            Scalar::Number(file_size),
        ),
        Message::UploadHashing { filename, file_size } => none.insert(
            "type"@,
            Scalar::Text("upload_hashing"@),
        ).insert("filename"@, Scalar::Text(filename)).insert("file_size"@, Scalar::Number(file_size)),
        Message::Progress { upload_id, uploaded_chunks, total_chunks } => none.insert(
            "type"@,
            Scalar::Text("progress"@),
        ).insert("upload_id"@, Scalar::Text(upload_id)).insert(
            "uploaded_chunks"@,
            Scalar::Number(uploaded_chunks as u64),
        ).insert("total_chunks"@, Scalar::Number(total_chunks as u64)),
        Message::Completed { upload_id } => none.insert("type"@, Scalar::Text("completed"@)).insert(
            "upload_id"@,
            Scalar::Text(upload_id),
        ),
        Message::Finished { upload_id } => none.insert("type"@, Scalar::Text("completed"@)).insert(
            "upload_id"@,
            Scalar::Text(upload_id),
        ).insert("status"@, Scalar::Text("completed"@)),
        Message::Retrying { upload_id, retry_count } => none.insert("type"@, Scalar::Text("task_status"@)).insert(
            "upload_id"@,
            Scalar::Text(upload_id),
        ).insert("status"@, Scalar::Text("running"@)).insert("retry_count"@, Scalar::Number(retry_count as u64)),
        Message::TaskReinit { old_upload_id, new_upload_id } => none.insert(
            "type"@,
            Scalar::Text("task_reinit"@),
        ).insert("old_upload_id"@, Scalar::Text(old_upload_id)).insert(
            "new_upload_id"@,
            Scalar::Text(new_upload_id),
        ),
        Message::AllPaused => none.insert("type"@, Scalar::Text("all_paused"@)),
        Message::AllResumed => none.insert("type"@, Scalar::Text("all_resumed"@)),
        Message::AllUploadsComplete => none.insert("type"@, Scalar::Text("all_uploads_complete"@)),
        Message::Connected { client_id } => none.insert("type"@, Scalar::Text("connected"@)).insert(
            "client_id"@,
            Scalar::Number(client_id),
        ).insert("service"@, Scalar::Text("ipams-client"@)),
    }
}

/// The fields of the JSON object that goes with a notice.
pub open spec fn notice_fields(notice: Notice<Seq<char>>) -> Map<Seq<char>, Scalar<Seq<char>>> {
    let none = no_fields();
    match notice {
        Notice::SelectFile { upload_id, filename, file_size } => none.insert(
            "upload_id"@,
            Scalar::Text(upload_id),
        ).insert("filename"@, Scalar::Text(filename)).insert("file_size"@, Scalar::Number(file_size)),
        Notice::Instant { filename, file_size } => none.insert("filename"@, Scalar::Text(filename)).insert(
            "file_size"@,
            Scalar::Number(file_size),
        ),
        Notice::Started { upload_id, filename, file_size } => none.insert(
            "upload_id"@,
            Scalar::Text(upload_id),
        ).insert("filename"@, Scalar::Text(filename)).insert("file_size"@, Scalar::Number(file_size)),
        Notice::TokenSaved { token } => none,
        Notice::UserMismatch => none,
    }
}

/// The name under which the window hears of a notice.
pub open spec fn notice_name(notice: Notice<Seq<char>>) -> Seq<char> {
    match notice {
        Notice::SelectFile { .. } => "upload:select-file"@,
        Notice::Instant { .. } => "upload:instant"@,
        Notice::Started { .. } => "upload:started"@,
        Notice::TokenSaved { .. } => "auth:token-saved"@,
        Notice::UserMismatch => "upload:user-mismatch"@,
    }
}

fn typed(kind: &str) -> (r: Object)
    ensures
        object_fields(r) == no_fields().insert("type"@, Scalar::Text(kind@)),
        only_scalars(r),
{
    let mut object = new_object();
    put(&mut object, "type", Scalar::Text(kind.to_string()));
    object
}

impl Message<String> {
    /// The JSON object that stands for the message.
    pub fn object(&self) -> (r: Object)
        ensures
            object_fields(r) == message_fields(self@),
            only_scalars(r),
    {
        match self {
            Message::QueueCleared => typed("queue_cleared"),
            Message::TaskCancelled { upload_id } => {
                let mut o = typed("task_cancelled");
                put(&mut o, "upload_id", Scalar::Text(upload_id.clone()));
                o
            },
            Message::Paused { upload_id } => {
                let mut o = typed("paused");
                put(&mut o, "upload_id", Scalar::Text(upload_id.clone()));
                o
            },
            Message::Resumed { upload_id } => {
                let mut o = typed("resumed");
                put(&mut o, "upload_id", Scalar::Text(upload_id.clone()));
                o
            },
            Message::UploadStart { upload_id, filename, total_chunks } => {
                let mut o = typed("upload_start");
                put(&mut o, "upload_id", Scalar::Text(upload_id.clone()));
                put(&mut o, "filename", Scalar::Text(filename.clone()));
                put(&mut o, "total_chunks", Scalar::Number(*total_chunks as u64));
                o
            },
            Message::UploadQueued { upload_id, filename, total_chunks } => {
                let mut o = typed("upload_queued");
                put(&mut o, "upload_id", Scalar::Text(upload_id.clone()));
                put(&mut o, "filename", Scalar::Text(filename.clone()));
                put(&mut o, "total_chunks", Scalar::Number(*total_chunks as u64));
                o
            },
            Message::UploadInstant { upload_id, filename, file_size } => {
                let mut o = typed("upload_instant");
                put(&mut o, "upload_id", Scalar::Text(upload_id.clone()));
                put(&mut o, "filename", Scalar::Text(filename.clone()));
                put(&mut o, "file_size", Scalar::Number(*file_size));
                o
            },
            Message::UploadHashing { filename, file_size } => {
                let mut o = typed("upload_hashing");
                put(&mut o, "filename", Scalar::Text(filename.clone()));
                put(&mut o, "file_size", Scalar::Number(*file_size));
                o
            },
            Message::Progress { upload_id, uploaded_chunks, total_chunks } => {
                let mut o = typed("progress");
                put(&mut o, "upload_id", Scalar::Text(upload_id.clone()));
                put(&mut o, "uploaded_chunks", Scalar::Number(*uploaded_chunks as u64));
                put(&mut o, "total_chunks", Scalar::Number(*total_chunks as u64));
                o
            },
            Message::Completed { upload_id } => {
                let mut o = typed("completed");
                put(&mut o, "upload_id", Scalar::Text(upload_id.clone()));
                o
            },
            Message::Finished { upload_id } => {
                let mut o = typed("completed");
                put(&mut o, "upload_id", Scalar::Text(upload_id.clone()));
                put(&mut o, "status", Scalar::Text("completed".to_string()));
                o
            },
            Message::Retrying { upload_id, retry_count } => {
                let mut o = typed("task_status");
                put(&mut o, "upload_id", Scalar::Text(upload_id.clone()));
                put(&mut o, "status", Scalar::Text("running".to_string()));
                put(&mut o, "retry_count", Scalar::Number(*retry_count as u64));
                o
            },
            Message::TaskReinit { old_upload_id, new_upload_id } => {
                let mut o = typed("task_reinit");
                put(&mut o, "old_upload_id", Scalar::Text(old_upload_id.clone()));
                put(&mut o, "new_upload_id", Scalar::Text(new_upload_id.clone()));
                o
            },
            Message::AllPaused => typed("all_paused"),
            Message::AllResumed => typed("all_resumed"),
            Message::AllUploadsComplete => typed("all_uploads_complete"),
            Message::Connected { client_id } => {
                let mut o = typed("connected");
                put(&mut o, "client_id", Scalar::Number(*client_id));
                put(&mut o, "service", Scalar::Text("ipams-client".to_string()));
                o
            },
        }
    }
}

impl Message<String> {
    /// The text that is broadcast for the message. That of a progress message also tells the percentage
    /// and is made from its object.
    pub fn text(&self) -> (r: String)
        requires
            !(self is Progress),
        ensures
            r@ == json_line(message_fields(self@)),
    {
        object_text(self.object())
    }
}

impl Notice<String> {
    /// The name under which the window hears of the notice.
    pub fn name(&self) -> (r: &'static str)
        ensures
            r@ == notice_name(self@),
    {
        match self {
            Notice::SelectFile { .. } => "upload:select-file",
            Notice::Instant { .. } => "upload:instant",
            Notice::Started { .. } => "upload:started",
            Notice::TokenSaved { .. } => "auth:token-saved",
            Notice::UserMismatch => "upload:user-mismatch",
        }
    }

    /// The JSON object that goes with the notice.
    pub fn object(&self) -> (r: Object)
        ensures
            object_fields(r) == notice_fields(self@),
    {
        let mut o = new_object();
        match self {
            Notice::SelectFile { upload_id, filename, file_size } => {
                put(&mut o, "upload_id", Scalar::Text(upload_id.clone()));
                put(&mut o, "filename", Scalar::Text(filename.clone()));
                put(&mut o, "file_size", Scalar::Number(*file_size));
            },
            Notice::Instant { filename, file_size } => {
                put(&mut o, "filename", Scalar::Text(filename.clone()));
                put(&mut o, "file_size", Scalar::Number(*file_size));
            },
            Notice::Started { upload_id, filename, file_size } => {
                put(&mut o, "upload_id", Scalar::Text(upload_id.clone()));
                put(&mut o, "filename", Scalar::Text(filename.clone()));
                put(&mut o, "file_size", Scalar::Number(*file_size));
            },
            Notice::TokenSaved { .. } => {},
            Notice::UserMismatch => {},
        }
        o
    }
}

proof fn lemma_keys_differ()
    ensures
        "type"@.len() == 4,
        "status"@.len() == 6,
        "service"@.len() == 7,
        "filename"@.len() == 8,
        "upload_id"@.len() == 9 && "upload_id"@[0] == 'u',
        "file_size"@.len() == 9 && "file_size"@[0] == 'f',
        "client_id"@.len() == 9 && "client_id"@[0] == 'c',
        "retry_count"@.len() == 11,
        "total_chunks"@.len() == 12,
        "old_upload_id"@.len() == 13 && "old_upload_id"@[0] == 'o',
        "new_upload_id"@.len() == 13 && "new_upload_id"@[0] == 'n',
        "uploaded_chunks"@.len() == 15,
{
    reveal_strlit("type");
    reveal_strlit("status");
    reveal_strlit("service");
    reveal_strlit("filename");
    reveal_strlit("upload_id");
    reveal_strlit("file_size");
    reveal_strlit("client_id");
    reveal_strlit("retry_count");
    reveal_strlit("total_chunks");
    reveal_strlit("old_upload_id");
    reveal_strlit("new_upload_id");
    reveal_strlit("uploaded_chunks");
}

/// The words by which a client tells one kind of message from another.
pub proof fn law_messages_bear_their_kind(message: Message<Seq<char>>)
    ensures
        message_fields(message).contains_key("type"@),
        message_fields(message)["type"@] == Scalar::Text(
            match message {
                Message::QueueCleared => "queue_cleared"@,
                Message::TaskCancelled { .. } => "task_cancelled"@,
                Message::Paused { .. } => "paused"@,
                Message::Resumed { .. } => "resumed"@,
                Message::UploadStart { .. } => "upload_start"@,
                Message::UploadQueued { .. } => "upload_queued"@,
                Message::UploadInstant { .. } => "upload_instant"@,
                Message::UploadHashing { .. } => "upload_hashing"@,
                Message::Progress { .. } => "progress"@,
                Message::Completed { .. } | Message::Finished { .. } => "completed"@,
                Message::Retrying { .. } => "task_status"@,
                Message::TaskReinit { .. } => "task_reinit"@,
                Message::AllPaused => "all_paused"@,
                Message::AllResumed => "all_resumed"@,
                Message::AllUploadsComplete => "all_uploads_complete"@,
                Message::Connected { .. } => "connected"@,
            },
        ),
{
    lemma_keys_differ();
}

/// Every message that is about an upload tells which, and the counts, names and sizes that it bears are
/// told under their own names; no message tells a field that it does not bear.
pub proof fn law_messages_tell_what_they_bear(message: Message<Seq<char>>)
    ensures
        ({
            let fields = message_fields(message);
            let upload = match message {
                Message::TaskCancelled { upload_id } => Some(upload_id),
                Message::Paused { upload_id } => Some(upload_id),
                Message::Resumed { upload_id } => Some(upload_id),
                Message::UploadStart { upload_id, .. } => Some(upload_id),
                Message::UploadQueued { upload_id, .. } => Some(upload_id),
                Message::UploadInstant { upload_id, .. } => Some(upload_id),
                Message::Progress { upload_id, .. } => Some(upload_id),
                Message::Completed { upload_id } => Some(upload_id),
                Message::Finished { upload_id } => Some(upload_id),
                Message::Retrying { upload_id, .. } => Some(upload_id),
                _ => None,
            };
            let name = match message {
                Message::UploadStart { filename, .. } => Some(filename),
                Message::UploadQueued { filename, .. } => Some(filename),
                Message::UploadInstant { filename, .. } => Some(filename),
                Message::UploadHashing { filename, .. } => Some(filename),
                _ => None,
            };
            let size = match message {
                Message::UploadInstant { file_size, .. } => Some(file_size),
                Message::UploadHashing { file_size, .. } => Some(file_size),
                _ => None,
            };
            let chunks = match message {
                Message::UploadStart { total_chunks, .. } => Some(total_chunks),
                Message::UploadQueued { total_chunks, .. } => Some(total_chunks),
                Message::Progress { total_chunks, .. } => Some(total_chunks),
                _ => None,
            };
            &&& fields.contains_key("upload_id"@) <==> upload is Some
            &&& upload is Some ==> fields["upload_id"@] == Scalar::Text(upload->0)
            &&& fields.contains_key("filename"@) <==> name is Some
            &&& name is Some ==> fields["filename"@] == Scalar::Text(name->0)
            &&& fields.contains_key("file_size"@) <==> size is Some
            &&& size is Some ==> fields["file_size"@] == Scalar::<Seq<char>>::Number(size->0)
            &&& fields.contains_key("total_chunks"@) <==> chunks is Some
            &&& chunks is Some ==> fields["total_chunks"@] == Scalar::<Seq<char>>::Number(chunks->0 as u64)
        }),
{
    lemma_keys_differ();
}

/// What only single kinds of messages bear: how much has been sent, how often an upload was tried, which
/// upload took the place of which, and who is connected.
pub proof fn law_messages_tell_their_own(message: Message<Seq<char>>, key: Seq<char>)
    ensures
        ({
            let fields = message_fields(message);
            &&& message matches Message::Progress { uploaded_chunks, .. } ==> fields["uploaded_chunks"@] == Scalar::<
                Seq<char>,
            >::Number(uploaded_chunks as u64)
            &&& fields.contains_key("uploaded_chunks"@) <==> message is Progress
            &&& message matches Message::Retrying { retry_count, .. } ==> fields["retry_count"@] == Scalar::<
                Seq<char>,
            >::Number(retry_count as u64)
            &&& fields.contains_key("retry_count"@) <==> message is Retrying
            &&& message is Retrying ==> fields["status"@] == Scalar::Text("running"@)
            &&& message is Finished ==> fields["status"@] == Scalar::Text("completed"@)
            &&& fields.contains_key("status"@) <==> message is Retrying || message is Finished
            &&& message matches Message::TaskReinit { old_upload_id, new_upload_id } ==> fields["old_upload_id"@]
                == Scalar::Text(old_upload_id) && fields["new_upload_id"@] == Scalar::Text(new_upload_id)
            &&& fields.contains_key("old_upload_id"@) <==> message is TaskReinit
            &&& fields.contains_key("new_upload_id"@) <==> message is TaskReinit
            &&& message matches Message::Connected { client_id } ==> fields["client_id"@] == Scalar::<
                Seq<char>,
            >::Number(client_id)
            &&& message is Connected ==> fields["service"@] == Scalar::Text("ipams-client"@)
            &&& fields.contains_key("client_id"@) <==> message is Connected
            &&& fields.contains_key("service"@) <==> message is Connected
            &&& fields.contains_key(key) ==> key == "type"@ || key == "upload_id"@ || key == "filename"@ || key
                == "file_size"@ || key == "total_chunks"@ || key == "uploaded_chunks"@ || key == "retry_count"@ || key
                == "status"@ || key == "old_upload_id"@ || key == "new_upload_id"@ || key == "client_id"@ || key
                == "service"@
        }),
{
    lemma_keys_differ();
}

/// A notice tells the window the file's name and size, and the upload where there is one; the word that a
/// token was saved bears no token.
pub proof fn law_notices(notice: Notice<Seq<char>>, key: Seq<char>)
    ensures
        notice matches Notice::SelectFile { upload_id, filename, file_size } ==> {
            &&& notice_name(notice) == "upload:select-file"@
            &&& notice_fields(notice)["upload_id"@] == Scalar::Text(upload_id)
            &&& notice_fields(notice)["filename"@] == Scalar::Text(filename)
            &&& notice_fields(notice)["file_size"@] == Scalar::<Seq<char>>::Number(file_size)
            &&& notice_fields(notice).contains_key(key) <==> key == "upload_id"@ || key == "filename"@ || key
                == "file_size"@
        },
        notice matches Notice::Started { upload_id, filename, file_size } ==> {
            &&& notice_name(notice) == "upload:started"@
            &&& notice_fields(notice)["upload_id"@] == Scalar::Text(upload_id)
            &&& notice_fields(notice)["filename"@] == Scalar::Text(filename)
            &&& notice_fields(notice)["file_size"@] == Scalar::<Seq<char>>::Number(file_size)
            &&& notice_fields(notice).contains_key(key) <==> key == "upload_id"@ || key == "filename"@ || key
                == "file_size"@
        },
        notice matches Notice::Instant { filename, file_size } ==> {
            &&& notice_name(notice) == "upload:instant"@
            &&& notice_fields(notice)["filename"@] == Scalar::Text(filename)
            &&& notice_fields(notice)["file_size"@] == Scalar::<Seq<char>>::Number(file_size)
            &&& notice_fields(notice).contains_key(key) <==> key == "filename"@ || key == "file_size"@
        },
        notice is TokenSaved ==> notice_name(notice) == "auth:token-saved"@ && !notice_fields(notice).contains_key(key),
        notice is UserMismatch ==> notice_name(notice) == "upload:user-mismatch"@ && !notice_fields(
            notice,
        ).contains_key(key),
{
    lemma_keys_differ();
}

/// What is to be done is listed in the order in which it was decided, each as it is.
pub proof fn law_effects_are_listed(effects: Seq<Effect<String>>, i: int, last: Effect<String>)
    ensures
        sent(effects).len() == effects.len(),
        0 <= i < effects.len() ==> sent(effects)[i] == effects[i]@,
        sent(effects.push(last)) == sent(effects).push(last@),
{
    assert(sent(effects.push(last)) =~= sent(effects).push(last@));
}

/// An effect, a message and a notice are told by their kind and by the texts and numbers that they bear.
pub proof fn law_effects_are_what_they_bear(effect: Effect<String>)
    ensures
        effect is Save <==> effect@ is Save,
        effect is ShowWindow <==> effect@ is ShowWindow,
        effect is Broadcast <==> effect@ is Broadcast,
        effect is Emit <==> effect@ is Emit,
        effect is CancelToken <==> effect@ is CancelToken,
        effect is ForgetToken <==> effect@ is ForgetToken,
        effect is Abort <==> effect@ is Abort,
        effect is Resume <==> effect@ is Resume,
        effect is RunResumed <==> effect@ is RunResumed,
        effect is CancelBatch <==> effect@ is CancelBatch,
        effect matches Effect::CancelToken(t) ==> effect@->CancelToken_0 == t,
        effect matches Effect::ForgetToken(t) ==> effect@->ForgetToken_0 == t,
        effect matches Effect::CancelBatch(b) ==> effect@->CancelBatch_0 == b,
        effect matches Effect::Abort(id) ==> effect@->Abort_0 == id@,
        effect matches Effect::Resume(id) ==> effect@->Resume_0 == id@,
        effect matches Effect::RunResumed(id) ==> effect@->RunResumed_0 == id@,
        effect matches Effect::Broadcast(m) ==> effect@->Broadcast_0 == m@,
        effect matches Effect::Emit(n) ==> effect@->Emit_0 == n@,
{
}

} // verus!
