//! The uploader: the requests by which one upload is carried to the backend, and what the answers to
//! them mean.
use vstd::prelude::*;
use vstd::string::*;
use crate::api::{
    chunk_address, chunk_url, complete_address, complete_url, detail_address, detail_url, progress_address,
    progress_url, report_address, report_body, report_fields, report_url, success, Answer, Reply, Request, Sent,
    SentView,
};
use crate::json::{new_object, no_fields, object_fields};
use crate::text::{decimal, opt, push_decimal, push_signed, signed_decimal};
use super::batch::{choose_token, token_used};
use super::chunks::{chunks_to_upload, missing_chunks, number_list, number_list_text};
use super::lifecycle::outcome;
use super::message::{send, sent, Effect, Message};
use super::{ApiResponse, UploadProgress, UploadTaskDetail};

verus! {

/// Carries one upload to the backend, in the name of the user to whom the token belongs.
#[derive(Debug)]
pub struct Uploader {
    upload_id: String,
    api_url: String,
    token: String,
}

/// What an uploader holds.
#[verifier::ext_equal]
pub struct UploaderView {
    pub upload_id: Seq<char>,
    pub api_url: Seq<char>,
    pub token: Seq<char>,
}

impl View for Uploader {
    type V = UploaderView;

    closed spec fn view(&self) -> UploaderView {
        UploaderView { upload_id: self.upload_id@, api_url: self.api_url@, token: self.token@ }
    }
}

/// What is said where nobody is logged in.
pub open spec fn no_login() -> Seq<char> {
    "Not authenticated"@
}

/// A request was refused.
pub open spec fn api_error(status: Seq<char>, text: Seq<char>) -> Seq<char> {
    "API error "@ + status + ": "@ + text
}

fn api_error_text(status_text: &str, text: &str) -> (r: String)
    ensures
        r@ == api_error(status_text@, text@),
{
    let mut error = "API error ".to_string();
    error.append(status_text);
    error.append(": ");
    error.append(text);
    error
}

/// The backend says that something went wrong.
pub open spec fn code_error(code: i32, msg: Option<Seq<char>>) -> Seq<char> {
    "API returned error "@ + signed_decimal(code as int) + ": "@ + (match msg {
        Some(m) => m,
        None => Seq::empty(),
    })
}

/// What an answer to the question for a task's detail comes to.
pub open spec fn detail_outcome(answer: Answer<ApiResponse<UploadTaskDetail>>) -> Result<UploadTaskDetail, Seq<char>> {
    match answer {
        Answer::Unreachable => Err("Failed to fetch task detail"@),
        Answer::Refused { status_text, text, .. } => Err(api_error(status_text@, text@)),
        Answer::Garbled => Err("Failed to parse task detail response"@),
        Answer::Met(response) => if response.code != 0 {
            Err(code_error(response.code, opt(response.msg)))
        } else {
            match response.data {
                Some(detail) => Ok(detail),
                None => Err("Empty data in task detail response"@),
            }
        },
    }
}

/// What an answer to the question for the recorded chunks comes to: the chunks, of which there are
/// none where the backend does not know the upload, or why they cannot be told.
pub open spec fn progress_outcome(answer: Answer<ApiResponse<UploadProgress>>) -> Result<(Seq<u32>, u32), Seq<char>> {
    match answer {
        Answer::Unreachable => Err("Failed to fetch upload progress"@),
        Answer::Refused { status, status_text, text } => if status == 404 {
            Ok((Seq::empty(), 0))
        } else {
            Err(api_error(status_text@, text@))
        },
        Answer::Garbled => Err("Failed to parse upload progress response"@),
        Answer::Met(response) => match response.data {
            Some(progress) => Ok((progress.uploaded_chunks@, progress.total_chunks)),
            None => Ok((Seq::empty(), 0)),
        },
    }
}

/// The chunks that are taken to be recorded: none where that could not be told in time.
pub open spec fn known_chunks(progress: Option<Result<UploadProgress, String>>) -> Seq<u32> {
    match progress {
        Some(Ok(progress)) => progress.uploaded_chunks@,
        _ => Seq::empty(),
    }
}

/// What an answer to the putting of a chunk comes to.
pub open spec fn chunk_outcome(chunk: u32, answer: SentView) -> Result<(), Seq<char>> {
    match answer {
        SentView::Answered { status, status_text, text, .. } => if success(status) {
            Ok(())
        } else {
            Err("Chunk "@ + decimal(chunk as nat) + " upload failed "@ + status_text + ": "@ + text)
        },
        SentView::Unreachable(_) => Err("Failed to upload chunk "@ + decimal(chunk as nat)),
    }
}

/// What an answer to the putting of one chunk among several comes to.
pub open spec fn window_chunk_outcome(
    chunk: u32,
    status: u16,
    status_text: Seq<char>,
    text: Seq<char>,
) -> Result<(), Seq<char>> {
    if success(status) {
        Ok(())
    } else {
        Err("Failed to upload chunk "@ + decimal(chunk as nat) + ": HTTP "@ + status_text + " - "@ + text)
    }
}

/// What an answer to the report of a chunk comes to: a report that was refused does no harm.
pub open spec fn report_outcome(answer: SentView) -> Result<(), Seq<char>> {
    match answer {
        SentView::Answered { .. } => Ok(()),
        SentView::Unreachable(_) => Err("Failed to report progress"@),
    }
}

/// What an answer to the completing of an upload comes to.
pub open spec fn complete_outcome(answer: SentView) -> Result<(), Seq<char>> {
    match answer {
        SentView::Answered { status, status_text, text, .. } => if success(status) {
            Ok(())
        } else {
            Err("Complete upload failed "@ + status_text + ": "@ + text)
        },
        SentView::Unreachable(_) => Err("Failed to complete upload"@),
    }
}

/// What is said where chunks are missing at the backend.
pub open spec fn missing_text(missing: Seq<u32>) -> Seq<char> {
    "Chunks not recorded on server after upload: "@ + number_list(missing) + ". Please retry."@
}

/// Every chunk is recorded, or which are not.
pub open spec fn recorded_outcome(total: u32, recorded: Seq<u32>) -> Result<(), Seq<char>> {
    let missing = missing_chunks(total as nat, recorded);
    if missing.len() > 0 {
        Err(missing_text(missing))
    } else {
        Ok(())
    }
}

/// What comes of the completing of an upload; nothing was answered where it took too long.
pub open spec fn finish_outcome(answer: Option<Sent>) -> Result<(), Seq<char>> {
    match answer {
        Some(answer) => complete_outcome(answer@),
        None => Err("complete_upload timed out after 60s"@),
    }
}

impl Uploader {
    /// The uploader of an upload, with the given token or else the one at hand, over a connection
    /// that is there.
    pub fn with_client(upload_id: &str, token: &Option<String>, stored: &Option<String>, api_url: &str) -> (r: Result<
        Self,
        String,
    >)
        ensures
            match r {
                Ok(u) => token_used(opt(*token), opt(*stored)) == Some(u@.token) && u@.upload_id == upload_id@
                    && u@.api_url == api_url@,
                Err(e) => token_used(opt(*token), opt(*stored)) is None && e@ == no_login(),
            },
    {
        match choose_token(token, stored) {
            Some(token) => Ok(
                Uploader { upload_id: upload_id.to_string(), api_url: api_url.to_string(), token },
            ),
            None => Err("Not authenticated".to_string()),
        }
    }

    /// The uploader of an upload, with the given token or else the one at hand, over a connection of
    /// its own, which could be made or not.
    pub fn new(
        upload_id: &str,
        token: &Option<String>,
        stored: &Option<String>,
        api_url: &str,
        connected: bool,
    ) -> (r: Result<Self, String>)
        ensures
            match r {
                Ok(u) => connected && token_used(opt(*token), opt(*stored)) == Some(u@.token) && u@.upload_id
                    == upload_id@ && u@.api_url == api_url@,
                Err(e) => if token_used(opt(*token), opt(*stored)) is None {
                    e@ == no_login()
                } else {
                    !connected && e@ == "Failed to build HTTP client"@
                },
            },
    {
        let uploader = Uploader::with_client(upload_id, token, stored, api_url);
        if uploader.is_ok() && !connected {
            return Err("Failed to build HTTP client".to_string());
        }
        uploader
    }

    /// The token by which the requests are made.
    pub fn token(&self) -> (r: &str)
        ensures
            r@ == self@.token,
    {
        &self.token
    }

    /// The question for the task's detail.
    pub fn detail_request(&self) -> (r: Request)
        ensures
            r matches Request::Get { url } && url@ == detail_address(self@.api_url, self@.upload_id),
    {
        Request::Get { url: detail_url(&self.api_url, &self.upload_id) }
    }

    /// The question for the recorded chunks.
    pub fn progress_request(&self) -> (r: Request)
        ensures
            r matches Request::Get { url } && url@ == progress_address(self@.api_url, self@.upload_id),
    {
        Request::Get { url: progress_url(&self.api_url, &self.upload_id) }
    }

    /// Where a chunk is put.
    pub fn chunk_url(&self, chunk_index: u32) -> (r: String)
        ensures
            r@ == chunk_address(self@.api_url, self@.upload_id, chunk_index),
    {
        chunk_url(&self.api_url, &self.upload_id, chunk_index)
    }

    /// The report of a chunk.
    pub fn report_request(&self, chunk_index: u32) -> (r: Request)
        ensures
            r matches Request::Post { url, body } && url@ == report_address(self@.api_url, self@.upload_id)
                && object_fields(body) == report_fields(chunk_index),
    {
        Request::Post { url: report_url(&self.api_url, &self.upload_id), body: report_body(chunk_index) }
    }

    /// The request that completes the upload.
    pub fn complete_request(&self) -> (r: Request)
        ensures
            r matches Request::Post { url, body } && url@ == complete_address(self@.api_url, self@.upload_id)
                && object_fields(body) == no_fields(),
    {
        Request::Post { url: complete_url(&self.api_url, &self.upload_id), body: new_object() }
    }

    /// Reads the answer to the question for the task's detail.
    pub fn fetch_task_detail(&self, answer: Answer<ApiResponse<UploadTaskDetail>>) -> (r: Result<
        UploadTaskDetail,
        String,
    >)
        ensures
            match r {
                Ok(detail) => detail_outcome(answer) == Ok::<UploadTaskDetail, Seq<char>>(detail),
                Err(e) => detail_outcome(answer) == Err::<UploadTaskDetail, Seq<char>>(e@),
            },
    {
        match answer {
            Answer::Unreachable => Err("Failed to fetch task detail".to_string()),
            Answer::Refused { status_text, text, .. } => Err(api_error_text(&status_text, &text)),
            Answer::Garbled => Err("Failed to parse task detail response".to_string()),
            Answer::Met(response) => {
                if response.code != 0 {
                    let mut error = "API returned error ".to_string();
                    push_signed(&mut error, response.code);
                    error.append(": ");
                    match &response.msg {
                        Some(msg) => error.append(msg),
                        None => {},
                    }
                    assert(error@ =~= code_error(response.code, opt(response.msg)));
                    return Err(error);
                }
                match response.data {
                    Some(detail) => Ok(detail),
                    None => Err("Empty data in task detail response".to_string()),
                }
            },
        }
    }

    /// Reads the answer to the question for the recorded chunks.
    pub fn fetch_upload_progress(&self, answer: Answer<ApiResponse<UploadProgress>>) -> (r: Result<
        UploadProgress,
        String,
    >)
        ensures
            match r {
                Ok(p) => progress_outcome(answer) == Ok::<(Seq<u32>, u32), Seq<char>>(
                    (p.uploaded_chunks@, p.total_chunks),
                ),
                Err(e) => progress_outcome(answer) == Err::<(Seq<u32>, u32), Seq<char>>(e@),
            },
    {
        match answer {
            Answer::Unreachable => Err("Failed to fetch upload progress".to_string()),
            Answer::Refused { status, status_text, text } => {
                if status == 404 {
                    return Ok(UploadProgress::default());
                }
                Err(api_error_text(&status_text, &text))
            },
            Answer::Garbled => Err("Failed to parse upload progress response".to_string()),
            Answer::Met(response) => match response.data {
                Some(progress) => Ok(progress),
                None => Ok(UploadProgress::default()),
            },
        }
    }

    /// Reads the answer to the putting of a chunk.
    pub fn upload_chunk(&self, chunk_index: u32, answer: &Sent) -> (r: Result<(), String>)
        ensures
            outcome(r) == chunk_outcome(chunk_index, answer@),
    {
        match answer {
            Sent::Answered(reply) => {
                if reply.is_success() {
                    return Ok(());
                }
                let mut error = "Chunk ".to_string();
                push_decimal(&mut error, chunk_index as u64);
                error.append(" upload failed ");
                error.append(&reply.status_text);
                error.append(": ");
                error.append(&reply.text);
                Err(error)
            },
            Sent::Unreachable(_) => {
                let mut error = "Failed to upload chunk ".to_string();
                push_decimal(&mut error, chunk_index as u64);
                Err(error)
            },
        }
    }

    /// Reads the answer to the report of a chunk.
    pub fn report_progress(&self, answer: &Sent) -> (r: Result<(), String>)
        ensures
            outcome(r) == report_outcome(answer@),
    {
        match answer {
            Sent::Answered(_) => Ok(()),
            Sent::Unreachable(_) => Err("Failed to report progress".to_string()),
        }
    }

    /// Reads the answer to the completing of the upload.
    pub fn complete_upload(&self, answer: &Sent) -> (r: Result<(), String>)
        ensures
            outcome(r) == complete_outcome(answer@),
    {
        match answer {
            Sent::Answered(reply) => {
                if reply.is_success() {
                    return Ok(());
                }
                let mut error = "Complete upload failed ".to_string();
                error.append(&reply.status_text);
                error.append(": ");
                error.append(&reply.text);
                Err(error)
            },
            Sent::Unreachable(_) => Err("Failed to complete upload".to_string()),
        }
    }

    /// The chunks that are to be sent, and how many are there already. `progress` is what the backend
    /// said of the recorded ones, if it did in time.
    pub fn run_upload_chunks(&self, total_chunks: u32, progress: &Option<Result<UploadProgress, String>>) -> (r: (
        Vec<u32>,
        u32,
    ))
        ensures
            r.0@ == missing_chunks(total_chunks as nat, known_chunks(*progress)),
            r.1 == total_chunks - r.0@.len(),
    {
        let empty: Vec<u32> = Vec::new();
        let known = match progress {
            Some(Ok(progress)) => &progress.uploaded_chunks,
            _ => &empty,
        };
        assert(known@ =~= known_chunks(*progress));
        let chunks = chunks_to_upload(total_chunks, known);
        let there: u32 = total_chunks - chunks.len() as u32;
        (chunks, there)
    }

    /// Whether every chunk is recorded, before the upload is completed. `progress` is what the backend
    /// said of the recorded ones, if it did in time.
    pub fn check_recorded(&self, total_chunks: u32, progress: &Option<Result<UploadProgress, String>>) -> (r: Result<
        (),
        String,
    >)
        ensures
            outcome(r) == recorded_outcome(total_chunks, known_chunks(*progress)),
    {
        let (missing, _) = self.run_upload_chunks(total_chunks, progress);
        if missing.len() > 0 {
            let mut error = "Chunks not recorded on server after upload: ".to_string();
            error.append(&number_list_text(&missing));
            error.append(". Please retry.");
            return Err(error);
        }
        Ok(())
    }

    /// Ends the completing of the upload. `answer` is what the backend said to it, if it did in time.
    pub fn finish_upload(&self, answer: &Option<Sent>, out: &mut Vec<Effect<String>>) -> (r: Result<(), String>)
        ensures
            outcome(r) == finish_outcome(*answer),
            sent(final(out)@) == if r is Ok {
                sent(old(out)@).push(Effect::Broadcast(Message::Finished { upload_id: self@.upload_id }))
            } else {
                sent(old(out)@)
            },
    {
        let result = match answer {
            Some(answer) => self.complete_upload(answer),
            None => Err("complete_upload timed out after 60s".to_string()),
        };
        if result.is_ok() {
            send(out, Effect::Broadcast(Message::Finished { upload_id: self.upload_id.clone() }));
        }
        result
    }
}

/// Reads the answer to the putting of one chunk among several.
pub fn chunk_reply(chunk_index: u32, reply: &Reply) -> (r: Result<(), String>)
    ensures
        outcome(r) == window_chunk_outcome(chunk_index, reply.status, reply.status_text@, reply.text@),
{
    if reply.is_success() {
        return Ok(());
    }
    let mut error = "Failed to upload chunk ".to_string();
    push_decimal(&mut error, chunk_index as u64);
    error.append(": HTTP ");
    error.append(&reply.status_text);
    error.append(" - ");
    error.append(&reply.text);
    Err(error)
}

/// An upload passes the check of its recorded chunks exactly when each of its chunks is recorded.
pub proof fn law_completed_only_when_recorded(total: u32, recorded: Seq<u32>)
    ensures
        recorded_outcome(total, recorded) is Ok <==> (forall|c: u32|
            1 <= c <= total ==> #[trigger] recorded.contains(c)),
{
    super::chunks::law_missing_chunks(total as nat, recorded);
    let missing = missing_chunks(total as nat, recorded);
    if missing.len() > 0 {
        assert(missing.contains(missing[0]));
        assert(!recorded.contains(missing[0]));
    } else {
        assert forall|c: u32| 1 <= c <= total implies #[trigger] recorded.contains(c) by {
            assert(!missing.contains(c));
        }
    }
}

/// Once the chunks that were to be sent are recorded beside those that were, the upload passes the
/// check.
pub proof fn law_sent_chunks_suffice(total: u32, recorded: Seq<u32>)
    ensures
        recorded_outcome(total, recorded + missing_chunks(total as nat, recorded)) is Ok,
{
    let missing = missing_chunks(total as nat, recorded);
    let all = recorded + missing;
    super::chunks::law_missing_chunks(total as nat, recorded);
    law_completed_only_when_recorded(total, all);
    assert forall|c: u32| 1 <= c <= total implies #[trigger] all.contains(c) by {
        if recorded.contains(c) {
            let k = choose|k: int| 0 <= k < recorded.len() && recorded[k] == c;
            assert(all[k] == c);
        } else {
            assert(missing.contains(c));
            let k = choose|k: int| 0 <= k < missing.len() && missing[k] == c;
            assert(all[recorded.len() + k] == c);
        }
    }
}

/// The backend's word on the recorded chunks is taken as it is: whatever its code and its message, the
/// progress that is read has exactly the chunks and the number that the backend named. So an answer that
/// lists every chunk of the upload passes the check before completion, and for any other the chunks to be
/// sent are exactly those that it does not list.
pub proof fn law_recorded_chunks_are_read(
    response: ApiResponse<UploadProgress>,
    progress: UploadProgress,
    total: u32,
)
    requires
        response.data == Some(progress),
    ensures
        progress_outcome(Answer::Met(response)) == Ok::<(Seq<u32>, u32), Seq<char>>(
            (progress.uploaded_chunks@, progress.total_chunks),
        ),
        ({
            let read = Some(Ok::<UploadProgress, String>(progress));
            let left = missing_chunks(total as nat, known_chunks(read));
            &&& forall|c: u32| #[trigger]
                left.contains(c) <==> 1 <= c <= total && !progress.uploaded_chunks@.contains(c)
            &&& recorded_outcome(total, known_chunks(read)) is Ok <==> forall|c: u32|
                1 <= c <= total ==> #[trigger] progress.uploaded_chunks@.contains(c)
        }),
{
    super::chunks::law_missing_chunks(total as nat, progress.uploaded_chunks@);
    law_completed_only_when_recorded(total, progress.uploaded_chunks@);
}

/// Where the backend knows nothing of the upload, or says nothing, no chunk is recorded, so that all are
/// sent. Where it refuses otherwise, is not reached or cannot be understood, that is an error, which names
/// what the backend said. Without an answer in time no chunk is taken to be recorded.
pub proof fn law_nothing_recorded(
    response: ApiResponse<UploadProgress>,
    status: u16,
    status_text: String,
    text: String,
    error: String,
    total: u32,
)
    requires
        response.data is None,
    ensures
        progress_outcome(Answer::Met(response)) == Ok::<(Seq<u32>, u32), Seq<char>>((Seq::empty(), 0)),
        status == 404 ==> progress_outcome(Answer::Refused { status, status_text, text }) == Ok::<
            (Seq<u32>, u32),
            Seq<char>,
        >((Seq::empty(), 0)),
        status != 404 ==> progress_outcome(Answer::Refused { status, status_text, text }) == Err::<
            (Seq<u32>, u32),
            Seq<char>,
        >("API error "@ + status_text@ + ": "@ + text@),
        progress_outcome(Answer::Unreachable) is Err,
        progress_outcome(Answer::Garbled) is Err,
        known_chunks(None).len() == 0,
        known_chunks(Some(Err(error))).len() == 0,
        missing_chunks(total as nat, known_chunks(None)).len() == total,
        missing_chunks(total as nat, known_chunks(Some(Err(error)))).len() == total,
{
    lemma_all_missing(total as nat);
    assert(known_chunks(None) =~= Seq::<u32>::empty());
}

proof fn lemma_all_missing(total: nat)
    requires
        total <= u32::MAX,
    ensures
        missing_chunks(total, Seq::empty()).len() == total,
    decreases total,
{
    if total > 0 {
        lemma_all_missing((total - 1) as nat);
    }
}

/// The detail of a task is what the backend names, where it says that all is well. Where its code says
/// otherwise, the answer is an error, whatever comes with it; so it is where nothing is named.
pub proof fn law_detail_is_read(
    response: ApiResponse<UploadTaskDetail>,
    status: u16,
    status_text: String,
    text: String,
)
    ensures
        response.code == 0 && response.data is Some ==> detail_outcome(Answer::Met(response)) == Ok::<
            UploadTaskDetail,
            Seq<char>,
        >(response.data->0),
        response.code == 0 && response.data is None ==> detail_outcome(Answer::Met(response)) is Err,
        response.code != 0 ==> detail_outcome(Answer::Met(response)) is Err,
        response.code != 0 && response.msg is Some ==> detail_outcome(Answer::Met(response)) == Err::<
            UploadTaskDetail,
            Seq<char>,
        >("API returned error "@ + signed_decimal(response.code as int) + ": "@ + response.msg->0@),
        detail_outcome(Answer::Refused { status, status_text, text }) == Err::<UploadTaskDetail, Seq<char>>(
            "API error "@ + status_text@ + ": "@ + text@,
        ),
        detail_outcome(Answer::Garbled) is Err,
        detail_outcome(Answer::Unreachable) is Err,
{
}

/// A chunk has arrived, and an upload is complete, exactly if the backend was reached in time and answered
/// with a status from 200 to 299; what it said otherwise is in the error, with the number of the chunk.
pub proof fn law_only_success_counts(
    chunk: u32,
    status: u16,
    status_text: Seq<char>,
    document: Option<crate::json::Json>,
    text: Seq<char>,
    cause: Seq<char>,
)
    ensures
        ({
            let answer = SentView::Answered { status, status_text, document, text };
            let met = 200 <= status <= 299;
            &&& chunk_outcome(chunk, answer) is Ok <==> met
            &&& window_chunk_outcome(chunk, status, status_text, text) is Ok <==> met
            &&& complete_outcome(answer) is Ok <==> met
            &&& !met ==> chunk_outcome(chunk, answer) == Err::<(), Seq<char>>(
                "Chunk "@ + decimal(chunk as nat) + " upload failed "@ + status_text + ": "@ + text,
            )
            &&& !met ==> window_chunk_outcome(chunk, status, status_text, text) == Err::<(), Seq<char>>(
                "Failed to upload chunk "@ + decimal(chunk as nat) + ": HTTP "@ + status_text + " - "@ + text,
            )
            &&& !met ==> complete_outcome(answer) == Err::<(), Seq<char>>(
                "Complete upload failed "@ + status_text + ": "@ + text,
            )
            &&& report_outcome(answer) is Ok
        }),
        chunk_outcome(chunk, SentView::Unreachable(cause)) is Err,
        complete_outcome(SentView::Unreachable(cause)) is Err,
        report_outcome(SentView::Unreachable(cause)) is Err,
        finish_outcome(None) is Err,
{
}

/// An upload is finished exactly if the backend answered in time, with a status from 200 to 299.
pub proof fn law_finished_means_answered(answer: Option<Sent>)
    ensures
        finish_outcome(answer) is Ok <==> (answer matches Some(Sent::Answered(reply)) && 200 <= reply.status <= 299),
{
}

/// The error before completion names exactly the chunks that are missing, in order.
pub proof fn law_missing_are_named(total: u32, recorded: Seq<u32>)
    ensures
        recorded_outcome(total, recorded) matches Err(e) ==> e == "Chunks not recorded on server after upload: "@
            + number_list(missing_chunks(total as nat, recorded)) + ". Please retry."@,
{
}

/// The words of the errors: what was asked for and could not be had, and, where the backend said something,
/// what it said.
pub proof fn law_errors_say_what_failed(
    response: ApiResponse<UploadTaskDetail>,
    code: i32,
    chunk: u32,
    missing: Seq<u32>,
    cause: Seq<char>,
)
    ensures
        detail_outcome(Answer::Unreachable) == Err::<UploadTaskDetail, Seq<char>>("Failed to fetch task detail"@),
        detail_outcome(Answer::Garbled) == Err::<UploadTaskDetail, Seq<char>>("Failed to parse task detail response"@),
        response.code == 0 && response.data is None ==> detail_outcome(Answer::Met(response)) == Err::<
            UploadTaskDetail,
            Seq<char>,
        >("Empty data in task detail response"@),
        progress_outcome(Answer::Unreachable) == Err::<(Seq<u32>, u32), Seq<char>>("Failed to fetch upload progress"@),
        progress_outcome(Answer::Garbled) == Err::<(Seq<u32>, u32), Seq<char>>(
            "Failed to parse upload progress response"@,
        ),
        chunk_outcome(chunk, SentView::Unreachable(cause)) == Err::<(), Seq<char>>(
            "Failed to upload chunk "@ + decimal(chunk as nat),
        ),
        report_outcome(SentView::Unreachable(cause)) == Err::<(), Seq<char>>("Failed to report progress"@),
        complete_outcome(SentView::Unreachable(cause)) == Err::<(), Seq<char>>("Failed to complete upload"@),
        finish_outcome(None) == Err::<(), Seq<char>>("complete_upload timed out after 60s"@),
        no_login() == "Not authenticated"@,
        code_error(code, Some(cause)) == "API returned error "@ + signed_decimal(code as int) + ": "@ + cause,
        code_error(code, None) == "API returned error "@ + signed_decimal(code as int) + ": "@,
        missing_text(missing) == "Chunks not recorded on server after upload: "@ + number_list(missing)
            + ". Please retry."@,
{
    assert(code_error(code, None) =~= "API returned error "@ + signed_decimal(code as int) + ": "@);
}

} // verus!
