//! The backend's interface: where its services are found, what they are sent, and the shape of
//! what they answer.
use vstd::prelude::*;
use vstd::string::*;
use crate::json::{
    new_object, no_fields, object_fields, parsed_json, put, put_text_or_null, text_or_null, Json, Object, Scalar,
};
use crate::text::{decimal, opt, push_decimal};

verus! {

/// A request to the backend, made in the user's name.
pub enum Request {
    Get { url: String },
    Post { url: String, body: Object },
}

/// What the backend answered to a request.
#[derive(Debug)]
pub struct Reply {
    /// The number of the status.
    pub status: u16,
    /// The status in words, such as `404 Not Found`.
    pub status_text: String,
    /// The body.
    pub body: Vec<u8>,
    /// The body as text.
    pub text: String,
}

/// The status says that the request was met.
pub open spec fn success(status: u16) -> bool {
    200 <= status < 300
}

/// What came of a request: the backend's answer, or why there is none.
pub enum Sent {
    Answered(Reply),
    Unreachable(String),
}

/// What came of a request, by what it holds. The body counts as the JSON document that it is.
#[verifier::ext_equal]
pub enum SentView {
    Answered { status: u16, status_text: Seq<char>, document: Option<Json>, text: Seq<char> },
    Unreachable(Seq<char>),
}

impl View for Sent {
    type V = SentView;

    open spec fn view(&self) -> SentView {
        match self {
            Sent::Answered(reply) => SentView::Answered {
                status: reply.status,
                status_text: reply.status_text@,
                document: parsed_json(reply.body@),
                text: reply.text@,
            },
            Sent::Unreachable(error) => SentView::Unreachable(error@),
        }
    }
}

/// What came of a request whose answer is read into a value.
pub enum Answer<T> {
    /// The request was met, and this is what was answered.
    Met(T),
    /// The request was met, but the answer could not be read.
    Garbled,
    /// The request was not met.
    Refused { status: u16, status_text: String, text: String },
    /// The backend was not reached.
    Unreachable,
}

impl Reply {
    /// Whether the request was met.
    pub fn is_success(&self) -> (r: bool)
        ensures
            r == success(self.status),
    {
        200 <= self.status && self.status < 300
    }
}

/// Where a service of an upload is found.
pub open spec fn upload_address(api: Seq<char>, id: Seq<char>, service: Seq<char>) -> Seq<char> {
    api + "/api/v1/upload/"@ + id + service
}

/// Where an upload's recorded chunks are asked for.
pub open spec fn progress_address(api: Seq<char>, id: Seq<char>) -> Seq<char> {
    upload_address(api, id, "/progress"@)
}

/// Where an upload is aborted.
pub open spec fn abort_address(api: Seq<char>, id: Seq<char>) -> Seq<char> {
    upload_address(api, id, "/abort"@)
}

/// Where an upload is completed.
pub open spec fn complete_address(api: Seq<char>, id: Seq<char>) -> Seq<char> {
    upload_address(api, id, "/complete"@)
}

/// Where a chunk is put.
pub open spec fn chunk_address(api: Seq<char>, id: Seq<char>, chunk: u32) -> Seq<char> {
    upload_address(api, id, "/chunk/"@) + decimal(chunk as nat)
}

/// Where an upload is begun.
pub open spec fn init_address(api: Seq<char>) -> Seq<char> {
    api + "/api/v1/upload/init"@
}

/// Where an upload task's detail is asked for.
pub open spec fn detail_address(api: Seq<char>, id: Seq<char>) -> Seq<char> {
    api + "/api/v1/client/tasks/upload/"@ + id
}

/// Where progress is reported.
pub open spec fn report_address(api: Seq<char>, id: Seq<char>) -> Seq<char> {
    detail_address(api, id) + "/progress"@
}

/// Where a project's folders are made.
pub open spec fn folders_address(api: Seq<char>, project: Seq<char>) -> Seq<char> {
    api + "/api/v1/projects/"@ + project + "/folders"@
}

/// Where a user logs in, to come back to the client.
pub open spec fn login_address(web: Seq<char>) -> Seq<char> {
    web + "/login?client_callback=1"@
}

fn upload_url(api_url: &str, upload_id: &str, service: &str) -> (r: String)
    ensures
        r@ == upload_address(api_url@, upload_id@, service@),
{
    let mut url = api_url.to_string();
    url.append("/api/v1/upload/");
    url.append(upload_id);
    url.append(service);
    url
}

/// Where an upload's recorded chunks are asked for.
pub fn progress_url(api_url: &str, upload_id: &str) -> (r: String)
    ensures
        r@ == progress_address(api_url@, upload_id@),
{
    upload_url(api_url, upload_id, "/progress")
}

/// Where an upload is aborted.
pub fn abort_url(api_url: &str, upload_id: &str) -> (r: String)
    ensures
        r@ == abort_address(api_url@, upload_id@),
{
    upload_url(api_url, upload_id, "/abort")
}

/// Where an upload is completed.
pub fn complete_url(api_url: &str, upload_id: &str) -> (r: String)
    ensures
        r@ == complete_address(api_url@, upload_id@),
{
    upload_url(api_url, upload_id, "/complete")
}

/// Where a chunk is put.
pub fn chunk_url(api_url: &str, upload_id: &str, chunk_index: u32) -> (r: String)
    ensures
        r@ == chunk_address(api_url@, upload_id@, chunk_index),
{
    let mut url = upload_url(api_url, upload_id, "/chunk/");
    push_decimal(&mut url, chunk_index as u64);
    url
}

/// Where an upload is begun.
pub fn init_url(api_url: &str) -> (r: String)
    ensures
        r@ == init_address(api_url@),
{
    let mut url = api_url.to_string();
    url.append("/api/v1/upload/init");
    url
}

/// Where an upload task's detail is asked for.
pub fn detail_url(api_url: &str, upload_id: &str) -> (r: String)
    ensures
        r@ == detail_address(api_url@, upload_id@),
{
    let mut url = api_url.to_string();
    url.append("/api/v1/client/tasks/upload/");
    url.append(upload_id);
    url
}

/// Where progress is reported.
pub fn report_url(api_url: &str, upload_id: &str) -> (r: String)
    ensures
        r@ == report_address(api_url@, upload_id@),
{
    let mut url = detail_url(api_url, upload_id);
    url.append("/progress");
    url
}

/// Where a project's folders are made.
pub fn folders_url(api_url: &str, project_id: &str) -> (r: String)
    ensures
        r@ == folders_address(api_url@, project_id@),
{
    let mut url = api_url.to_string();
    url.append("/api/v1/projects/");
    url.append(project_id);
    url.append("/folders");
    url
}

/// Where a user logs in, to come back to the client.
pub fn login_url(web_url: &str) -> (r: String)
    ensures
        r@ == login_address(web_url@),
{
    let mut url = web_url.to_string();
    url.append("/login?client_callback=1");
    url
}

/// What is sent to begin an upload again.
pub open spec fn reinit_fields(
    filename: Seq<char>,
    file_size: u64,
    project: Seq<char>,
    folder: Option<Seq<char>>,
) -> Map<Seq<char>, Scalar<Seq<char>>> {
    no_fields().insert("filename"@, Scalar::Text(filename)).insert("file_size"@, Scalar::Number(file_size)).insert(
        "project_id"@,
        Scalar::Text(project),
    ).insert("folder_id"@, text_or_null(folder))
}

/// What is sent to begin an upload.
pub open spec fn init_fields(
    filename: Seq<char>,
    file_size: u64,
    project: Seq<char>,
    folder: Option<Seq<char>>,
    asset_type: Option<Seq<char>>,
    checksum: Option<Seq<char>>,
) -> Map<Seq<char>, Scalar<Seq<char>>> {
    reinit_fields(filename, file_size, project, folder).insert("asset_type_id"@, text_or_null(asset_type)).insert(
        "md5_checksum"@,
        text_or_null(checksum),
    )
}

/// What is sent to make a folder.
pub open spec fn folder_fields(name: Seq<char>, parent: Option<Seq<char>>) -> Map<Seq<char>, Scalar<Seq<char>>> {
    no_fields().insert("name"@, Scalar::Text(name)).insert("parent_id"@, text_or_null(parent))
}

/// What is sent to report a chunk.
pub open spec fn report_fields(chunk: u32) -> Map<Seq<char>, Scalar<Seq<char>>> {
    no_fields().insert("chunk_index"@, Scalar::Number(chunk as u64)).insert("status"@, Scalar::Text("uploaded"@))
}

/// The request that begins an upload again.
pub fn reinit_body(filename: &str, file_size: u64, project_id: &str, folder_id: &Option<String>) -> (r: Object)
    ensures
        object_fields(r) == reinit_fields(filename@, file_size, project_id@, opt(*folder_id)),
{
    let mut o = new_object();
    put(&mut o, "filename", Scalar::Text(filename.to_string()));
    put(&mut o, "file_size", Scalar::Number(file_size));
    put(&mut o, "project_id", Scalar::Text(project_id.to_string()));
    put_text_or_null(&mut o, "folder_id", folder_id);
    o
}

/// The request that begins an upload.
pub fn init_body(
    filename: &str,
    file_size: u64,
    project_id: &str,
    folder_id: &Option<String>,
    asset_type_id: &Option<String>,
    checksum: &Option<String>,
) -> (r: Object)
    ensures
        object_fields(r) == init_fields(
            filename@,
            file_size,
            project_id@,
            opt(*folder_id),
            opt(*asset_type_id),
            opt(*checksum),
        ),
{
    let mut o = reinit_body(filename, file_size, project_id, folder_id);
    put_text_or_null(&mut o, "asset_type_id", asset_type_id);
    put_text_or_null(&mut o, "md5_checksum", checksum);
    o
}

/// The request that makes a folder.
pub fn folder_body(name: &str, parent_id: &Option<String>) -> (r: Object)
    ensures
        object_fields(r) == folder_fields(name@, opt(*parent_id)),
{
    let mut o = new_object();
    put(&mut o, "name", Scalar::Text(name.to_string()));
    put_text_or_null(&mut o, "parent_id", parent_id);
    o
}

/// The request that reports a chunk.
pub fn report_body(chunk_index: u32) -> (r: Object)
    ensures
        object_fields(r) == report_fields(chunk_index),
{
    let mut o = new_object();
    put(&mut o, "chunk_index", Scalar::Number(chunk_index as u64));
    put(&mut o, "status", Scalar::Text("uploaded".to_string()));
    o
}

/// An answer is good exactly where its status is one of the two hundreds.
pub proof fn law_good_statuses(status: u16)
    ensures
        200 <= status <= 299 ==> success(status),
        success(status) ==> status / 100 == 2,
        status < 200 || status > 299 ==> !success(status),
{
}

/// Every service of an upload stands under the backend's address, below the upload's id, and each service
/// has its own place; a chunk's ends with its number.
pub proof fn law_addresses(api: Seq<char>, id: Seq<char>, chunk: u32, project: Seq<char>, web: Seq<char>)
    ensures
        init_address(api) == api + "/api/v1/upload/init"@,
        progress_address(api, id) == api + "/api/v1/upload/"@ + id + "/progress"@,
        abort_address(api, id) == api + "/api/v1/upload/"@ + id + "/abort"@,
        complete_address(api, id) == api + "/api/v1/upload/"@ + id + "/complete"@,
        chunk_address(api, id, chunk) == api + "/api/v1/upload/"@ + id + "/chunk/"@ + decimal(chunk as nat),
        detail_address(api, id) == api + "/api/v1/client/tasks/upload/"@ + id,
        report_address(api, id) == api + "/api/v1/client/tasks/upload/"@ + id + "/progress"@,
        folders_address(api, project) == api + "/api/v1/projects/"@ + project + "/folders"@,
        login_address(web) == web + "/login?client_callback=1"@,
{
}

/// The addresses of two different chunks of an upload are different.
pub proof fn law_chunks_have_their_own_addresses(api: Seq<char>, id: Seq<char>, a: u32, b: u32)
    requires
        chunk_address(api, id, a) == chunk_address(api, id, b),
    ensures
        a == b,
{
    let start = upload_address(api, id, "/chunk/"@);
    assert(chunk_address(api, id, a).skip(start.len() as int) =~= decimal(a as nat));
    assert(chunk_address(api, id, b).skip(start.len() as int) =~= decimal(b as nat));
    crate::text::law_decimal_tells_the_number(a as nat, b as nat);
}

/// A new folder is asked for by its name and its parent, with null for none; a sent chunk is reported by its
/// number. Nothing else is sent.
pub proof fn law_folder_and_report(name: Seq<char>, parent: Option<Seq<char>>, chunk: u32, key: Seq<char>)
    ensures
        folder_fields(name, parent)["name"@] == Scalar::Text(name),
        folder_fields(name, parent)["parent_id"@] == (match parent {
            Some(id) => Scalar::Text(id),
            None => Scalar::Null,
        }),
        folder_fields(name, parent).contains_key(key) <==> key == "name"@ || key == "parent_id"@,
        report_fields(chunk)["chunk_index"@] == Scalar::<Seq<char>>::Number(chunk as u64),
        report_fields(chunk)["status"@] == Scalar::Text("uploaded"@),
        report_fields(chunk).contains_key(key) <==> key == "chunk_index"@ || key == "status"@,
{
    reveal_strlit("name");
    reveal_strlit("parent_id");
    reveal_strlit("chunk_index");
    reveal_strlit("status");
    assert("name"@.len() == 4 && "parent_id"@.len() == 9 && "chunk_index"@.len() == 11 && "status"@.len() == 6);
}

/// What came back of a request is what the backend answered: its status, its words, and the document that
/// its bytes hold; or why it could not be reached.
pub proof fn law_what_came_back(sent: Sent)
    ensures
        sent is Answered ==> ({
            let reply = sent->Answered_0;
            sent@ == SentView::Answered {
                status: reply.status,
                status_text: reply.status_text@,
                document: parsed_json(reply.body@),
                text: reply.text@,
            }
        }),
        sent is Unreachable ==> sent@ == SentView::Unreachable(sent->Unreachable_0@),
{
}

} // verus!
