use ipams_client::api::{
    abort_url, chunk_url, complete_url, detail_url, folders_url, init_url, login_url, progress_url, report_url, Answer,
    Reply, Request, Sent,
};
use ipams_client::transfer::chunks::{
    check_chunk, chunk_fault, chunk_lost, chunk_offset, chunks_to_upload, count_chunk, number_list_text, ChunkFault,
    ChunkWindow,
};
use ipams_client::transfer::manager::{get_task, Manager};
use ipams_client::transfer::message::Effect;
use ipams_client::transfer::reinit::{begin_resumed, take_up, Reinit};
use ipams_client::transfer::upload::{chunk_reply, Uploader};
use ipams_client::transfer::{ApiResponse, TaskStatus, TransferTask, UploadProgress, UploadTaskDetail};
use std::io::{Cursor, Read};

fn saved(tasks: Vec<TransferTask>) -> Vec<(String, TransferTask)> {
    tasks.into_iter().map(|t| (t.upload_id.clone(), t)).collect()
}

fn some(s: &str) -> Option<String> {
    Some(s.to_string())
}

fn err(s: &str) -> Result<(), String> {
    Err(s.to_string())
}

fn reply(status: u16, words: &str, body: &str) -> Reply {
    Reply { status, status_text: words.to_string(), body: body.as_bytes().to_vec(), text: body.to_string() }
}

fn answered(status: u16, words: &str, body: &str) -> Sent {
    Sent::Answered(reply(status, words, body))
}

fn unreachable_backend() -> Sent {
    Sent::Unreachable("no route".to_string())
}

fn uploader() -> Uploader {
    Uploader::with_client("id", &some("t"), &None, "http://a").unwrap()
}

fn detail() -> UploadTaskDetail {
    UploadTaskDetail {
        upload_id: "id".to_string(),
        asset_id: "as".to_string(),
        original_filename: "n".to_string(),
        file_size: 9,
        chunk_size: 5,
        total_chunks: 2,
        uploaded_chunks: vec![1],
        oss_path: String::new(),
        oss_upload_id: None,
        project_id: None,
        folder_id: None,
    }
}

fn task(project: Option<&str>) -> TransferTask {
    TransferTask {
        upload_id: "id".to_string(),
        filename: "n".to_string(),
        file_size: 9,
        total_chunks: 2,
        uploaded_chunks: 1,
        status: TaskStatus::Pending,
        error: some("old"),
        created_at: 1,
        file_path: some("/f"),
        chunk_size: None,
        user_id: None,
        project_id: project.map(|p| p.to_string()),
        folder_id: some("fo"),
        retry_count: 0,
    }
}

fn shown(out: &Vec<Effect<String>>) -> String {
    format!("{:?}", out)
}

fn get(r: Option<Request>) -> String {
    match r {
        Some(Request::Get { url }) => url,
        _ => panic!("no question"),
    }
}

fn post(r: Option<Request>) -> (String, String) {
    match r {
        Some(Request::Post { url, body }) => (url, serde_json::Value::Object(body).to_string()),
        _ => panic!("no request"),
    }
}

#[test]
fn addresses() {
    assert_eq!(progress_url("http://a", "i"), "http://a/api/v1/upload/i/progress");
    assert_eq!(abort_url("http://a", "i"), "http://a/api/v1/upload/i/abort");
    assert_eq!(complete_url("http://a", "i"), "http://a/api/v1/upload/i/complete");
    assert_eq!(chunk_url("http://a", "i", 12), "http://a/api/v1/upload/i/chunk/12");
    assert_eq!(init_url("http://a"), "http://a/api/v1/upload/init");
    assert_eq!(detail_url("http://a", "i"), "http://a/api/v1/client/tasks/upload/i");
    assert_eq!(report_url("http://a", "i"), "http://a/api/v1/client/tasks/upload/i/progress");
    assert_eq!(folders_url("http://a", "p"), "http://a/api/v1/projects/p/folders");
    assert_eq!(login_url("http://w"), "http://w/login?client_callback=1");
}

#[test]
fn an_uploader_needs_a_token() {
    assert_eq!(uploader().token(), "t");
    assert_eq!(Uploader::with_client("id", &None, &some("s"), "a").unwrap().token(), "s");
    assert_eq!(Uploader::with_client("id", &None, &None, "a").unwrap_err(), "Not authenticated");
    assert_eq!(Uploader::new("id", &None, &None, "a", false).unwrap_err(), "Not authenticated");
    assert_eq!(Uploader::new("id", &some("t"), &None, "a", false).unwrap_err(), "Failed to build HTTP client");
    assert!(Uploader::new("id", &some("t"), &None, "a", true).is_ok());
}

#[test]
fn requests_of_an_uploader() {
    let u = uploader();
    assert_eq!(get(Some(u.detail_request())), "http://a/api/v1/client/tasks/upload/id");
    assert_eq!(get(Some(u.progress_request())), "http://a/api/v1/upload/id/progress");
    assert_eq!(u.chunk_url(3), "http://a/api/v1/upload/id/chunk/3");
    assert_eq!(
        post(Some(u.report_request(3))),
        (
            "http://a/api/v1/client/tasks/upload/id/progress".to_string(),
            "{\"chunk_index\":3,\"status\":\"uploaded\"}".to_string()
        )
    );
    assert_eq!(
        post(Some(u.complete_request())),
        ("http://a/api/v1/upload/id/complete".to_string(), "{}".to_string())
    );
}

#[test]
fn detail_is_fetched() {
    let u = uploader();
    let met = |code: i32, msg: Option<String>, data: Option<UploadTaskDetail>| {
        u.fetch_task_detail(Answer::Met(ApiResponse { code, msg, data })).map(|d| d.upload_id)
    };
    assert_eq!(met(0, None, Some(detail())), Ok("id".to_string()));
    assert_eq!(met(0, None, None), Err("Empty data in task detail response".to_string()));
    assert_eq!(met(-3, some("m"), Some(detail())), Err("API returned error -3: m".to_string()));
    assert_eq!(met(7, None, None), Err("API returned error 7: ".to_string()));
    assert_eq!(u.fetch_task_detail(Answer::Unreachable).unwrap_err(), "Failed to fetch task detail");
    assert_eq!(u.fetch_task_detail(Answer::Garbled).unwrap_err(), "Failed to parse task detail response");
    let refused = Answer::Refused {
        status: 500,
        status_text: "500 Internal Server Error".to_string(),
        text: "x".to_string(),
    };
    assert_eq!(u.fetch_task_detail(refused).unwrap_err(), "API error 500 Internal Server Error: x");
}

#[test]
fn progress_is_fetched() {
    let u = uploader();
    let p = |a: Answer<ApiResponse<UploadProgress>>| u.fetch_upload_progress(a).map(|p| (p.uploaded_chunks, p.total_chunks));
    let some_progress = UploadProgress { uploaded_chunks: vec![2, 1], total_chunks: 5 };
    assert_eq!(p(Answer::Met(ApiResponse { code: 9, msg: None, data: Some(some_progress) })), Ok((vec![2, 1], 5)));
    assert_eq!(p(Answer::Met(ApiResponse { code: 0, msg: None, data: None })), Ok((vec![], 0)));
    let refused = |status: u16| Answer::Refused { status, status_text: "S".to_string(), text: "x".to_string() };
    assert_eq!(p(refused(404)), Ok((vec![], 0)));
    assert_eq!(p(refused(401)), Err("API error S: x".to_string()));
    assert_eq!(p(Answer::Garbled), Err("Failed to parse upload progress response".to_string()));
    assert_eq!(p(Answer::Unreachable), Err("Failed to fetch upload progress".to_string()));
}

#[test]
fn answers_to_chunks() {
    let u = uploader();
    assert_eq!(u.upload_chunk(3, &answered(299, "299 X", "")), Ok(()));
    assert_eq!(u.upload_chunk(3, &answered(300, "300 X", "b")), err("Chunk 3 upload failed 300 X: b"));
    assert_eq!(u.upload_chunk(3, &unreachable_backend()), err("Failed to upload chunk 3"));
    assert_eq!(chunk_reply(3, &reply(200, "200 OK", "")), Ok(()));
    assert_eq!(chunk_reply(3, &reply(199, "199 X", "b")), err("Failed to upload chunk 3: HTTP 199 X - b"));
    assert_eq!(u.report_progress(&answered(500, "500 X", "")), Ok(()));
    assert_eq!(u.report_progress(&unreachable_backend()), err("Failed to report progress"));
}

#[test]
fn completing() {
    let u = uploader();
    let mut out = Vec::new();
    assert_eq!(u.complete_upload(&unreachable_backend()), err("Failed to complete upload"));
    assert_eq!(
        u.finish_upload(&Some(answered(409, "409 Conflict", "b")), &mut out),
        err("Complete upload failed 409 Conflict: b")
    );
    assert_eq!(u.finish_upload(&None, &mut out), err("complete_upload timed out after 60s"));
    assert!(out.is_empty());
    assert_eq!(u.finish_upload(&Some(answered(200, "200 OK", "")), &mut out), Ok(()));
    assert_eq!(shown(&out), "[Broadcast(Finished { upload_id: \"id\" })]");
}

#[test]
fn chunks_that_are_missing() {
    assert_eq!(chunks_to_upload(5, &vec![4, 2, 2, 9, 0]), vec![1, 3, 5]);
    assert_eq!(chunks_to_upload(0, &vec![1]), Vec::<u32>::new());
    let u = uploader();
    let known = Some(Ok(UploadProgress { uploaded_chunks: vec![2], total_chunks: 3 }));
    assert_eq!(u.run_upload_chunks(3, &known), (vec![1, 3], 1));
    assert_eq!(u.run_upload_chunks(3, &None), (vec![1, 2, 3], 0));
    assert_eq!(u.run_upload_chunks(2, &Some(Err("x".to_string()))), (vec![1, 2], 0));
    assert_eq!(
        u.check_recorded(3, &known),
        err("Chunks not recorded on server after upload: [1, 3]. Please retry.")
    );
    let all = Some(Ok(UploadProgress { uploaded_chunks: vec![2, 1, 3], total_chunks: 3 }));
    assert_eq!(u.check_recorded(3, &all), Ok(()));
    assert_eq!(number_list_text(&Vec::new()), "[]");
}

#[test]
fn a_window_of_chunks() {
    let mut w = ChunkWindow::new(vec![1, 2, 3, 5], 2);
    assert_eq!(w.fill(false), Some(1));
    assert_eq!(w.fill(false), Some(2));
    assert_eq!(w.fill(false), None);
    assert_eq!(w.in_flight(), 2);
    assert_eq!(w.landed(&Ok(()), false), Some(3));
    assert_eq!(w.landed(&Ok(()), false), Some(5));
    assert_eq!(w.landed(&Ok(()), false), None);
    assert_eq!(w.landed(&Ok(()), false), None);
    assert_eq!(w.in_flight(), 0);
    assert_eq!(w.result(), Ok(()));
}

#[test]
fn a_window_holds_at_least_one() {
    let mut w = ChunkWindow::new(vec![7, 8], 0);
    assert_eq!(w.fill(false), Some(7));
    assert_eq!(w.fill(false), None);
    assert_eq!(w.landed(&Ok(()), false), Some(8));
}

#[test]
fn a_window_ends_with_errors() {
    let mut w = ChunkWindow::new(vec![1, 2, 3], 2);
    w.fill(false);
    w.fill(false);
    assert_eq!(w.landed(&err("one"), false), None);
    assert_eq!(w.landed(&err("paused"), false), None);
    assert_eq!(w.result(), err("Upload errors: one"));
    let mut w = ChunkWindow::new(vec![1, 2, 3], 2);
    w.fill(false);
    w.fill(false);
    w.landed(&err("one"), false);
    w.landed(&Err(chunk_lost("two")), false);
    assert_eq!(w.result(), err("Upload errors: one; Task panicked: two"));
}

#[test]
fn a_window_is_stopped() {
    let mut w = ChunkWindow::new(vec![1, 2], 1);
    assert_eq!(w.fill(true), None);
    assert_eq!(w.fill(false), None);
    assert_eq!(w.result(), err("paused"));
    let mut w = ChunkWindow::new(vec![1, 2], 1);
    w.fill(false);
    assert_eq!(w.landed(&err("paused"), false), None);
    assert_eq!(w.result(), err("paused"));
    // stopped between two chunks: the rest is left, which is no good end
    let mut w = ChunkWindow::new(vec![1, 2], 1);
    w.fill(false);
    assert_eq!(w.landed(&Ok(()), true), None);
    assert_eq!(w.result(), err("paused"));
    // stopped while others are under way: nothing is taken up any more
    let mut w = ChunkWindow::new(vec![1, 2, 3, 4], 2);
    w.fill(false);
    w.fill(false);
    assert_eq!(w.landed(&Ok(()), true), None);
    assert_eq!(w.landed(&Ok(()), false), None);
    assert_eq!(w.result(), err("paused"));
    // stopped behind the last chunk: everything was sent
    let mut w = ChunkWindow::new(vec![1], 1);
    w.fill(false);
    assert_eq!(w.landed(&Ok(()), true), None);
    assert_eq!(w.result(), Ok(()));
    // nothing was taken up at all
    assert_eq!(ChunkWindow::new(vec![1], 1).result(), err("paused"));
    assert_eq!(ChunkWindow::new(vec![], 1).result(), Ok(()));
}

#[test]
fn places_of_chunks() {
    assert_eq!(chunk_offset(1, 5), 0);
    assert_eq!(chunk_offset(4, 5), 15);
    assert_eq!(chunk_offset(u32::MAX, 1 << 20), 4294967294 * 1048576);
    // every byte stands in exactly one chunk
    for place in 0..20u64 {
        let holding: Vec<u32> =
            (1..=4).filter(|c| chunk_offset(*c, 5) <= place && place < chunk_offset(*c, 5) + 5).collect();
        assert_eq!(holding, vec![(place / 5 + 1) as u32]);
    }
}

#[test]
fn faults_of_chunks() {
    assert_eq!(chunk_fault(ChunkFault::ReadPanicked, 3, "c"), "Chunk 3 read task panicked: c");
    assert_eq!(chunk_fault(ChunkFault::Read, 3, "c"), "Failed to read chunk 3 from file: c");
    assert_eq!(chunk_fault(ChunkFault::Build, 3, "c"), "Failed to build request for chunk 3: c");
    assert_eq!(chunk_fault(ChunkFault::Network, 3, "c"), "Failed to upload chunk 3: c");
    assert_eq!(check_chunk(vec![1], 5, "\"/f\""), Ok(vec![1]));
    assert_eq!(check_chunk(vec![], 5, "\"/f\""), Err("Read 0 bytes at offset 5 from file: \"/f\"".to_string()));
}

fn read(bytes: &[u8], offset: u64, size: usize) -> Result<Vec<u8>, String> {
    let mut file = Cursor::new(bytes);
    file.set_position(offset);
    let mut data = Vec::new();
    file.take(size as u64).read_to_end(&mut data).unwrap();
    check_chunk(data, offset, "f")
}

#[test]
fn chunks_make_the_file() {
    let bytes: Vec<u8> = (0..10).collect();
    assert_eq!(read(&bytes, 4, 4), Ok(vec![4, 5, 6, 7]));
    assert_eq!(read(&bytes, 8, 4), Ok(vec![8, 9]));
    assert_eq!(read(&bytes, 10, 4), Err("Read 0 bytes at offset 10 from file: f".to_string()));
    assert_eq!(read(&bytes, 40, 4), Err("Read 0 bytes at offset 40 from file: f".to_string()));
    assert_eq!(read(&bytes, 0, 0), Err("Read 0 bytes at offset 0 from file: f".to_string()));
    for size in 1..12 {
        let mut joined = Vec::new();
        let mut chunk = 1;
        while let Ok(data) = read(&bytes, chunk_offset(chunk, size), size) {
            joined.extend(data);
            chunk += 1;
        }
        assert_eq!(joined, bytes);
    }
}

#[test]
fn chunks_are_told_of() {
    let told = |total: u32| {
        let mut out = Vec::new();
        let mut count: u32 = 0;
        let mut at: Vec<u32> = Vec::new();
        for _ in 0..12 {
            let before = out.len();
            let done = count_chunk(&mut count, "i", total, &mut out);
            if out.len() > before {
                at.push(done);
            }
        }
        at
    };
    assert_eq!(told(12), vec![1, 5, 10, 12]);
    assert_eq!(told(100), vec![1, 5, 10]);
}

#[test]
fn an_upload_goes_on_as_it_is() {
    for answer in [
        answered(200, "200 OK", "{\"data\":{\"status\":\"uploading\"}}"),
        answered(200, "200 OK", "no json"),
        answered(500, "500 X", ""),
        unreachable_backend(),
    ] {
        let mut m = Manager::new(&saved(vec![task(Some("p"))]));
        let mut r = Reinit::new("id", &task(Some("p")), "http://a");
        assert_eq!(get(r.request()), "http://a/api/v1/upload/id/progress");
        let mut out = Vec::new();
        assert_eq!(r.check_and_reinit_upload(&mut m, &answer, &mut out), Some(Ok("id".to_string())));
        assert!(out.is_empty() && r.request().is_none());
        assert_eq!(take_up(&mut m, "id", Ok("id".to_string()), &mut out), some("id"));
    }
}

#[test]
fn a_complete_task_is_not_sent() {
    let mut done = task(Some("p"));
    done.status = TaskStatus::Completed;
    let mut m = Manager::new(&saved(vec![done]));
    let mut out = Vec::new();
    assert_eq!(take_up(&mut m, "id", Ok("id".to_string()), &mut out), None);
    assert!(out.is_empty());
}

#[test]
fn an_upload_is_begun_again() {
    for first in [
        answered(404, "404 Not Found", ""),
        answered(200, "200 OK", "{\"data\":{\"status\":\"aborted\"}}"),
        answered(200, "200 OK", "{\"data\":{\"status\":\"failed\"}}"),
        answered(200, "200 OK", "{\"data\":{\"status\":\"completed\"}}"),
    ] {
        let mut m = Manager::new(&saved(vec![task(Some("p"))]));
        let mut r = Reinit::new("id", &task(Some("p")), "http://a");
        let mut out = Vec::new();
        assert_eq!(r.check_and_reinit_upload(&mut m, &first, &mut out), None);
        assert_eq!(
            post(r.request()),
            (
                "http://a/api/v1/upload/init".to_string(),
                "{\"file_size\":9,\"filename\":\"n\",\"folder_id\":\"fo\",\"project_id\":\"p\"}".to_string()
            )
        );
        let body = "{\"data\":{\"upload_id\":\"new\",\"total_chunks\":4294967299,\"chunk_size\":7}}";
        let done = r.check_and_reinit_upload(&mut m, &answered(201, "201 Created", body), &mut out);
        assert_eq!(done, Some(Ok("new".to_string())));
        assert!(get_task(&m, "id").is_none());
        let t = get_task(&m, "new").unwrap();
        assert_eq!((t.total_chunks, t.chunk_size, t.uploaded_chunks), (3, Some(7), 0));
        assert_eq!((t.status, t.error, t.file_path), (TaskStatus::Pending, None, some("/f")));
        assert_eq!(
            shown(&out),
            "[Save, Broadcast(TaskReinit { old_upload_id: \"id\", new_upload_id: \"new\" })]"
        );
        // it is sent in the chunks that the backend has asked for
        assert_eq!(take_up(&mut m, "id", Ok("new".to_string()), &mut out), some("new"));
        let mut out = Vec::new();
        let d = begin_resumed(&mut m, "new", &task(Some("p")), 5, &mut out);
        assert_eq!((d.upload_id.as_str(), d.total_chunks, d.chunk_size), ("new", 3, 7));
        assert_eq!(
            shown(&out),
            "[Save, Broadcast(UploadStart { upload_id: \"new\", filename: \"n\", total_chunks: 3 })]"
        );
    }
}

#[test]
fn sizes_fall_back() {
    let mut m = Manager::new(&saved(vec![task(Some("p"))]));
    let mut r = Reinit::new("id", &task(Some("p")), "http://a");
    let mut out = Vec::new();
    r.check_and_reinit_upload(&mut m, &answered(404, "404 Not Found", ""), &mut out);
    r.check_and_reinit_upload(&mut m, &answered(200, "200 OK", "{\"data\":{\"upload_id\":\"new\"}}"), &mut out);
    let t = get_task(&m, "new").unwrap();
    assert_eq!((t.total_chunks, t.chunk_size), (2, Some(20 * 1024 * 1024)));
}

#[test]
fn the_project_is_asked_for() {
    let start = || {
        let mut m = Manager::new(&saved(vec![task(None)]));
        let mut r = Reinit::new("id", &task(None), "http://a");
        let mut out = Vec::new();
        assert_eq!(r.check_and_reinit_upload(&mut m, &answered(404, "404 Not Found", ""), &mut out), None);
        assert_eq!(get(r.request()), "http://a/api/v1/client/tasks/upload/id");
        (m, r, out)
    };
    let fails = |answer: Sent| {
        let (mut m, mut r, mut out) = start();
        r.check_and_reinit_upload(&mut m, &answer, &mut out).unwrap().unwrap_err()
    };
    assert_eq!(
        fails(answered(200, "200 OK", "{}")),
        "Cannot reinit upload: unable to determine project_id for task id"
    );
    assert_eq!(
        fails(answered(403, "403 Forbidden", "")),
        "Cannot reinit upload: backend returned 403 Forbidden when fetching task detail for id"
    );
    assert_eq!(
        fails(unreachable_backend()),
        "Cannot reinit upload: failed to fetch task detail for id: no route"
    );
    let (mut m, mut r, mut out) = start();
    let body = "{\"data\":{\"project_id\":\"q\"}}";
    assert_eq!(r.check_and_reinit_upload(&mut m, &answered(200, "200 OK", body), &mut out), None);
    assert_eq!(
        post(r.request()).1,
        "{\"file_size\":9,\"filename\":\"n\",\"folder_id\":null,\"project_id\":\"q\"}"
    );
}

#[test]
fn beginning_again_fails() {
    let fails = |answer: Sent| {
        let mut m = Manager::new(&saved(vec![task(Some("p"))]));
        let mut r = Reinit::new("id", &task(Some("p")), "http://a");
        let mut out = Vec::new();
        r.check_and_reinit_upload(&mut m, &answered(404, "404 Not Found", ""), &mut out);
        let e = r.check_and_reinit_upload(&mut m, &answer, &mut out).unwrap().unwrap_err();
        assert_eq!(take_up(&mut m, "id", Err(e.clone()), &mut out), None);
        assert_eq!(get_task(&m, "id").unwrap().error, Some(e.clone()));
        assert_eq!(shown(&out), "[Save]");
        e
    };
    assert_eq!(fails(unreachable_backend()), "Failed to reinit upload");
    assert_eq!(fails(answered(500, "500 X", "b")), "Reinit upload API error 500 X: b");
    assert_eq!(fails(answered(200, "200 OK", "{")), "Failed to parse reinit response");
    assert_eq!(fails(answered(200, "200 OK", "{\"data\":{\"upload_id\":5}}")), "No upload_id in reinit response");
}

#[test]
fn a_resumed_task_is_sent() {
    let mut m = Manager::new(&saved(vec![task(Some("p"))]));
    let mut out = Vec::new();
    let d = begin_resumed(&mut m, "id", &task(Some("p")), 5, &mut out);
    assert_eq!((d.chunk_size, d.total_chunks, d.file_size), (5, 2, 9));
    assert_eq!(get_task(&m, "id").unwrap().status, TaskStatus::Running);
    assert_eq!(
        shown(&out),
        "[Save, Broadcast(UploadStart { upload_id: \"id\", filename: \"n\", total_chunks: 2 })]"
    );
    let mut cut = task(Some("p"));
    cut.chunk_size = Some(8);
    cut.total_chunks = 3;
    // what is known of the task by now decides, or else what was known when it was resumed
    let d = begin_resumed(&mut m, "id", &cut, 5, &mut out);
    assert_eq!((d.chunk_size, d.total_chunks), (5, 2));
    let d = begin_resumed(&mut m, "gone", &cut, 5, &mut out);
    assert_eq!((d.chunk_size, d.total_chunks), (8, 3));
    let mut m = Manager::new(&saved(vec![cut]));
    let d = begin_resumed(&mut m, "id", &task(Some("p")), 5, &mut out);
    assert_eq!((d.chunk_size, d.total_chunks), (8, 3));
}
