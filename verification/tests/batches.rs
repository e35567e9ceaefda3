use ipams_client::api::{Answer, Reply, Request, Sent};
use ipams_client::pairs::TextMap;
use ipams_client::transfer::batch::{
    choose_source, choose_token, decline_upload, enqueue_upload, enqueue_upload_by_params, file_picker_title,
    finish_batch, is_enqueued, pick, starts_picked, Begun, Consumer, ConsumerWait, InitPhase, NextInit, Pick, Source,
};
use ipams_client::transfer::folders::{
    folders_of, target_folder_id, EntryKind, FolderError, FolderPlan, FolderScan,
};
use ipams_client::transfer::init::{file_label, InitDone, InitJob, InitResponse, InitResponseData};
use ipams_client::transfer::manager::{get_task, is_paused, upsert_task, Manager};
use ipams_client::transfer::message::Effect;
use ipams_client::transfer::session::SessionCounter;
use ipams_client::transfer::worker::{Worker, WorkerAction, WorkerEvent};
use ipams_client::transfer::{TaskStatus, UploadTaskDetail};

fn some(s: &str) -> Option<String> {
    Some(s.to_string())
}

fn empty() -> Manager {
    Manager::new(&Vec::new())
}

fn shown(out: &Vec<Effect<String>>) -> String {
    format!("{:?}", out)
}

fn data(id: Option<&str>) -> InitResponseData {
    InitResponseData {
        upload_id: id.map(|s| s.to_string()),
        asset_id: None,
        chunk_size: None,
        total_chunks: None,
        is_instant_upload: None,
        is_duplicate: None,
    }
}

fn job(name: &str) -> InitJob {
    InitJob::new(name.to_string(), format!("/f/{}", name), 9, &None, &TextMap::new(), "p", &some("fo"))
}

fn begun(m: &mut Manager, name: &str, id: &str) -> InitDone {
    let answer = Answer::Met(InitResponse { data: Some(data(Some(id))) });
    job(name).do_init_task(m, &answer, "u", 100).unwrap()
}

fn instant(m: &mut Manager, name: &str) -> InitDone {
    let mut d = data(None);
    d.is_duplicate = Some(true);
    job(name).do_init_task(m, &Answer::Met(InitResponse { data: Some(d) }), "u", 100).unwrap()
}

fn detail() -> UploadTaskDetail {
    begun(&mut empty(), "n", "id").detail
}

fn answered(status: u16, body: &str) -> Sent {
    Sent::Answered(Reply {
        status,
        status_text: String::new(),
        body: body.as_bytes().to_vec(),
        text: body.to_string(),
    })
}

fn post(r: Option<Request>) -> (String, String) {
    match r {
        Some(Request::Post { url, body }) => (url, serde_json::Value::Object(body).to_string()),
        _ => panic!("no request"),
    }
}

#[test]
fn what_the_user_picks() {
    assert_eq!(pick(0), (Pick::Folder, "选择要上传的文件夹".to_string()));
    assert_eq!(pick(1), (Pick::File, "选择要上传的文件".to_string()));
    assert_eq!(pick(12), (Pick::Files, "选择要上传的 12 个文件".to_string()));
    assert_eq!(file_picker_title("n"), "选择文件：n");
    assert_eq!(choose_source(0, 0, false), Source::Nothing);
    assert_eq!(choose_source(0, 1, true), Source::Folder);
    assert_eq!(choose_source(0, 1, false), Source::Nothing);
    assert_eq!(choose_source(0, 2, true), Source::Paths);
    assert_eq!(choose_source(1, 1, true), Source::Paths);
}

#[test]
fn a_batch_begins() {
    let mut m = empty();
    m.global_cancelled = true;
    m.global_paused = true;
    assert_eq!(enqueue_upload_by_params(&mut m, &None, &None), None);
    assert!(!m.global_cancelled && !m.global_paused);
    assert_eq!(enqueue_upload_by_params(&mut m, &some("g"), &some("s")), some("g"));
    assert_eq!(choose_token(&None, &some("s")), some("s"));
}

#[test]
fn files_of_a_folder() {
    let mut scan: FolderScan<u32> = FolderScan::new(0, some("top"));
    assert_eq!(scan.next_folder(), Some(0));
    scan.visit(1, "a", EntryKind::Folder, some("a"));
    scan.visit(2, ".git", EntryKind::Folder, some(".git"));
    scan.visit(3, "b", EntryKind::Folder, some("b"));
    scan.visit(4, "x.txt", EntryKind::File, some("x.txt"));
    scan.visit(5, ".hidden", EntryKind::File, some(".hidden"));
    scan.visit(6, "pipe", EntryKind::Other, some("pipe"));
    assert_eq!(scan.next_folder(), Some(3));
    scan.visit(7, "y", EntryKind::File, some("b\\y"));
    scan.visit(8, "z", EntryKind::File, None);
    assert_eq!(scan.next_folder(), Some(1));
    assert_eq!(scan.next_folder(), None);
    assert_eq!(scan.into_files(), vec![(4, some("top/x.txt")), (7, some("top/b/y")), (8, None)]);
    let mut scan: FolderScan<u32> = FolderScan::new(0, None);
    scan.next_folder();
    scan.visit(1, "q", EntryKind::File, some("q"));
    assert_eq!(scan.into_files(), vec![(1, some("folder/q"))]);
}

#[test]
fn folders_in_which_files_stand() {
    let places = vec![some("t/b/x"), some("t/a"), None, some("t/b/y"), some("t/a/z")];
    assert_eq!(folders_of(&places), vec!["t", "t/a", "t/b"]);
}

#[test]
fn a_walk_lists_every_file_once() {
    // a path ends in a slash where it is a folder
    let tree = ["a/", "a/x", "a/b/", "a/b/y", "a/b/.z", "a/.c/", "a/.c/w", "a/.c/d/", "a/.c/d/v", "u", "e/"];
    let mut scan: FolderScan<String> = FolderScan::new(String::new(), some("top"));
    while let Some(dir) = scan.next_folder() {
        for path in tree {
            let Some(rest) = path.strip_prefix(dir.as_str()) else {
                continue;
            };
            let name = rest.trim_end_matches('/');
            if name.is_empty() || name.contains('/') {
                continue;
            }
            let kind = if rest.ends_with('/') { EntryKind::Folder } else { EntryKind::File };
            scan.visit(path.to_string(), name, kind, some(path));
        }
    }
    let mut files = scan.into_files();
    files.sort();
    let found = |path: &str| (path.to_string(), Some(format!("top/{}", path)));
    assert_eq!(files, vec![found("a/b/y"), found("a/x"), found("u")]);
}

#[test]
fn folders_are_made_layer_by_layer() {
    let mut plan = FolderPlan::new(vec!["t".to_string(), "t/a/b".to_string(), "t/c".to_string()], some("base"));
    let mut asked: Vec<String> = Vec::new();
    let mut n: u32 = 0;
    while let Some(request) = plan.request("http://a", "p") {
        let (url, body) = post(Some(request));
        assert_eq!(url, "http://a/api/v1/projects/p/folders");
        asked.push(body);
        n += 1;
        let answer = answered(201, &format!("{{\"data\":{{\"id\":\"i{}\"}}}}", n));
        assert!(plan.create_folder_structure(&answer).is_ok());
    }
    assert_eq!(
        asked,
        vec![
            "{\"name\":\"t\",\"parent_id\":\"base\"}",
            "{\"name\":\"a\",\"parent_id\":\"i1\"}",
            "{\"name\":\"b\",\"parent_id\":\"i2\"}",
            "{\"name\":\"c\",\"parent_id\":\"i1\"}",
        ]
    );
    let made = plan.into_made();
    assert_eq!(made.get("t"), some("i1"));
    assert_eq!(made.get("t/a"), some("i2"));
    assert_eq!(made.get("t/a/b"), some("i3"));
    assert_eq!(made.get("t/c"), some("i4"));
    assert_eq!(target_folder_id(&some("t/a/b/f.txt"), &made, &some("x")), some("i3"));
    assert_eq!(target_folder_id(&some("else/f.txt"), &made, &some("x")), some("x"));
    assert_eq!(target_folder_id(&None, &made, &None), None);
}

#[test]
fn only_leading_folders_are_made() {
    let folders = ["/c//d/", "a/b", "a", "", "/"].iter().map(|f| f.to_string()).collect();
    let mut plan = FolderPlan::new(folders, None);
    let mut n: u32 = 0;
    while plan.request("h", "p").is_some() {
        n += 1;
        let answer = answered(201, &format!("{{\"data\":{{\"id\":\"i{}\"}}}}", n));
        assert!(plan.create_folder_structure(&answer).is_ok());
    }
    let made = plan.into_made();
    assert_eq!(n, 4);
    for path in ["c", "c/d", "a", "a/b"] {
        assert!(made.contains(path));
    }
    for path in ["/c//d/", "d", "b", "", "/"] {
        assert!(!made.contains(path));
    }
}

#[test]
fn folders_that_are_not_made() {
    let mut plan = FolderPlan::new(vec!["t/a".to_string()], None);
    assert_eq!(post(plan.request("h", "p")).1, "{\"name\":\"t\",\"parent_id\":null}");
    // refused: the next one is made in what was at hand
    assert!(plan.create_folder_structure(&answered(409, "")).is_ok());
    assert_eq!(post(plan.request("h", "p")).1, "{\"name\":\"a\",\"parent_id\":null}");
    assert!(matches!(plan.create_folder_structure(&answered(200, "no json")), Err(FolderError::Garbled)));
    let lost = plan.create_folder_structure(&Sent::Unreachable("e".to_string()));
    assert!(matches!(lost, Err(FolderError::Unreachable(e)) if e == "e"));
    assert!(plan.create_folder_structure(&answered(200, "{\"data\":{}}")).is_ok());
    assert!(plan.request("h", "p").is_none());
    assert!(!plan.into_made().contains("t/a"));
}

#[test]
fn a_file_is_begun() {
    assert_eq!(file_label(None), "unknown");
    assert_eq!(file_label(some("n")), "n");
    let mut made = TextMap::new();
    made.insert("t/a".to_string(), "i".to_string());
    let j = InitJob::new("n".to_string(), "/f/n".to_string(), 9, &some("t/a/n"), &made, "p", &some("fo"));
    let mut out = Vec::new();
    let request = j.request("http://a", &some("ty"), &None, &mut out);
    assert_eq!(
        post(Some(request)),
        (
            "http://a/api/v1/upload/init".to_string(),
            "{\"asset_type_id\":\"ty\",\"file_size\":9,\"filename\":\"n\",\"folder_id\":\"i\",\"md5_checksum\":null,\"project_id\":\"p\"}".to_string()
        )
    );
    assert_eq!(shown(&out), "[Broadcast(UploadHashing { filename: \"n\", file_size: 9 })]");
}

#[test]
fn a_file_has_begun() {
    let mut m = empty();
    let mut d = data(Some("id"));
    d.chunk_size = Some(7);
    d.total_chunks = Some(4294967298);
    d.asset_id = some("as");
    let done = job("n").do_init_task(&mut m, &Answer::Met(InitResponse { data: Some(d) }), "u", 100).unwrap();
    assert!(!done.instant);
    assert_eq!((done.detail.chunk_size, done.detail.total_chunks, done.detail.asset_id.as_str()), (7, 2, "as"));
    let t = done.task;
    assert_eq!((t.upload_id.as_str(), t.status, t.uploaded_chunks, t.created_at), ("id", TaskStatus::Pending, 0, 100));
    assert_eq!((t.user_id, t.file_path, t.folder_id), (some("u"), some("/f/n"), some("fo")));
    let done = begun(&mut m, "n", "id");
    assert_eq!((done.detail.chunk_size, done.detail.total_chunks), (20971520, 1));
}

#[test]
fn a_file_is_there_already() {
    let done = instant(&mut empty(), "n");
    assert!(done.instant);
    assert_eq!(done.task.upload_id, "instant-100-n");
    assert_eq!((done.task.status, done.task.uploaded_chunks, done.task.total_chunks), (TaskStatus::Completed, 1, 1));
    assert_eq!((done.detail.chunk_size, done.task.chunk_size), (0, None));
    let mut d = data(None);
    d.is_instant_upload = Some(true);
    assert!(job("n").do_init_task(&mut empty(), &Answer::Met(InitResponse { data: Some(d) }), "u", 1).unwrap().instant);
}

#[test]
fn a_file_has_not_begun() {
    let fails = |answer: Answer<InitResponse>| job("n").do_init_task(&mut empty(), &answer, "u", 1).unwrap_err();
    assert_eq!(fails(Answer::Unreachable), "n");
    assert_eq!(fails(Answer::Garbled), "n");
    assert_eq!(fails(Answer::Refused { status: 500, status_text: String::new(), text: String::new() }), "n");
    assert_eq!(fails(Answer::Met(InitResponse { data: None })), "n");
    assert_eq!(fails(Answer::Met(InitResponse { data: Some(data(None)) })), "n");
}

#[test]
fn a_file_begins_as_the_rest() {
    let mut m = empty();
    m.global_paused = true;
    assert_eq!(begun(&mut m, "n", "id").task.status, TaskStatus::Paused);
    assert!(is_paused(&m, "id"));
    m.global_cancelled = true;
    assert_eq!(begun(&mut m, "n", "jd").task.status, TaskStatus::Cancelled);
    assert!(!is_paused(&m, "jd"));
}

#[test]
fn files_are_begun_in_order() {
    let mut m = empty();
    let mut counter = SessionCounter::new(250, 0);
    let mut phase = InitPhase::new(250);
    let mut out = Vec::new();
    assert_eq!(phase.in_flight(), 8);
    let mut started: usize = 8;
    let mut handed: usize = 0;
    for n in 0..250 {
        let done = begun(&mut m, "n", &format!("id{}", n));
        match phase.begun(&mut m, &mut counter, done, &mut out) {
            Begun::HandOver(d) => {
                assert_eq!(d.upload_id, format!("id{}", n));
                handed += 1;
            }
            Begun::Kept { .. } => panic!("kept"),
        }
        match phase.proceed(&mut m, false, &mut out) {
            NextInit::Begin(at) => {
                assert_eq!(at, started);
                started += 1;
            }
            NextInit::Wait => assert!(phase.in_flight() > 0),
            NextInit::Stop => assert_eq!(n, 249),
        }
        assert!(phase.in_flight() <= 8);
    }
    assert_eq!((started, handed, phase.in_flight()), (250, 250, 0));
    // written at a hundred, at two hundred and at the end
    let saves = out.iter().filter(|e| matches!(e, Effect::Save)).count();
    assert_eq!(saves, 3);
    assert!(get_task(&m, "id0").is_some() && get_task(&m, "id249").is_some());
}

#[test]
fn instant_files_count_at_once() {
    let mut m = empty();
    let mut counter = SessionCounter::new(2, 0);
    let mut phase = InitPhase::new(2);
    let mut out = Vec::new();
    let done = instant(&mut m, "a");
    assert!(matches!(phase.begun(&mut m, &mut counter, done, &mut out), Begun::Kept { record: false }));
    assert_eq!(
        shown(&out),
        "[Emit(Instant { filename: \"a\", file_size: 9 }), Broadcast(UploadInstant { upload_id: \"instant-100-a\", filename: \"a\", file_size: 9 })]"
    );
    assert_eq!(phase.proceed(&mut m, false, &mut out), NextInit::Wait);
    let done = instant(&mut m, "b");
    assert!(matches!(phase.begun(&mut m, &mut counter, done, &mut out), Begun::Kept { record: true }));
    assert_eq!(phase.proceed(&mut m, false, &mut out), NextInit::Stop);
    assert!(get_task(&m, "instant-100-a").is_some() && get_task(&m, "instant-100-b").is_some());
}

#[test]
fn files_that_fail_or_are_lost() {
    let mut m = empty();
    let mut counter = SessionCounter::new(2, 0);
    let mut phase = InitPhase::new(2);
    let mut out = Vec::new();
    assert!(!phase.failed(&mut counter, "a"));
    assert_eq!(phase.proceed(&mut m, false, &mut out), NextInit::Wait);
    phase.lost();
    assert_eq!(phase.proceed(&mut m, false, &mut out), NextInit::Stop);
    assert_eq!(counter.to_log().failed_files, vec!["a"]);
    assert!(out.is_empty());
}

#[test]
fn a_cancelled_batch_stops() {
    let mut m = empty();
    let mut counter = SessionCounter::new(20, 0);
    let mut phase = InitPhase::new(20);
    let mut out = Vec::new();
    m.global_cancelled = true;
    let done = begun(&mut m, "n", "id");
    assert!(matches!(phase.begun(&mut m, &mut counter, done, &mut out), Begun::Kept { record: false }));
    assert_eq!(phase.proceed(&mut m, true, &mut out), NextInit::Stop);
    assert_eq!(get_task(&m, "id").unwrap().status, TaskStatus::Cancelled);
    assert_eq!(phase.in_flight(), 7);
}

#[test]
fn a_paused_batch_hands_nothing_over() {
    let mut m = empty();
    let mut counter = SessionCounter::new(20, 0);
    let mut phase = InitPhase::new(20);
    let mut out = Vec::new();
    let done = begun(&mut m, "n", "id");
    m.global_paused = true;
    upsert_task(&mut m, done.task.clone(), &mut out);
    let mut out = Vec::new();
    assert!(matches!(phase.begun(&mut m, &mut counter, done, &mut out), Begun::Kept { record: false }));
    assert!(is_paused(&m, "id"));
    assert_eq!(get_task(&m, "id").unwrap().status, TaskStatus::Paused);
    assert_eq!(
        shown(&out),
        "[Emit(Started { upload_id: \"id\", filename: \"n\", file_size: 9 }), Broadcast(UploadQueued { upload_id: \"id\", filename: \"n\", total_chunks: 1 }), Save]"
    );
    phase.flush(&mut m, &mut out);
    assert_eq!(get_task(&m, "id").unwrap().status, TaskStatus::Pending);
}

#[test]
fn what_a_batch_waits_for() {
    let mut c = Consumer::new();
    assert_eq!(c.wait(true, false), ConsumerWait::Stop { drain: true });
    assert_eq!(c.wait(false, true), ConsumerWait::Unpause);
    for _ in 0..6 {
        assert_eq!(c.wait(false, false), ConsumerWait::Upload);
        c.started();
    }
    assert_eq!(c.wait(false, false), ConsumerWait::Worker);
    c.ended();
    assert_eq!(c.wait(false, false), ConsumerWait::Upload);
    c.close();
    assert_eq!(c.wait(false, true), ConsumerWait::Worker);
    for _ in 0..5 {
        c.ended();
    }
    assert_eq!(c.wait(false, false), ConsumerWait::Stop { drain: false });
    assert!(Consumer::drains(ConsumerWait::Upload) && Consumer::drains(ConsumerWait::Unpause));
    assert!(!Consumer::drains(ConsumerWait::Worker));
}

#[test]
fn a_batch_ends() {
    let mut m = empty();
    let mut out = Vec::new();
    let left = begun(&mut m, "n", "id").task;
    upsert_task(&mut m, left, &mut out);
    let mut out = Vec::new();
    assert_eq!(finish_batch(&m, "u", &mut out), vec!["id"]);
    assert_eq!(shown(&out), "[Broadcast(AllUploadsComplete), Resume(\"id\")]");
    m.global_cancelled = true;
    assert!(finish_batch(&m, "u", &mut out).is_empty());
}

#[test]
fn an_upload_of_the_backend() {
    let mut m = empty();
    let mut out = Vec::new();
    assert!(!is_enqueued(&m, "id"));
    assert!(enqueue_upload(&mut m, "id", &detail(), "u", 5, &mut out));
    assert!(is_enqueued(&m, "id"));
    let t = get_task(&m, "id").unwrap();
    assert_eq!((t.file_path, t.chunk_size, t.created_at, t.user_id), (None, Some(20971520), 5, some("u")));
    assert_eq!(
        shown(&out),
        "[Save, Emit(SelectFile { upload_id: \"id\", filename: \"n\", file_size: 9 }), ShowWindow]"
    );
    decline_upload(&mut m, "id", &mut out);
    let t = get_task(&m, "id").unwrap();
    assert_eq!((t.status, t.error), (TaskStatus::Cancelled, some("User cancelled")));
    assert!(!is_enqueued(&m, "id"));
    assert!(enqueue_upload(&mut m, "id", &detail(), "u", 6, &mut out));
}

#[test]
fn an_upload_under_way_is_left_alone() {
    for status in [TaskStatus::Pending, TaskStatus::Running] {
        let mut m = with_task(status);
        let mut out = Vec::new();
        let before = format!("{:?}", get_task(&m, "id").unwrap());
        assert!(!enqueue_upload(&mut m, "id", &detail(), "v", 6, &mut out));
        assert_eq!(format!("{:?}", get_task(&m, "id").unwrap()), before);
        assert!(out.is_empty());
    }
    let mut m = with_task(TaskStatus::Failed);
    assert!(enqueue_upload(&mut m, "id", &detail(), "v", 6, &mut Vec::new()));
    assert_eq!(get_task(&m, "id").unwrap().status, TaskStatus::Pending);
}

fn with_task(status: TaskStatus) -> Manager {
    let mut m = empty();
    let mut t = begun(&mut m, "n", "id").task;
    t.status = status;
    upsert_task(&mut m, t, &mut Vec::new());
    m
}

#[test]
fn a_picked_file_is_sent_once() {
    for status in [TaskStatus::Pending, TaskStatus::Paused, TaskStatus::Failed] {
        let m = with_task(status);
        assert!(starts_picked(&m, "id", false) && starts_picked(&m, "id", true));
    }
    for status in [TaskStatus::Running, TaskStatus::Completed, TaskStatus::Cancelled] {
        let m = with_task(status);
        assert!(starts_picked(&m, "id", false) && !starts_picked(&m, "id", true));
    }
    assert!(starts_picked(&empty(), "id", false) && !starts_picked(&empty(), "id", true));
}

fn sending(m: &mut Manager, c: &mut SessionCounter, out: &mut Vec<Effect<String>>) -> Worker {
    let mut w = Worker::new("id", "n");
    assert!(!w.holds_permit());
    assert_eq!(w.step(m, c, &WorkerEvent::Permit, out), WorkerAction::Send);
    assert!(w.holds_permit());
    w
}

#[test]
fn a_worker_succeeds() {
    let mut m = with_task(TaskStatus::Pending);
    let mut c = SessionCounter::new(1, 0);
    let mut out = Vec::new();
    let mut w = sending(&mut m, &mut c, &mut out);
    assert_eq!(w.step(&mut m, &mut c, &WorkerEvent::Chunks(Ok(())), &mut out), WorkerAction::Finish);
    assert!(!w.holds_permit());
    assert_eq!(w.step(&mut m, &mut c, &WorkerEvent::Finished(Ok(())), &mut out), WorkerAction::Stop { record: true });
    assert_eq!(w.step(&mut m, &mut c, &WorkerEvent::Permit, &mut out), WorkerAction::Ignore);
    assert_eq!(c.to_log().success, 1);
    assert!(out.is_empty());
}

#[test]
fn a_worker_tries_three_times_to_send() {
    let mut m = with_task(TaskStatus::Pending);
    let mut c = SessionCounter::new(2, 0);
    let mut out = Vec::new();
    let mut w = sending(&mut m, &mut c, &mut out);
    let broken = || WorkerEvent::Chunks(Err("e".to_string()));
    for n in 1..3 {
        assert_eq!(w.step(&mut m, &mut c, &broken(), &mut out), WorkerAction::Rest);
        assert!(w.holds_permit());
        assert_eq!(get_task(&m, "id").unwrap().retry_count, n);
        assert_eq!(w.step(&mut m, &mut c, &WorkerEvent::Elapsed, &mut out), WorkerAction::Send);
        assert_eq!(get_task(&m, "id").unwrap().status, TaskStatus::Running);
    }
    assert_eq!(w.step(&mut m, &mut c, &broken(), &mut out), WorkerAction::Stop { record: false });
    assert_eq!(get_task(&m, "id").unwrap().retry_count, 3);
    assert_eq!(c.to_log().failed_files, vec!["n"]);
    assert_eq!(
        shown(&out),
        "[Save, Broadcast(Retrying { upload_id: \"id\", retry_count: 1 }), Save, Save, Broadcast(Retrying { upload_id: \"id\", retry_count: 2 }), Save, Save]"
    );
}

#[test]
fn a_worker_tries_three_times_to_finish() {
    let mut m = with_task(TaskStatus::Pending);
    let mut c = SessionCounter::new(1, 0);
    let mut out = Vec::new();
    let mut w = sending(&mut m, &mut c, &mut out);
    w.step(&mut m, &mut c, &WorkerEvent::Chunks(Ok(())), &mut out);
    let broken = || WorkerEvent::Finished(Err("e".to_string()));
    for _ in 1..3 {
        assert_eq!(w.step(&mut m, &mut c, &broken(), &mut out), WorkerAction::Rest);
        assert_eq!(get_task(&m, "id").unwrap().status, TaskStatus::Running);
        assert_eq!(w.step(&mut m, &mut c, &WorkerEvent::Elapsed, &mut out), WorkerAction::Finish);
    }
    assert_eq!(w.step(&mut m, &mut c, &broken(), &mut out), WorkerAction::Stop { record: true });
    assert_eq!(c.to_log().failed_files, vec!["n"]);
}

#[test]
fn a_worker_does_not_retry_when_stopped() {
    let mut m = with_task(TaskStatus::Pending);
    let mut c = SessionCounter::new(1, 0);
    let mut out = Vec::new();
    let mut w = sending(&mut m, &mut c, &mut out);
    m.global_paused = true;
    let end = w.step(&mut m, &mut c, &WorkerEvent::Chunks(Err("e".to_string())), &mut out);
    assert_eq!(end, WorkerAction::Stop { record: true });
    assert_eq!(c.to_log().failed_files, vec!["n"]);
}

#[test]
fn a_worker_leaves_taken_tasks() {
    for status in [TaskStatus::Running, TaskStatus::Completed, TaskStatus::Cancelled] {
        let mut m = with_task(status);
        let mut c = SessionCounter::new(1, 0);
        let mut out = Vec::new();
        let end = Worker::new("id", "n").step(&mut m, &mut c, &WorkerEvent::Permit, &mut out);
        assert_eq!(end, WorkerAction::Stop { record: false });
        assert!(out.is_empty());
    }
    let mut c = SessionCounter::new(1, 0);
    let end = Worker::new("x", "n").step(&mut empty(), &mut c, &WorkerEvent::Permit, &mut Vec::new());
    assert_eq!(end, WorkerAction::Stop { record: false });
    assert_eq!(c.to_log().failed, 0);
}

#[test]
fn a_worker_is_held_back_or_cancelled() {
    let mut m = with_task(TaskStatus::Pending);
    m.global_paused = true;
    let mut c = SessionCounter::new(1, 0);
    let mut out = Vec::new();
    let end = Worker::new("id", "n").step(&mut m, &mut c, &WorkerEvent::Permit, &mut out);
    assert_eq!(end, WorkerAction::Stop { record: false });
    assert!(is_paused(&m, "id"));
    let end = Worker::new("id", "n").step(&mut m, &mut c, &WorkerEvent::Cancelled, &mut out);
    assert_eq!(end, WorkerAction::Stop { record: false });
    assert_eq!(get_task(&m, "id").unwrap().error, some("已取消"));
    let end = Worker::new("id", "n").step(&mut m, &mut c, &WorkerEvent::Closed, &mut out);
    assert_eq!(end, WorkerAction::Stop { record: false });
}

#[test]
fn a_worker_counts_by_status() {
    let ends = |status: TaskStatus, chunks: Result<(), String>| {
        let mut m = with_task(TaskStatus::Pending);
        let mut c = SessionCounter::new(9, 0);
        let mut out = Vec::new();
        let mut w = sending(&mut m, &mut c, &mut out);
        let mut t = get_task(&m, "id").unwrap();
        t.status = status;
        upsert_task(&mut m, t, &mut out);
        let action = w.step(&mut m, &mut c, &WorkerEvent::Chunks(chunks), &mut out);
        let log = c.to_log();
        (action, log.success, log.failed_files)
    };
    let stop = WorkerAction::Stop { record: false };
    assert_eq!(ends(TaskStatus::Cancelled, Ok(())), (stop, 0, vec!["<cancelled> n".to_string()]));
    assert_eq!(ends(TaskStatus::Paused, Ok(())), (stop, 0, vec![]));
    assert_eq!(ends(TaskStatus::Completed, Ok(())), (stop, 1, vec![]));
    assert_eq!(ends(TaskStatus::Failed, Ok(())), (WorkerAction::Finish, 0, vec![]));
    assert_eq!(ends(TaskStatus::Running, Err("paused".to_string())), (stop, 0, vec!["<paused> n".to_string()]));
}
