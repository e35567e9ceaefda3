use ipams_client::transfer::batch::enqueue_upload_by_params;
use ipams_client::transfer::control::{
    cancel_all_tasks, cancel_task, pause_all_tasks, pause_task, resume_all_tasks, resume_orphaned_tasks,
    resume_pending_tasks, resume_task,
};
use ipams_client::transfer::lifecycle::{
    begin_upload, end_upload, end_upload_chunks, finish_upload_task, is_stop, record_progress, refuse_upload, Start,
};
use ipams_client::transfer::manager::{
    clear_completed_tasks, clear_tasks, get_all_tasks, get_task, is_paused, register_cancel_token,
    reload_tasks_for_current_user, remove_cancel_token, update_task_progress, update_task_status, upsert_task,
    upsert_tasks_batch, Manager,
};
use ipams_client::transfer::message::Effect;
use ipams_client::transfer::permits::{give_back_permit, holds_permit, take_permit};
use ipams_client::transfer::session::SessionCounter;
use ipams_client::transfer::{TaskStatus, TransferTask};

fn saved(tasks: Vec<TransferTask>) -> Vec<(String, TransferTask)> {
    tasks.into_iter().map(|t| (t.upload_id.clone(), t)).collect()
}

fn some(s: &str) -> Option<String> {
    Some(s.to_string())
}

fn task(id: &str, status: TaskStatus, user: Option<&str>, created_at: u64) -> TransferTask {
    TransferTask {
        upload_id: id.to_string(),
        filename: format!("{}.bin", id),
        file_size: 10,
        total_chunks: 4,
        uploaded_chunks: 1,
        status,
        error: None,
        created_at,
        file_path: Some(format!("/f/{}", id)),
        chunk_size: Some(5),
        user_id: user.map(|u| u.to_string()),
        project_id: some("p"),
        folder_id: None,
        retry_count: 2,
    }
}

fn every_status() -> Manager {
    Manager::new(&saved(vec![
        task("pending", TaskStatus::Pending, Some("u"), 1),
        task("running", TaskStatus::Running, Some("u"), 5),
        task("paused", TaskStatus::Paused, None, 3),
        task("completed", TaskStatus::Completed, Some("u"), 4),
        task("failed", TaskStatus::Failed, Some("u"), 2),
        task("cancelled", TaskStatus::Cancelled, Some("v"), 6),
    ]))
}

fn status(m: &Manager, id: &str) -> TaskStatus {
    get_task(m, id).unwrap().status
}

fn shown(out: &Vec<Effect<String>>) -> String {
    format!("{:?}", out)
}

fn ids(tasks: &Vec<TransferTask>) -> Vec<String> {
    tasks.iter().map(|t| t.upload_id.clone()).collect()
}

fn sorted(mut v: Vec<String>) -> Vec<String> {
    v.sort();
    v
}

/// Starts an upload under a permit of its own.
fn start(m: &mut Manager, id: &str, token: u64, out: &mut Vec<Effect<String>>) -> Start {
    assert!(holds_permit(m, id) || take_permit(m, id));
    begin_upload(m, id, "n", 4, token, out)
}

#[test]
fn users_see_their_tasks_newest_first() {
    let m = every_status();
    assert_eq!(ids(&get_all_tasks(&m, "u")), vec!["running", "completed", "paused", "failed", "pending"]);
    assert_eq!(ids(&get_all_tasks(&m, "v")), vec!["cancelled", "paused"]);
    assert!(get_task(&m, "nothing").is_none());
}

#[test]
fn reloading_keeps_the_users_tasks() {
    let mut m = every_status();
    let found = vec![
        task("a", TaskStatus::Pending, Some("v"), 1),
        task("b", TaskStatus::Pending, None, 1),
        task("c", TaskStatus::Pending, Some("u"), 1),
        task("a", TaskStatus::Failed, Some("v"), 2),
    ];
    reload_tasks_for_current_user(&mut m, "v", &saved(found));
    assert_eq!(ids(&get_all_tasks(&m, "v")), vec!["a", "b"]);
    assert_eq!(status(&m, "a"), TaskStatus::Failed);
    assert!(get_task(&m, "c").is_none() && get_task(&m, "running").is_none());
}

#[test]
fn saved_tasks_keep_the_ids_they_were_saved_under() {
    let kept = vec![("k".to_string(), task("other", TaskStatus::Failed, Some("v"), 1))];
    let mut m = Manager::new(&kept);
    assert_eq!((status(&m, "k"), get_task(&m, "k").unwrap().upload_id), (TaskStatus::Failed, "k".to_string()));
    assert!(get_task(&m, "other").is_none());
    m = every_status();
    reload_tasks_for_current_user(&mut m, "v", &kept);
    assert_eq!(ids(&get_all_tasks(&m, "v")), vec!["k"]);
    // of two under one id the later one counts, though it is another user's
    let twice = vec![kept[0].clone(), ("k".to_string(), task("k", TaskStatus::Failed, Some("u"), 1))];
    reload_tasks_for_current_user(&mut m, "v", &twice);
    assert!(get_task(&m, "k").is_none());
}

#[test]
fn clearing_keeps_active_tasks_and_other_users() {
    let mut m = every_status();
    let mut out = Vec::new();
    clear_completed_tasks(&mut m, "u", &mut out);
    assert_eq!(ids(&get_all_tasks(&m, "u")), vec!["running", "paused", "pending"]);
    assert_eq!(status(&m, "cancelled"), TaskStatus::Cancelled);
    assert_eq!(shown(&out), "[Save, Broadcast(QueueCleared)]");
    clear_tasks(&mut m, &mut out);
    assert!(get_all_tasks(&m, "u").is_empty() && get_all_tasks(&m, "v").is_empty());
}

#[test]
fn tasks_are_put_in() {
    let mut m = Manager::new(&Vec::new());
    let mut out = Vec::new();
    upsert_tasks_batch(&mut m, &Vec::new(), &mut out);
    assert!(out.is_empty());
    let two = vec![task("a", TaskStatus::Pending, None, 1), task("b", TaskStatus::Pending, None, 2)];
    upsert_tasks_batch(&mut m, &two, &mut out);
    upsert_task(&mut m, task("a", TaskStatus::Paused, None, 3), &mut out);
    update_task_progress(&mut m, "b", 3, &mut out);
    update_task_status(&mut m, "b", TaskStatus::Failed, some("e"), &mut out);
    update_task_status(&mut m, "nothing", TaskStatus::Failed, some("e"), &mut out);
    assert_eq!(shown(&out), "[Save, Save, Save, Save, Save]");
    assert_eq!(status(&m, "a"), TaskStatus::Paused);
    let b = get_task(&m, "b").unwrap();
    assert_eq!((b.uploaded_chunks, b.status, b.error), (3, TaskStatus::Failed, some("e")));
    assert_eq!(ids(&get_all_tasks(&m, "x")), vec!["a", "b"]);
}

#[test]
fn tokens_come_and_go() {
    let mut m = every_status();
    let mut out = Vec::new();
    register_cancel_token(&mut m, "running", 7, &mut out);
    register_cancel_token(&mut m, "running", 8, &mut out);
    remove_cancel_token(&mut m, "running", &mut out);
    remove_cancel_token(&mut m, "running", &mut out);
    assert_eq!(shown(&out), "[ForgetToken(7), ForgetToken(8)]");
}

#[test]
fn cancelling_one_task() {
    let mut m = every_status();
    let mut out = Vec::new();
    register_cancel_token(&mut m, "running", 7, &mut out);
    assert!(cancel_task(&mut m, "running", &mut out));
    assert_eq!(
        shown(&out),
        "[Save, CancelToken(7), ForgetToken(7), Abort(\"running\"), Broadcast(TaskCancelled { upload_id: \"running\" })]"
    );
    assert_eq!(status(&m, "running"), TaskStatus::Cancelled);
    // cancelled is the end
    let mut out = Vec::new();
    assert!(!cancel_task(&mut m, "running", &mut out));
    assert!(!pause_task(&mut m, "running", &mut out));
    assert!(!resume_task(&mut m, "running", true, &mut out));
    assert!(!cancel_task(&mut m, "completed", &mut out) && !cancel_task(&mut m, "nothing", &mut out));
    assert!(out.is_empty());
}

#[test]
fn pausing_and_resuming_one_task() {
    let mut m = every_status();
    let mut out = Vec::new();
    register_cancel_token(&mut m, "running", 7, &mut out);
    assert!(pause_task(&mut m, "running", &mut out));
    assert!(is_paused(&m, "running"));
    assert_eq!(shown(&out), "[Save, CancelToken(7), Broadcast(Paused { upload_id: \"running\" })]");
    assert!(!pause_task(&mut m, "running", &mut out));
    let mut out = Vec::new();
    assert!(resume_task(&mut m, "running", true, &mut out));
    assert_eq!(
        shown(&out),
        "[Save, ForgetToken(7), RunResumed(\"running\"), Broadcast(Resumed { upload_id: \"running\" })]"
    );
    let t = get_task(&m, "running").unwrap();
    assert_eq!((t.status, t.retry_count, t.uploaded_chunks), (TaskStatus::Pending, 0, 1));
    assert!(!is_paused(&m, "running"));
}

#[test]
fn resuming_without_a_file() {
    let mut m = every_status();
    let mut out = Vec::new();
    assert!(!resume_task(&mut m, "failed", false, &mut out));
    let t = get_task(&m, "failed").unwrap();
    assert_eq!((t.status, t.error), (TaskStatus::Failed, some("文件不存在，无法续传")));
    assert_eq!(shown(&out), "[Save, Save]");
    let mut no_file = task("n", TaskStatus::Paused, None, 1);
    no_file.file_path = None;
    upsert_task(&mut m, no_file, &mut out);
    assert!(!resume_task(&mut m, "n", true, &mut out));
    assert_eq!(status(&m, "n"), TaskStatus::Pending);
}

#[test]
fn pausing_and_resuming_everything() {
    let mut m = every_status();
    let mut out = Vec::new();
    register_cancel_token(&mut m, "running", 7, &mut out);
    let hit = pause_all_tasks(&mut m, &mut out);
    assert_eq!(sorted(hit), vec!["pending", "running"]);
    assert!(m.global_paused);
    assert_eq!(shown(&out), "[Save, CancelToken(7), Broadcast(AllPaused)]");
    for id in ["pending", "running", "paused"] {
        assert_eq!(status(&m, id), TaskStatus::Paused);
        assert!(is_paused(&m, id));
    }
    let mut out = Vec::new();
    let back = resume_all_tasks(&mut m, &mut out);
    assert_eq!(sorted(back), vec!["paused", "pending", "running"]);
    assert!(!m.global_paused && !is_paused(&m, "running"));
    assert_eq!(out.len(), 5);
    assert!(shown(&out).starts_with("[Save, Broadcast(AllResumed), Resume("));
}

#[test]
fn cancelling_everything() {
    let mut m = every_status();
    let mut out = Vec::new();
    register_cancel_token(&mut m, "running", 7, &mut out);
    let gone = cancel_all_tasks(&mut m, &mut out);
    assert_eq!(sorted(gone), vec!["paused", "pending", "running"]);
    assert!(m.global_cancelled);
    for id in ["pending", "running", "paused", "cancelled"] {
        assert_eq!(status(&m, id), TaskStatus::Cancelled);
    }
    assert_eq!(status(&m, "failed"), TaskStatus::Failed);
    assert!(shown(&out).starts_with("[CancelBatch(0), Save, CancelToken(7), ForgetToken(7), Abort("));
    assert_eq!(out.len(), 10);
    let mut out = Vec::new();
    assert!(cancel_all_tasks(&mut m, &mut out).is_empty());
    assert_eq!(shown(&out), "[CancelBatch(0), Save]");
    // nothing starts
    assert_eq!(start(&mut m, "failed", 1, &mut out), Start::Cancelled);
    assert_eq!(get_task(&m, "failed").unwrap().error, some("已取消"));
}

#[test]
fn interrupted_tasks_are_taken_up() {
    let mut m = every_status();
    m.global_cancelled = true;
    m.global_paused = true;
    let mut out = Vec::new();
    let present = vec!["/f/running".to_string()];
    let (resumed, failed) = resume_pending_tasks(&mut m, "u", &present, &mut out);
    assert_eq!((resumed, failed), (vec!["running".to_string()], vec!["pending".to_string()]));
    assert!(!m.global_cancelled && !m.global_paused);
    assert_eq!(status(&m, "running"), TaskStatus::Paused);
    assert_eq!(get_task(&m, "pending").unwrap().error, some("文件不存在，无法续传"));
    assert_eq!(status(&m, "paused"), TaskStatus::Paused);
    assert_eq!(shown(&out), "[Save, Save, Resume(\"running\")]");
}

#[test]
fn interrupted_tasks_come_newest_first() {
    let present: Vec<String> = ["a", "b", "c"].iter().map(|id| format!("/f/{}", id)).collect();
    let tasks = |names: [&str; 6]| {
        (0..6).map(|i| task(names[i], TaskStatus::Pending, Some("u"), [3, 9, 5, 4, 8, 6][i])).collect::<Vec<_>>()
    };
    let mut m = Manager::new(&saved(tasks(["a", "b", "c", "x", "y", "z"])));
    let mut out = Vec::new();
    let (resumed, failed) = resume_pending_tasks(&mut m, "u", &present, &mut out);
    assert_eq!(resumed, vec!["b", "c", "a"]);
    assert_eq!(failed, vec!["y", "z", "x"]);
}

#[test]
fn few_files_at_once() {
    let mut m = every_status();
    let mut out = Vec::new();
    for id in ["a", "b", "c"] {
        assert!(!holds_permit(&m, id));
        assert!(take_permit(&mut m, id));
        assert!(holds_permit(&m, id));
    }
    assert!(!take_permit(&mut m, "d") && !holds_permit(&m, "d"));
    give_back_permit(&mut m, "b", &mut out);
    assert!(!holds_permit(&m, "b") && take_permit(&mut m, "d") && holds_permit(&m, "d"));
    assert!(!take_permit(&mut m, "b"));
    assert_eq!(shown(&out), "[]");
}

#[test]
fn no_upload_without_a_permit() {
    let mut m = every_status();
    let mut out = Vec::new();
    assert!(take_permit(&mut m, "pending") && take_permit(&mut m, "pending"));
    assert_eq!(start(&mut m, "pending", 9, &mut out), Start::Started);
    let mut out = Vec::new();
    give_back_permit(&mut m, "pending", &mut out);
    assert!(holds_permit(&m, "pending"));
    assert_eq!(shown(&out), "[]");
    give_back_permit(&mut m, "pending", &mut out);
    assert!(!holds_permit(&m, "pending"));
    assert_eq!(shown(&out), "[ForgetToken(9)]");
}

#[test]
fn orphaned_tasks_are_taken_up() {
    let mut m = every_status();
    let mut out = Vec::new();
    assert_eq!(resume_orphaned_tasks(&m, "u", &mut out), vec!["pending"]);
    assert!(resume_orphaned_tasks(&m, "v", &mut out).is_empty());
    m.global_paused = true;
    assert!(resume_orphaned_tasks(&m, "u", &mut out).is_empty());
    assert_eq!(shown(&out), "[Resume(\"pending\")]");
}

#[test]
fn an_upload_starts() {
    let mut m = every_status();
    let mut out = Vec::new();
    assert_eq!(start(&mut m, "pending", 9, &mut out), Start::Started);
    assert_eq!(status(&m, "pending"), TaskStatus::Running);
    assert_eq!(
        shown(&out),
        "[Save, Broadcast(UploadStart { upload_id: \"pending\", filename: \"n\", total_chunks: 4 })]"
    );
    let mut out = Vec::new();
    refuse_upload(&mut m, "pending", "Not authenticated", &mut out);
    assert_eq!(shown(&out), "[ForgetToken(9), Save]");
    assert_eq!(get_task(&m, "pending").unwrap().error, some("Not authenticated"));
}

#[test]
fn an_upload_is_held_back() {
    let mut m = every_status();
    m.global_paused = true;
    let mut out = Vec::new();
    assert_eq!(start(&mut m, "pending", 9, &mut out), Start::Suspended);
    assert!(is_paused(&m, "pending"));
    assert_eq!(status(&m, "pending"), TaskStatus::Paused);
    assert_eq!(shown(&out), "[Save, Broadcast(Paused { upload_id: \"pending\" })]");
    m.global_cancelled = true;
    let mut out = Vec::new();
    assert_eq!(start(&mut m, "pending", 9, &mut out), Start::Cancelled);
    assert_eq!(shown(&out), "[Save, Broadcast(TaskCancelled { upload_id: \"pending\" })]");
}

#[test]
fn progress_is_written_now_and_then() {
    let mut m = every_status();
    let mut out = Vec::new();
    let mut last: u32 = 0;
    for n in 1..=12 {
        record_progress(&mut m, "running", n, 12, &mut last, &mut out);
    }
    // at 5, at 10 and at the end
    assert_eq!((out.len(), last), (3, 12));
    assert_eq!(get_task(&m, "running").unwrap().uploaded_chunks, 12);
    record_progress(&mut m, "running", 3, 100, &mut last, &mut out);
    assert_eq!(out.len(), 3);
}

#[test]
fn an_upload_ends() {
    let mut m = every_status();
    let mut out = Vec::new();
    end_upload(&mut m, "running", &Ok(()), &mut out);
    let t = get_task(&m, "running").unwrap();
    assert_eq!((t.status, t.uploaded_chunks), (TaskStatus::Completed, 4));
    assert_eq!(shown(&out), "[Save, Broadcast(Completed { upload_id: \"running\" })]");
    let mut out = Vec::new();
    end_upload(&mut m, "pending", &Err("broken".to_string()), &mut out);
    assert_eq!(get_task(&m, "pending").unwrap().error, some("broken"));
    assert_eq!(shown(&out), "[Save]");
    // a failed upload can be resumed
    assert!(resume_task(&mut m, "pending", true, &mut out));
}

#[test]
fn an_upload_is_stopped() {
    assert!(is_stop("paused") && !is_stop("Paused"));
    let mut m = every_status();
    let mut out = Vec::new();
    end_upload(&mut m, "paused", &Err("paused".to_string()), &mut out);
    assert!(out.is_empty());
    end_upload(&mut m, "cancelled", &Err("paused".to_string()), &mut out);
    assert_eq!(shown(&out), "[Broadcast(TaskCancelled { upload_id: \"cancelled\" })]");
    assert_eq!(status(&m, "paused"), TaskStatus::Paused);
}

#[test]
fn chunks_end_before_the_upload_does() {
    let mut m = every_status();
    let mut out = Vec::new();
    register_cancel_token(&mut m, "running", 3, &mut out);
    end_upload_chunks(&mut m, "running", &Ok(()), &mut out);
    assert_eq!(status(&m, "running"), TaskStatus::Running);
    assert_eq!(shown(&out), "[ForgetToken(3)]");
    end_upload_chunks(&mut m, "running", &Err("x".to_string()), &mut out);
    assert_eq!(status(&m, "running"), TaskStatus::Failed);
    let mut out = Vec::new();
    finish_upload_task(&mut m, "running", &Ok(()), &mut out);
    assert_eq!(status(&m, "running"), TaskStatus::Completed);
    finish_upload_task(&mut m, "pending", &Err("y".to_string()), &mut out);
    assert_eq!(get_task(&m, "pending").unwrap().error, some("y"));
    assert_eq!(shown(&out), "[Save, Broadcast(Completed { upload_id: \"running\" }), Save]");
}

#[test]
fn a_session_adds_up() {
    let mut c = SessionCounter::new(3, 0);
    c.record_success();
    c.record_failure("a");
    assert!(c.is_countable() && !c.is_complete());
    c.record_failure("b");
    assert!(c.is_complete());
    let log = c.to_log();
    assert_eq!((log.time.as_str(), log.total, log.success, log.failed), ("1970-01-01T00:00:00Z", 3, 1, 2));
    assert_eq!(log.failed_files, vec!["a", "b"]);
    assert!(SessionCounter::new(0, 0).is_complete());
}

#[test]
fn a_new_batch_lifts_cancel_and_pause() {
    let mut m = every_status();
    let mut out = Vec::new();
    assert_eq!((m.batch, m.batch_cancelled), (0, false));
    enqueue_upload_by_params(&mut m, &some("t"), &None);
    assert_eq!((m.batch, m.batch_cancelled), (1, false));
    cancel_all_tasks(&mut m, &mut out);
    assert!(shown(&out).starts_with("[CancelBatch(1), Save"));
    assert_eq!((m.batch, m.batch_cancelled, m.global_cancelled), (1, true, true));
    assert_eq!(enqueue_upload_by_params(&mut m, &some("t"), &None), some("t"));
    assert_eq!((m.batch, m.batch_cancelled, m.global_cancelled), (2, false, false));
    m.batch = u64::MAX;
    enqueue_upload_by_params(&mut m, &None, &None);
    assert_eq!((m.batch, m.batch_cancelled), (0, false));
    assert_eq!(start(&mut m, "failed", 1, &mut out), Start::Started);
    // the token of an upload goes with its end
    let mut out = Vec::new();
    end_upload(&mut m, "failed", &Err("x".to_string()), &mut out);
    assert_eq!(shown(&out), "[ForgetToken(1), Save]");
    // and so does a pause of everything, though what was paused stays so
    pause_all_tasks(&mut m, &mut out);
    assert_eq!(start(&mut m, "failed", 2, &mut out), Start::Suspended);
    assert!(m.global_paused && is_paused(&m, "failed"));
    assert_eq!(enqueue_upload_by_params(&mut m, &some("t"), &None), some("t"));
    assert!(!m.global_paused && is_paused(&m, "failed"));
    assert_eq!(start(&mut m, "failed", 2, &mut out), Start::Started);
}
