//! One upload from its start to its end: what its beginning, its progress and its outcome do to
//! the task.
use vstd::prelude::*;
use crate::text::same;
use super::manager::{
    forgets, get_task, register_cancel_token, remove_cancel_token, set_progress, update_task_status, with_progress,
    Manager, ManagerView,
};
use super::message::{send, sent, Effect, Message};
use super::TaskStatus;

verus! {

/// What is said of a task that was cancelled before it started.
pub open spec fn cancelled_text() -> Seq<char> {
    "已取消"@
}

/// The error by which an upload says that it was stopped.
pub open spec fn paused_text() -> Seq<char> {
    "paused"@
}

/// The outcome of a step of an upload.
pub open spec fn outcome(r: Result<(), String>) -> Result<(), Seq<char>> {
    match r {
        Ok(()) => Ok(()),
        Err(e) => Err(e@),
    }
}

/// Whether an error says that the upload was stopped.
pub fn is_stop(error: &str) -> (r: bool)
    ensures
        r == (error@ == paused_text()),
{
    same(error, "paused")
}

/// How an upload that is to start fares.
#[derive(Debug, Clone, Copy, PartialEq, Eq, Structural)]
pub enum Start {
    /// It runs.
    Started,
    /// Everything has been cancelled, and so is it.
    Cancelled,
    /// Everything has been paused, and so is it.
    Suspended,
}

/// How an upload that is to start fares.
pub open spec fn start_of(m: ManagerView) -> Start {
    if m.global_cancelled {
        Start::Cancelled
    } else if m.global_paused {
        Start::Suspended
    } else {
        Start::Started
    }
}

/// The state after an upload was to start with the cancellation token of this number.
pub open spec fn begun(m: ManagerView, id: Seq<char>, token: u64) -> ManagerView {
    match start_of(m) {
        Start::Cancelled => m.set_status(id, TaskStatus::Cancelled, Some(cancelled_text())),
        Start::Suspended => suspended(m, id),
        Start::Started => ManagerView {
            tokens: m.tokens.insert(id, token),
            ..m.set_status(id, TaskStatus::Running, None)
        },
    }
}

/// The state after an upload has been held back because everything is paused.
pub open spec fn suspended(m: ManagerView, id: Seq<char>) -> ManagerView {
    ManagerView { paused: m.paused.insert(id), ..m.set_status(id, TaskStatus::Paused, None) }
}

/// What starting an upload has done outside.
pub open spec fn begin_effects(
    m: ManagerView,
    id: Seq<char>,
    filename: Seq<char>,
    total_chunks: u32,
) -> Seq<Effect<Seq<char>>> {
    match start_of(m) {
        Start::Cancelled => seq![Effect::Save, Effect::Broadcast(Message::TaskCancelled { upload_id: id })],
        Start::Suspended => seq![Effect::Save, Effect::Broadcast(Message::Paused { upload_id: id })],
        Start::Started => seq![Effect::Save] + forgets(m.tokens, id) + seq![
            Effect::Broadcast(Message::UploadStart { upload_id: id, filename, total_chunks }),
        ],
    }
}

/// Holds an upload back because everything is paused.
pub(crate) fn suspend(m: &mut Manager, upload_id: &str, out: &mut Vec<Effect<String>>)
    requires
        old(m).wf(),
    ensures
        final(m).wf(),
        final(m)@ == suspended(old(m)@, upload_id@),
        sent(final(out)@) == sent(old(out)@) + seq![
            Effect::Save,
            Effect::Broadcast(Message::Paused { upload_id: upload_id@ }),
        ],
{
    update_task_status(m, upload_id, TaskStatus::Paused, None, out);
    m.paused.insert(upload_id);
    send(out, Effect::Broadcast(Message::Paused { upload_id: upload_id.to_string() }));
}

/// Starts an upload with the cancellation token of this number, unless everything is cancelled or
/// paused. It holds a permit to send its file.
pub fn begin_upload(
    m: &mut Manager,
    upload_id: &str,
    filename: &str,
    total_chunks: u32,
    token: u64,
    out: &mut Vec<Effect<String>>,
) -> (r: Start)
    requires
        old(m).wf(),
        old(m)@.sending.contains(upload_id@),
    ensures
        final(m).wf(),
        r == start_of(old(m)@),
        final(m)@ == begun(old(m)@, upload_id@, token),
        sent(final(out)@) == sent(old(out)@) + begin_effects(old(m)@, upload_id@, filename@, total_chunks),
{
    if m.global_cancelled {
        update_task_status(m, upload_id, TaskStatus::Cancelled, Some("已取消".to_string()), out);
        send(out, Effect::Broadcast(Message::TaskCancelled { upload_id: upload_id.to_string() }));
        return Start::Cancelled;
    }
    if m.global_paused {
        suspend(m, upload_id, out);
        return Start::Suspended;
    }
    update_task_status(m, upload_id, TaskStatus::Running, None, out);
    register_cancel_token(m, upload_id, token, out);
    send(
        out,
        Effect::Broadcast(
            Message::UploadStart {
                upload_id: upload_id.to_string(),
                filename: filename.to_string(),
                total_chunks,
            },
        ),
    );
    Start::Started
}

/// The state after a started upload could not go on for want of a login.
pub open spec fn refused(m: ManagerView, id: Seq<char>, error: Seq<char>) -> ManagerView {
    m.without_token(id).set_status(id, TaskStatus::Failed, Some(error))
}

/// Ends a started upload that cannot go on.
pub fn refuse_upload(m: &mut Manager, upload_id: &str, error: &str, out: &mut Vec<Effect<String>>)
    requires
        old(m).wf(),
    ensures
        final(m).wf(),
        final(m)@ == refused(old(m)@, upload_id@, error@),
        sent(final(out)@) == sent(old(out)@) + forgets(old(m)@.tokens, upload_id@) + seq![Effect::Save],
{
    remove_cancel_token(m, upload_id, out);
    update_task_status(m, upload_id, TaskStatus::Failed, Some(error.to_string()), out);
}

/// The progress is worth a write to disk: all chunks are there, or at least five since the last.
pub open spec fn worth_saving(uploaded: u32, total: u32, last_saved: u32) -> bool {
    uploaded >= total || uploaded - last_saved >= 5
}

/// Notes that `uploaded` of `total` chunks are there. `last_saved` is the progress that was last
/// written to disk.
pub fn record_progress(
    m: &mut Manager,
    upload_id: &str,
    uploaded: u32,
    total: u32,
    last_saved: &mut u32,
    out: &mut Vec<Effect<String>>,
)
    requires
        old(m).wf(),
    ensures
        final(m).wf(),
        final(m)@ == (ManagerView { tasks: with_progress(old(m)@.tasks, upload_id@, uploaded), ..old(m)@ }),
        if worth_saving(uploaded, total, *old(last_saved)) {
            &&& *final(last_saved) == uploaded
            &&& sent(final(out)@) == sent(old(out)@).push(Effect::Save)
        } else {
            &&& *final(last_saved) == *old(last_saved)
            &&& sent(final(out)@) == sent(old(out)@)
        },
{
    set_progress(m, upload_id, uploaded);
    if uploaded >= total || uploaded.saturating_sub(*last_saved) >= 5 {
        *last_saved = uploaded;
        send(out, Effect::Save);
    }
}

pub(crate) fn complete_task(m: &mut Manager, upload_id: &str, out: &mut Vec<Effect<String>>)
    requires
        old(m).wf(),
    ensures
        final(m).wf(),
        final(m)@ == old(m)@.complete(upload_id@),
        sent(final(out)@) == sent(old(out)@) + seq![
            Effect::Save,
            Effect::Broadcast(Message::Completed { upload_id: upload_id@ }),
        ],
{
    match get_task(m, upload_id) {
        Some(task) => {
            let mut task = task;
            proof {
                m.tasks.lemma_ids();
            }
            task.status = TaskStatus::Completed;
            task.uploaded_chunks = task.total_chunks;
            m.tasks.insert(task);
        },
        None => {},
    }
    send(out, Effect::Save);
    send(out, Effect::Broadcast(Message::Completed { upload_id: upload_id.to_string() }));
}

/// A task that was cancelled while its upload ran is said to be cancelled.
pub open spec fn stop_effects(m: ManagerView, id: Seq<char>) -> Seq<Effect<Seq<char>>> {
    if m.has_status(id, TaskStatus::Cancelled) {
        seq![Effect::Broadcast(Message::TaskCancelled { upload_id: id })]
    } else {
        Seq::empty()
    }
}

fn report_stop(m: &Manager, upload_id: &str, out: &mut Vec<Effect<String>>)
    requires
        m.wf(),
    ensures
        sent(final(out)@) == sent(old(out)@) + stop_effects(m@, upload_id@),
{
    match m.tasks.get(upload_id) {
        Some(task) => {
            if task.status == TaskStatus::Cancelled {
                send(out, Effect::Broadcast(Message::TaskCancelled { upload_id: upload_id.to_string() }));
            }
        },
        None => {},
    }
}

/// The state after a whole upload has come to its end.
pub open spec fn ended(m: ManagerView, id: Seq<char>, result: Result<(), Seq<char>>) -> ManagerView {
    match result {
        Ok(()) => m.without_token(id).complete(id),
        Err(error) => if error == paused_text() {
            m.without_token(id)
        } else {
            m.without_token(id).set_status(id, TaskStatus::Failed, Some(error))
        },
    }
}

/// What the end of a whole upload has done outside.
pub open spec fn end_effects(m: ManagerView, id: Seq<char>, result: Result<(), Seq<char>>) -> Seq<Effect<Seq<char>>> {
    forgets(m.tokens, id) + match result {
        Ok(()) => seq![Effect::Save, Effect::Broadcast(Message::Completed { upload_id: id })],
        Err(error) => if error == paused_text() {
            stop_effects(m, id)
        } else {
            seq![Effect::Save]
        },
    }
}

/// Ends an upload that sent its chunks and completed at the backend in one go. One that failed may
/// be resumed later; the backend is not told to abort it.
pub fn end_upload(m: &mut Manager, upload_id: &str, result: &Result<(), String>, out: &mut Vec<Effect<String>>)
    requires
        old(m).wf(),
    ensures
        final(m).wf(),
        final(m)@ == ended(old(m)@, upload_id@, outcome(*result)),
        sent(final(out)@) == sent(old(out)@) + end_effects(old(m)@, upload_id@, outcome(*result)),
{
    remove_cancel_token(m, upload_id, out);
    match result {
        Ok(()) => complete_task(m, upload_id, out),
        Err(error) => {
            if is_stop(error) {
                report_stop(m, upload_id, out);
            } else {
                update_task_status(m, upload_id, TaskStatus::Failed, Some(error.clone()), out);
            }
        },
    }
}

/// The state after the chunks of an upload have been sent, or not.
pub open spec fn chunks_ended(m: ManagerView, id: Seq<char>, result: Result<(), Seq<char>>) -> ManagerView {
    match result {
        Ok(()) => m.without_token(id),
        Err(_) => ended(m, id, result),
    }
}

/// What the end of an upload's chunks has done outside.
pub open spec fn chunks_end_effects(
    m: ManagerView,
    id: Seq<char>,
    result: Result<(), Seq<char>>,
) -> Seq<Effect<Seq<char>>> {
    match result {
        Ok(()) => forgets(m.tokens, id),
        Err(_) => end_effects(m, id, result),
    }
}

/// Ends the sending of an upload's chunks; what the backend is told of it comes later.
pub fn end_upload_chunks(
    m: &mut Manager,
    upload_id: &str,
    result: &Result<(), String>,
    out: &mut Vec<Effect<String>>,
)
    requires
        old(m).wf(),
    ensures
        final(m).wf(),
        final(m)@ == chunks_ended(old(m)@, upload_id@, outcome(*result)),
        sent(final(out)@) == sent(old(out)@) + chunks_end_effects(old(m)@, upload_id@, outcome(*result)),
{
    match result {
        Ok(()) => remove_cancel_token(m, upload_id, out),
        Err(_) => end_upload(m, upload_id, result, out),
    }
}

/// The state after the backend has been asked to complete an upload.
pub open spec fn finished(m: ManagerView, id: Seq<char>, result: Result<(), Seq<char>>) -> ManagerView {
    match result {
        Ok(()) => m.complete(id),
        Err(error) => m.set_status(id, TaskStatus::Failed, Some(error)),
    }
}

/// What asking the backend to complete an upload has done outside.
pub open spec fn finish_effects(id: Seq<char>, result: Result<(), Seq<char>>) -> Seq<Effect<Seq<char>>> {
    match result {
        Ok(()) => seq![Effect::Save, Effect::Broadcast(Message::Completed { upload_id: id })],
        Err(_) => seq![Effect::Save],
    }
}

/// Notes what came of asking the backend to complete an upload.
pub fn finish_upload_task(
    m: &mut Manager,
    upload_id: &str,
    result: &Result<(), String>,
    out: &mut Vec<Effect<String>>,
)
    requires
        old(m).wf(),
    ensures
        final(m).wf(),
        final(m)@ == finished(old(m)@, upload_id@, outcome(*result)),
        sent(final(out)@) == sent(old(out)@) + finish_effects(upload_id@, outcome(*result)),
{
    match result {
        Ok(()) => complete_task(m, upload_id, out),
        Err(error) => update_task_status(m, upload_id, TaskStatus::Failed, Some(error.clone()), out),
    }
}

/// An upload starts only while nothing is cancelled or paused: then its task runs without an error and has
/// the token. While everything is cancelled its task is cancelled, and while everything is paused it is
/// paused and known to be. No other task changes, and nothing else but the token and the pause mark.
pub proof fn law_start(m: ManagerView, id: Seq<char>, token: u64, other: Seq<char>)
    ensures
        m.global_cancelled <==> start_of(m) == Start::Cancelled,
        !m.global_cancelled && m.global_paused <==> start_of(m) == Start::Suspended,
        ({
            let after = begun(m, id, token);
            let free = !m.global_cancelled && !m.global_paused;
            &&& after.tasks.contains_key(other) == m.tasks.contains_key(other)
            &&& m.tasks.contains_key(other) && other != id ==> after.tasks[other] == m.tasks[other]
            &&& m.tasks.contains_key(id) ==> m.tasks[id] == (super::TaskView {
                status: m.tasks[id].status,
                error: m.tasks[id].error,
                ..after.tasks[id]
            })
            &&& free ==> {
                &&& after.tokens.contains_key(id) && after.tokens[id] == token
                &&& other != id ==> after.tokens.contains_key(other) == m.tokens.contains_key(other)
                &&& other != id && m.tokens.contains_key(other) ==> after.tokens[other] == m.tokens[other]
                &&& after.paused == m.paused
                &&& m.tasks.contains_key(id) ==> after.tasks[id].status == TaskStatus::Running && after.tasks[id].error
                    is None
            }
            &&& m.global_cancelled ==> {
                &&& after.tokens == m.tokens
                &&& after.paused == m.paused
                &&& m.tasks.contains_key(id) ==> after.tasks[id].status == TaskStatus::Cancelled
                    && after.tasks[id].error == Some("已取消"@)
            }
            &&& !m.global_cancelled && m.global_paused ==> {
                &&& after.tokens == m.tokens
                &&& after.paused.contains(id)
                &&& other != id ==> after.paused.contains(other) == m.paused.contains(other)
                &&& m.tasks.contains_key(id) ==> after.tasks[id].status == TaskStatus::Paused && after.tasks[id].error
                    is None
            }
            &&& after == (ManagerView { tasks: after.tasks, tokens: after.tokens, paused: after.paused, ..m })
        }),
        suspended(m, id).paused.contains(id),
        m.tasks.contains_key(id) ==> suspended(m, id).tasks[id] == (super::TaskView {
            status: TaskStatus::Paused,
            error: None,
            ..m.tasks[id]
        }),
        suspended(m, id).tasks == (m.set_status(id, TaskStatus::Paused, None)).tasks,
        suspended(m, id) == (ManagerView { tasks: suspended(m, id).tasks, paused: m.paused.insert(id), ..m }),
{
}

/// What is told of a start: the store is written first, and the clients hear last that the upload has
/// started, was cancelled or is paused; a token that the upload had is let go in between.
pub proof fn law_start_is_told(m: ManagerView, id: Seq<char>, filename: Seq<char>, total_chunks: u32)
    ensures
        ({
            let told = begin_effects(m, id, filename, total_chunks);
            let free = !m.global_cancelled && !m.global_paused;
            &&& told.len() == if free && m.tokens.contains_key(id) {
                3nat
            } else {
                2nat
            }
            &&& told[0] == Effect::<Seq<char>>::Save
            &&& free && m.tokens.contains_key(id) ==> told[1] == Effect::<Seq<char>>::ForgetToken(m.tokens[id])
            &&& free ==> told.last() == Effect::Broadcast(
                Message::UploadStart { upload_id: id, filename, total_chunks },
            )
            &&& m.global_cancelled ==> told.last() == Effect::Broadcast(Message::TaskCancelled { upload_id: id })
            &&& !m.global_cancelled && m.global_paused ==> told.last() == Effect::Broadcast(
                Message::Paused { upload_id: id },
            )
        }),
{
}

/// The end of an upload: where it went well its task is complete, with all its chunks; where it was stopped
/// its task stays as it is; and any other failure is recorded. Its token goes in any case; no other task
/// changes, and nothing else.
pub proof fn law_end(m: ManagerView, id: Seq<char>, error: Seq<char>, other: Seq<char>)
    ensures
        ({
            let good = ended(m, id, Ok(()));
            &&& m.tasks.contains_key(id) ==> good.tasks[id] == (super::TaskView {
                status: TaskStatus::Completed,
                uploaded_chunks: m.tasks[id].total_chunks,
                ..m.tasks[id]
            })
            &&& good.tasks.contains_key(other) == m.tasks.contains_key(other)
            &&& m.tasks.contains_key(other) && other != id ==> good.tasks[other] == m.tasks[other]
            &&& good == (ManagerView { tasks: good.tasks, tokens: m.tokens.remove(id), ..m })
        }),
        ended(m, id, Err("paused"@)) == (ManagerView { tokens: m.tokens.remove(id), ..m }),
        error != "paused"@ ==> ({
            let bad = ended(m, id, Err(error));
            &&& m.tasks.contains_key(id) ==> bad.tasks[id] == (super::TaskView {
                status: TaskStatus::Failed,
                error: Some(error),
                ..m.tasks[id]
            })
            &&& bad.tasks.contains_key(other) == m.tasks.contains_key(other)
            &&& m.tasks.contains_key(other) && other != id ==> bad.tasks[other] == m.tasks[other]
            &&& bad == (ManagerView { tasks: bad.tasks, tokens: m.tokens.remove(id), ..m })
        }),
        ({
            let bad = refused(m, id, error);
            &&& m.tasks.contains_key(id) ==> bad.tasks[id] == (super::TaskView {
                status: TaskStatus::Failed,
                error: Some(error),
                ..m.tasks[id]
            })
            &&& bad.tasks.contains_key(other) == m.tasks.contains_key(other)
            &&& m.tasks.contains_key(other) && other != id ==> bad.tasks[other] == m.tasks[other]
            &&& bad == (ManagerView { tasks: bad.tasks, tokens: m.tokens.remove(id), ..m })
        }),
{
}

/// When all chunks have been sent the task is not complete yet: it stays as it is until the backend has
/// finished the upload. Only then is it complete; where the backend fails, the task has failed.
pub proof fn law_chunks_alone_are_not_enough(m: ManagerView, id: Seq<char>, error: Seq<char>, other: Seq<char>)
    ensures
        chunks_ended(m, id, Ok(())) == (ManagerView { tokens: m.tokens.remove(id), ..m }),
        chunks_ended(m, id, Err(error)) == ended(m, id, Err(error)),
        m.tasks.contains_key(id) ==> ({
            &&& finished(m, id, Ok(())).tasks[id] == (super::TaskView {
                status: TaskStatus::Completed,
                uploaded_chunks: m.tasks[id].total_chunks,
                ..m.tasks[id]
            })
            &&& finished(m, id, Err(error)).tasks[id] == (super::TaskView {
                status: TaskStatus::Failed,
                error: Some(error),
                ..m.tasks[id]
            })
        }),
        finished(m, id, Ok(())).tasks.contains_key(other) == m.tasks.contains_key(other),
        finished(m, id, Err(error)).tasks.contains_key(other) == m.tasks.contains_key(other),
        m.tasks.contains_key(other) && other != id ==> finished(m, id, Ok(())).tasks[other] == m.tasks[other]
            && finished(m, id, Err(error)).tasks[other] == m.tasks[other],
        finished(m, id, Ok(())) == (ManagerView { tasks: finished(m, id, Ok(())).tasks, ..m }),
        finished(m, id, Err(error)) == (ManagerView { tasks: finished(m, id, Err(error)).tasks, ..m }),
{
}

/// What is told of an end: the clients hear that an upload is complete exactly where it went well, and that
/// it was cancelled exactly where it was stopped because its task was cancelled; every end but a stop is
/// written to disk, before anything is told.
pub proof fn law_end_is_told(m: ManagerView, id: Seq<char>, error: Seq<char>)
    ensures
        ({
            let first = if m.tokens.contains_key(id) {
                seq![Effect::<Seq<char>>::ForgetToken(m.tokens[id])]
            } else {
                Seq::empty()
            };
            let cancelled = m.tasks.contains_key(id) && m.tasks[id].status == TaskStatus::Cancelled;
            let done = seq![Effect::Save, Effect::Broadcast(Message::Completed { upload_id: id })];
            &&& end_effects(m, id, Ok(())) == first + done
            &&& cancelled ==> end_effects(m, id, Err("paused"@)) == first.push(
                Effect::Broadcast(Message::TaskCancelled { upload_id: id }),
            )
            &&& !cancelled ==> end_effects(m, id, Err("paused"@)) == first
            &&& error != "paused"@ ==> end_effects(m, id, Err(error)) == first.push(Effect::<Seq<char>>::Save)
            &&& chunks_end_effects(m, id, Ok(())) == first
            &&& chunks_end_effects(m, id, Err(error)) == end_effects(m, id, Err(error))
            &&& finish_effects(id, Ok(())) == done
            &&& finish_effects(id, Err(error)) == seq![Effect::<Seq<char>>::Save]
            &&& stop_effects(m, id).len() == if cancelled {
                1nat
            } else {
                0nat
            }
            &&& cancelled ==> stop_effects(m, id)[0] == Effect::Broadcast(Message::TaskCancelled { upload_id: id })
        }),
{
}

/// Progress is written to disk when all chunks are there, and otherwise after every five more.
pub proof fn law_when_progress_is_saved(uploaded: u32, total: u32, last_saved: u32)
    ensures
        uploaded >= total ==> worth_saving(uploaded, total, last_saved),
        uploaded < total && uploaded < last_saved + 5 ==> !worth_saving(uploaded, total, last_saved),
        uploaded >= last_saved + 5 ==> worth_saving(uploaded, total, last_saved),
{
}

/// The outcome of a step is good exactly where the step went well, and else tells its error.
pub proof fn law_outcome(result: Result<(), String>)
    ensures
        outcome(result) is Ok <==> result is Ok,
        result is Err ==> outcome(result)->Err_0 == result->Err_0@,
{
}

} // verus!
