//! What holds of the transfers whatever is done to them.
use vstd::prelude::*;
use super::batch::{batch_begun, MAX_CONCURRENT_FILES};
use super::control::{
    all_cancelled, all_paused, all_resumed, interrupted, pending_resumed, task_cancelled, task_paused, task_resumed,
};
use super::lifecycle::{begun, chunks_ended, end_effects, ended, finished, refused, start_of, suspended, Start};
use super::manager::{active, held, initial, owned, queued, resumable, stays, Manager, ManagerView};
use super::message::Effect;
use super::permits::{less_one, permit_given_back, permit_taken};
use super::store::restricted;
use super::worker::taken;
use super::{TaskStatus, TaskView};

verus! {

/// Every task stands under its own id.
pub proof fn law_tasks_stand_under_their_ids(m: &Manager)
    requires
        m.wf(),
    ensures
        forall|id: Seq<char>| #[trigger] m@.tasks.contains_key(id) ==> m@.tasks[id].upload_id == id,
{
    m.tasks.lemma_ids();
}

/// A task that is paused and then resumed waits again, as it was but for its retries, which are
/// counted anew; it is no longer among the paused ones, and no other task is touched.
pub proof fn law_resume_undoes_pause(m: ManagerView, id: Seq<char>)
    requires
        m.tasks.contains_key(id),
        queued(m.tasks[id]),
    ensures
        task_resumed(task_paused(m, id), id, true) == (ManagerView {
            tasks: m.tasks.insert(
                id,
                TaskView { status: TaskStatus::Pending, retry_count: 0, ..m.tasks[id] },
            ),
            paused: m.paused.remove(id),
            tokens: m.tokens.remove(id),
            ..m
        }),
{
    assert(task_resumed(task_paused(m, id), id, true) =~= (ManagerView {
        tasks: m.tasks.insert(id, TaskView { status: TaskStatus::Pending, retry_count: 0, ..m.tasks[id] }),
        paused: m.paused.remove(id),
        tokens: m.tokens.remove(id),
        ..m
    }));
}

/// The task stands as it stood.
pub open spec fn same_task(before: ManagerView, after: ManagerView, id: Seq<char>) -> bool {
    after.tasks.contains_key(id) && after.tasks[id] == before.tasks[id]
}

/// A task that is cancelled or complete stays so, whatever is paused, resumed or cancelled, and no
/// worker starts it.
pub proof fn law_ended_tasks_stay(
    m: ManagerView,
    id: Seq<char>,
    other: Seq<char>,
    present: bool,
    user: Seq<char>,
    files: Seq<Seq<char>>,
)
    requires
        m.has_status(id, TaskStatus::Cancelled) || m.has_status(id, TaskStatus::Completed),
    ensures
        same_task(m, task_cancelled(m, other), id),
        same_task(m, task_paused(m, other), id),
        same_task(m, task_resumed(m, other, present), id),
        same_task(m, all_paused(m), id),
        same_task(m, all_resumed(m), id),
        same_task(m, all_cancelled(m), id),
        same_task(m, pending_resumed(m, user, files), id),
        taken(m, id),
{
}

/// What is done to one task leaves every other task as it is.
pub proof fn law_one_task_at_a_time(m: ManagerView, id: Seq<char>, other: Seq<char>, present: bool, token: u64)
    requires
        id != other,
        m.tasks.contains_key(other),
    ensures
        same_task(m, task_cancelled(m, id), other),
        same_task(m, task_paused(m, id), other),
        same_task(m, task_resumed(m, id, present), other),
        same_task(m, begun(m, id, token), other),
{
}

/// After everything has been paused, the tasks that are resumed with everything are exactly those
/// that waited, ran or were paused before; none of them is left waiting or running, and uploads may
/// start again.
pub proof fn law_resume_all_undoes_pause_all(m: ManagerView, id: Seq<char>)
    requires
        m.tasks.contains_key(id),
    ensures
        held(all_paused(m).tasks[id]) <==> active(m.tasks[id]),
        !queued(all_paused(m).tasks[id]),
        active(m.tasks[id]) ==> resumable(all_resumed(all_paused(m)).tasks[id]),
        active(m.tasks[id]) ==> !all_resumed(all_paused(m)).paused.contains(id),
        !active(m.tasks[id]) ==> same_task(m, all_resumed(all_paused(m)), id),
        !all_resumed(all_paused(m)).global_paused,
{
}

/// While everything is paused or cancelled, no upload starts: the task does not run, gets no token,
/// and is paused or cancelled with the rest.
pub proof fn law_nothing_starts_while_stopped(m: ManagerView, id: Seq<char>, token: u64)
    requires
        m.global_paused || m.global_cancelled,
        m.tasks.contains_key(id),
    ensures
        start_of(m) != Start::Started,
        begun(m, id, token).tokens == m.tokens,
        m.global_cancelled ==> begun(m, id, token).has_status(id, TaskStatus::Cancelled),
        !m.global_cancelled ==> begun(m, id, token).has_status(id, TaskStatus::Paused) && begun(
            m,
            id,
            token,
        ).paused.contains(id),
{
}

/// What was cancelled or paused before does not concern a new batch: after everything has been cancelled,
/// and with it the batch that was begun last, a new batch is another one and is not cancelled, and uploads
/// start again; so they do after everything has been paused.
pub proof fn law_new_batch_lifts_cancel_and_pause(m: ManagerView)
    ensures
        all_cancelled(m).global_cancelled,
        all_cancelled(m).batch == m.batch,
        all_cancelled(m).batch_cancelled,
        start_of(all_cancelled(m)) == Start::Cancelled,
        !batch_begun(all_cancelled(m)).global_cancelled,
        batch_begun(all_cancelled(m)).batch != m.batch,
        !batch_begun(all_cancelled(m)).batch_cancelled,
        start_of(batch_begun(all_cancelled(m))) == Start::Started,
        all_paused(m).global_paused,
        !batch_begun(all_paused(m)).global_paused,
        start_of(batch_begun(all_paused(m))) == Start::Started,
        forall|id: Seq<char>| #[trigger]
            all_paused(m).paused.contains(id) ==> batch_begun(all_paused(m)).paused.contains(id),
{
}

/// Every upload that can be stopped holds a permit to send its file, and no more permits are out than
/// there are.
pub open spec fn permitted(m: ManagerView) -> bool {
    &&& m.sending.len() <= MAX_CONCURRENT_FILES
    &&& forall|id: Seq<char>| #[trigger] m.tokens.contains_key(id) ==> m.sending.contains(id)
}

/// Never are more files being sent at once than may be.
pub proof fn law_few_files_at_once(m: &Manager)
    requires
        m.wf(),
    ensures
        m@.sending.to_set().len() <= MAX_CONCURRENT_FILES,
        permitted(m@) ==> m@.tokens.dom().finite() && m@.tokens.dom().len() <= MAX_CONCURRENT_FILES,
{
    m@.sending.lemma_cardinality_of_set();
    if permitted(m@) {
        assert forall|id: Seq<char>| m@.tokens.dom().contains(id) implies m@.sending.to_set().contains(id) by {
            assert(m@.tokens.contains_key(id));
        }
        vstd::seq_lib::seq_to_set_is_finite(m@.sending);
        vstd::set_lib::lemma_len_subset(m@.tokens.dom(), m@.sending.to_set());
    }
}

/// An upload starts only with a permit, and keeps it until it can no longer be stopped: whatever is
/// done, the uploads that can be stopped hold permits.
pub proof fn law_no_upload_without_a_permit(
    m: ManagerView,
    id: Seq<char>,
    token: u64,
    result: Result<(), Seq<char>>,
    file_present: bool,
    present: Seq<Seq<char>>,
)
    requires
        permitted(m),
    ensures
        permitted(initial()),
        permitted(permit_taken(m, id)),
        m.sending.contains(id) ==> permitted(permit_given_back(m, id)),
        m.sending.contains(id) ==> permitted(begun(m, id, token)),
        permitted(suspended(m, id)),
        permitted(ended(m, id, result)),
        permitted(chunks_ended(m, id, result)),
        permitted(finished(m, id, result)),
        result matches Err(error) ==> permitted(refused(m, id, error)),
        permitted(task_paused(m, id)),
        permitted(task_resumed(m, id, file_present)),
        permitted(task_cancelled(m, id)),
        permitted(all_paused(m)),
        permitted(all_resumed(m)),
        permitted(all_cancelled(m)),
        permitted(pending_resumed(m, id, present)),
        permitted(batch_begun(m)),
        forall|after: ManagerView|
            after.sending == m.sending && after.tokens == m.tokens ==> #[trigger] permitted(after),
{
    assert forall|k: Seq<char>| m.sending.contains(k) implies #[trigger] m.sending.push(id).contains(k) by {
        let i = choose|i: int| 0 <= i < m.sending.len() && m.sending[i] == k;
        assert(m.sending.push(id)[i] == k);
    }
    if m.sending.contains(id) {
        m.sending.index_of_first_ensures(id);
        let at = m.sending.index_of_first(id)->Some_0;
        let less = less_one(m.sending, id);
        assert forall|k: Seq<char>| k != id && m.sending.contains(k) implies #[trigger] less.contains(k) by {
            let i = choose|i: int| 0 <= i < m.sending.len() && m.sending[i] == k;
            if i < at {
                assert(less[i] == k);
            } else {
                assert(less[i - 1] == k);
            }
        }
    }
}

/// An upload that started and came to its end, whichever it was, has no token left; no other upload's
/// token is touched.
pub proof fn law_token_is_let_go(m: ManagerView, id: Seq<char>, token: u64, result: Result<(), Seq<char>>)
    requires
        start_of(m) == Start::Started,
    ensures
        begun(m, id, token).tokens.contains_key(id),
        begun(m, id, token).tokens[id] == token,
        ended(begun(m, id, token), id, result).tokens == m.tokens.remove(id),
        chunks_ended(begun(m, id, token), id, result).tokens == m.tokens.remove(id),
{
    assert(m.tokens.insert(id, token).remove(id) =~= m.tokens.remove(id));
}

/// An upload that was completed shows all its chunks as sent.
pub proof fn law_completed_is_full(m: ManagerView, id: Seq<char>)
    requires
        m.tasks.contains_key(id),
    ensures
        ended(m, id, Ok(())).has_status(id, TaskStatus::Completed),
        ended(m, id, Ok(())).tasks[id].uploaded_chunks == m.tasks[id].total_chunks,
        finished(m, id, Ok(())).has_status(id, TaskStatus::Completed),
        finished(m, id, Ok(())).tasks[id].uploaded_chunks == m.tasks[id].total_chunks,
{
}

/// After everything has been cancelled no task waits, runs or is paused, none of those that did has a
/// token, and nothing starts.
pub proof fn law_cancel_all_ends_everything(m: ManagerView, id: Seq<char>)
    requires
        m.tasks.contains_key(id),
    ensures
        all_cancelled(m).tasks.contains_key(id),
        !active(all_cancelled(m).tasks[id]),
        active(m.tasks[id]) ==> all_cancelled(m).has_status(id, TaskStatus::Cancelled),
        active(m.tasks[id]) ==> !all_cancelled(m).tokens.contains_key(id),
        active(m.tasks[id]) ==> !all_cancelled(m).paused.contains(id),
        start_of(all_cancelled(m)) == Start::Cancelled,
{
}

/// Clearing the finished tasks of a user keeps every task that waits, runs or is paused and every
/// task of another user, as they are, and nothing else.
pub proof fn law_clearing_keeps_what_matters(m: ManagerView, user: Seq<char>, id: Seq<char>)
    requires
        m.tasks.contains_key(id),
    ensures
        ({
            let left = restricted(m.tasks, |t: TaskView| stays(t, user));
            &&& active(m.tasks[id]) ==> left.contains_key(id) && left[id] == m.tasks[id]
            &&& !owned(m.tasks[id], user) ==> left.contains_key(id) && left[id] == m.tasks[id]
            &&& !active(m.tasks[id]) && owned(m.tasks[id], user) ==> !left.contains_key(id)
        }),
{
}

/// Of the tasks that are shown to a user, none belongs to another.
pub proof fn law_users_are_kept_apart(m: ManagerView, user: Seq<char>, other: Seq<char>, id: Seq<char>)
    requires
        m.tasks.contains_key(id),
        m.tasks[id].user_id == Some(other),
    ensures
        restricted(m.tasks, |t: TaskView| owned(t, user)).contains_key(id) <==> user == other,
{
}

/// An upload that failed can be resumed: its task is there and may be, and the backend has not been
/// told to abort it.
pub proof fn law_failure_can_be_resumed(m: ManagerView, id: Seq<char>, error: Seq<char>, other: Seq<char>)
    requires
        m.tasks.contains_key(id),
        error != super::lifecycle::paused_text(),
    ensures
        ended(m, id, Err(error)).has_status(id, TaskStatus::Failed),
        resumable(ended(m, id, Err(error)).tasks[id]),
        task_resumed(ended(m, id, Err(error)), id, true).has_status(id, TaskStatus::Pending),
        !end_effects(m, id, Err(error)).contains(Effect::Abort(other)),
{
    let effects = end_effects(m, id, Err(error));
    assert forall|i: int| 0 <= i < effects.len() implies #[trigger] effects[i] != Effect::Abort(other) by {
        assert(effects[i] is ForgetToken || effects[i] is Save);
    }
}

/// A task that was under way when the client stopped is taken up at the next start, where its file is
/// there: it can be resumed, and is not held back.
pub proof fn law_interrupted_tasks_are_taken_up(
    m: ManagerView,
    user: Seq<char>,
    files: Seq<Seq<char>>,
    id: Seq<char>,
)
    requires
        m.tasks.contains_key(id),
        interrupted(m.tasks[id], user),
        files.contains(m.tasks[id].file_path->0),
    ensures
        resumable(pending_resumed(m, user, files).tasks[id]),
        task_resumed(pending_resumed(m, user, files), id, true).has_status(id, TaskStatus::Pending),
        start_of(pending_resumed(m, user, files)) == Start::Started,
{
}

} // verus!
