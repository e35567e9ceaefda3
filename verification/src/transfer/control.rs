//! Pausing, resuming and cancelling, one task at a time or all at once.
use vstd::prelude::*;
use crate::text::{same, strings};
use super::manager::{
    active, all_cancels, all_forgets, cancels, file_missing, forgets, get_all_tasks, get_task, held, is_active,
    is_owned, is_queued, newest_first, owned, queued, remove_cancel_token, resumable, update_task_status, Manager,
    ManagerView,
};
use super::message::{send, sent, Effect, Message};
use super::store::{
    changed, distinct_ids, lemma_changed, lemma_lists_none, lemma_lists_step, lemma_no_tasks, lemma_prefix,
    lemma_task_at, lists, restricted, task_map,
};
use super::{TaskStatus, TaskView, TransferTask};

verus! {

// ---------------------------------------------------------------------------------------------
// One task
// ---------------------------------------------------------------------------------------------

/// The state after a task has been cancelled.
pub open spec fn task_cancelled(m: ManagerView, id: Seq<char>) -> ManagerView {
    if m.tasks.contains_key(id) && active(m.tasks[id]) {
        ManagerView {
            tasks: m.tasks.insert(id, TaskView { status: TaskStatus::Cancelled, ..m.tasks[id] }),
            tokens: m.tokens.remove(id),
            paused: m.paused.remove(id),
            ..m
        }
    } else {
        m
    }
}

/// Cancels a task that waits, runs or is paused.
pub fn cancel_task(m: &mut Manager, upload_id: &str, out: &mut Vec<Effect<String>>) -> (r: bool)
    requires
        old(m).wf(),
    ensures
        final(m).wf(),
        r == (old(m)@.tasks.contains_key(upload_id@) && active(old(m)@.tasks[upload_id@])),
        final(m)@ == task_cancelled(old(m)@, upload_id@),
        sent(final(out)@) == (if r {
            sent(old(out)@) + seq![Effect::Save] + cancels(old(m)@.tokens, upload_id@) + forgets(
                old(m)@.tokens,
                upload_id@,
            ) + seq![
                Effect::Abort(upload_id@),
                Effect::Broadcast(Message::TaskCancelled { upload_id: upload_id@ }),
            ]
        } else {
            sent(old(out)@)
        }),
{
    match get_task(m, upload_id) {
        Some(task) => {
            if is_active(&task) {
                let mut task = task;
                proof {
                    m.tasks.lemma_ids();
                }
                task.status = TaskStatus::Cancelled;
                m.tasks.insert(task);
                send(out, Effect::Save);
                match m.tokens.get(upload_id) {
                    Some(number) => {
                        send(out, Effect::CancelToken(number));
                    },
                    None => {},
                }
                remove_cancel_token(m, upload_id, out);
                m.paused.remove(upload_id);
                send(out, Effect::Abort(upload_id.to_string()));
                send(out, Effect::Broadcast(Message::TaskCancelled { upload_id: upload_id.to_string() }));
                return true;
            }
        },
        None => {},
    }
    false
}

/// The state after a task has been paused.
pub open spec fn task_paused(m: ManagerView, id: Seq<char>) -> ManagerView {
    if m.tasks.contains_key(id) && queued(m.tasks[id]) {
        ManagerView {
            tasks: m.tasks.insert(id, TaskView { status: TaskStatus::Paused, ..m.tasks[id] }),
            paused: m.paused.insert(id),
            ..m
        }
    } else {
        m
    }
}

/// Pauses a task that waits or runs.
pub fn pause_task(m: &mut Manager, upload_id: &str, out: &mut Vec<Effect<String>>) -> (r: bool)
    requires
        old(m).wf(),
    ensures
        final(m).wf(),
        r == (old(m)@.tasks.contains_key(upload_id@) && queued(old(m)@.tasks[upload_id@])),
        final(m)@ == task_paused(old(m)@, upload_id@),
        sent(final(out)@) == (if r {
            sent(old(out)@) + seq![Effect::Save] + cancels(old(m)@.tokens, upload_id@) + seq![
                Effect::Broadcast(Message::Paused { upload_id: upload_id@ }),
            ]
        } else {
            sent(old(out)@)
        }),
{
    match get_task(m, upload_id) {
        Some(task) => {
            if is_queued(&task) {
                let mut task = task;
                proof {
                    m.tasks.lemma_ids();
                }
                task.status = TaskStatus::Paused;
                m.tasks.insert(task);
                send(out, Effect::Save);
                m.paused.insert(upload_id);
                match m.tokens.get(upload_id) {
                    Some(number) => {
                        send(out, Effect::CancelToken(number));
                    },
                    None => {},
                }
                send(out, Effect::Broadcast(Message::Paused { upload_id: upload_id.to_string() }));
                return true;
            }
        },
        None => {},
    }
    false
}

/// The task waits again, and its retries are counted anew.
pub open spec fn requeued(m: ManagerView, id: Seq<char>) -> ManagerView {
    ManagerView {
        tasks: m.tasks.insert(id, TaskView { status: TaskStatus::Pending, retry_count: 0, ..m.tasks[id] }),
        paused: m.paused.remove(id),
        tokens: m.tokens.remove(id),
        ..m
    }
}

/// The state after a task has been resumed; `file_present` says whether its file is there.
pub open spec fn task_resumed(m: ManagerView, id: Seq<char>, file_present: bool) -> ManagerView {
    if m.tasks.contains_key(id) && resumable(m.tasks[id]) {
        if m.tasks[id].file_path is Some && !file_present {
            requeued(m, id).set_status(id, TaskStatus::Failed, Some(file_missing()))
        } else {
            requeued(m, id)
        }
    } else {
        m
    }
}

/// Resumes a task that is paused, failed or waits. `file_present` says whether the task's file is
/// there.
pub fn resume_task(m: &mut Manager, upload_id: &str, file_present: bool, out: &mut Vec<Effect<String>>) -> (r: bool)
    requires
        old(m).wf(),
    ensures
        final(m).wf(),
        final(m)@ == task_resumed(old(m)@, upload_id@, file_present),
        r == (old(m)@.tasks.contains_key(upload_id@) && resumable(old(m)@.tasks[upload_id@])
            && old(m)@.tasks[upload_id@].file_path is Some && file_present),
        sent(final(out)@) == (if old(m)@.tasks.contains_key(upload_id@) && resumable(old(m)@.tasks[upload_id@]) {
            sent(old(out)@) + seq![Effect::Save] + forgets(old(m)@.tokens, upload_id@) + (
            if old(m)@.tasks[upload_id@].file_path is None {
                Seq::empty()
            } else if !file_present {
                seq![Effect::Save]
            } else {
                seq![
                    Effect::RunResumed(upload_id@),
                    Effect::Broadcast(Message::Resumed { upload_id: upload_id@ }),
                ]
            })
        } else {
            sent(old(out)@)
        }),
{
    match get_task(m, upload_id) {
        Some(task) => {
            if task.status == TaskStatus::Paused || task.status == TaskStatus::Failed || task.status
                == TaskStatus::Pending {
                let mut task = task;
                proof {
                    m.tasks.lemma_ids();
                }
                let has_file = task.file_path.is_some();
                task.status = TaskStatus::Pending;
                task.retry_count = 0;
                m.tasks.insert(task);
                send(out, Effect::Save);
                m.paused.remove(upload_id);
                remove_cancel_token(m, upload_id, out);
                if has_file {
                    if !file_present {
                        update_task_status(
                            m,
                            upload_id,
                            TaskStatus::Failed,
                            Some("文件不存在，无法续传".to_string()),
                            out,
                        );
                        return false;
                    }
                    send(out, Effect::RunResumed(upload_id.to_string()));
                    send(out, Effect::Broadcast(Message::Resumed { upload_id: upload_id.to_string() }));
                    return true;
                }
            }
        },
        None => {},
    }
    false
}

// ---------------------------------------------------------------------------------------------
// All tasks
// ---------------------------------------------------------------------------------------------

/// A task that waits or runs becomes paused.
pub open spec fn paused_if_queued(task: TaskView) -> TaskView {
    if queued(task) {
        TaskView { status: TaskStatus::Paused, ..task }
    } else {
        task
    }
}

/// The state after everything has been paused.
pub open spec fn all_paused(m: ManagerView) -> ManagerView {
    ManagerView {
        tasks: changed(m.tasks, |t: TaskView| paused_if_queued(t)),
        paused: m.paused.union(
            Set::new(|id: Seq<char>| m.tasks.contains_key(id) && active(m.tasks[id])),
        ),
        global_paused: true,
        ..m
    }
}

proof fn lemma_strings_push(v: Seq<String>, s: String)
    ensures
        strings(v.push(s)) == strings(v).push(s@),
{
    assert(strings(v.push(s)) =~= strings(v).push(s@));
}

/// Pauses every task that waits or runs, and keeps uploads from starting. The ids of the tasks
/// that were stopped are given back.
pub fn pause_all_tasks(m: &mut Manager, out: &mut Vec<Effect<String>>) -> (r: Vec<String>)
    requires
        old(m).wf(),
    ensures
        final(m).wf(),
        final(m)@ == all_paused(old(m)@),
        lists(strings(r@), old(m)@.tasks, |t: TaskView| queued(t)),
        sent(final(out)@) == sent(old(out)@) + seq![Effect::Save] + all_cancels(old(m)@.tokens, strings(r@)) + seq![
            Effect::Broadcast(Message::AllPaused),
        ],
{
    m.global_paused = true;
    let ghost f = |t: TaskView| paused_if_queued(t);
    let ghost p = |t: TaskView| queued(t);
    let ghost all = m.tasks.sequence();
    let ghost marked = old(m)@.paused;
    let mut ids: Vec<String> = Vec::new();
    let mut i: usize = 0;
    send(out, Effect::Save);
    proof {
        m.tasks.lemma_ids();
        lemma_no_tasks(all.take(0));
        lemma_lists_none(p);
        assert(strings(ids@) =~= Seq::<Seq<char>>::empty());
        assert(m.paused@ =~= marked.union(
            Set::new(|id: Seq<char>| task_map(all.take(0)).contains_key(id) && active(task_map(all.take(0))[id])),
        ));
        assert(sent(out@) + all_cancels(old(m)@.tokens, strings(ids@)) =~= sent(out@));
    }
    while i < m.tasks.len()
        invariant
            i <= all.len(),
            m.wf(),
            m.global_paused,
            m.global_cancelled == old(m).global_cancelled,
            m.tokens == old(m).tokens,
            m.sending == old(m).sending,
            m.batch == old(m).batch,
            m.batch_cancelled == old(m).batch_cancelled,
            all == old(m).tasks.sequence(),
            distinct_ids(all),
            m.tasks.sequence().len() == all.len(),
            f == (|t: TaskView| paused_if_queued(t)),
            p == (|t: TaskView| queued(t)),
            marked == old(m)@.paused,
            forall|j: int| 0 <= j < i ==> (#[trigger] m.tasks.sequence()[j])@ == f(all[j]@),
            forall|j: int| i <= j < all.len() ==> #[trigger] m.tasks.sequence()[j] == all[j],
            lists(strings(ids@), task_map(all.take(i as int)), p),
            m.paused@ == marked.union(
                Set::new(
                    |id: Seq<char>|
                        task_map(all.take(i as int)).contains_key(id) && active(task_map(all.take(i as int))[id]),
                ),
            ),
            sent(out@) == sent(old(out)@) + seq![Effect::Save] + all_cancels(old(m)@.tokens, strings(ids@)),
        decreases all.len() - i,
    {
        let task = m.tasks.at(i).clone();
        let ghost before = m.tasks.sequence();
        let ghost shorter = task_map(all.take(i as int));
        let ghost longer = task_map(all.take(i + 1));
        proof {
            assert(task == all[i as int]);
            lemma_prefix(all, i as int);
            assert(!shorter.contains_key(task.upload_id@));
            lemma_lists_step(strings(ids@), shorter, task.upload_id@, task@, p);
        }
        if is_active(&task) {
            m.paused.insert(&task.upload_id);
        }
        assert(m.paused@ =~= marked.union(
            Set::new(|id: Seq<char>| longer.contains_key(id) && active(longer[id])),
        ));
        if is_queued(&task) {
            match m.tokens.get(&task.upload_id) {
                Some(number) => {
                    send(out, Effect::CancelToken(number));
                },
                None => {},
            }
            let ghost ids_before = ids@;
            ids.push(task.upload_id.clone());
            proof {
                lemma_strings_push(ids_before, task.upload_id);
                assert(strings(ids@).drop_last() =~= strings(ids_before));
                assert(sent(out@) =~= sent(old(out)@) + seq![Effect::Save] + all_cancels(
                    old(m)@.tokens,
                    strings(ids@),
                ));
            }
            let mut stopped = task;
            stopped.status = TaskStatus::Paused;
            m.tasks.set_at(i, stopped);
        }
        assert(m.tasks.sequence()[i as int]@ == f(all[i as int]@));
        assert forall|j: int| 0 <= j < i implies (#[trigger] m.tasks.sequence()[j])@ == f(all[j]@) by {
            assert(before[j] == m.tasks.sequence()[j]);
        }
        i = i + 1;
    }
    proof {
        assert(all.take(i as int) == all);
        lemma_changed(all, m.tasks.sequence(), f);
        m.tasks.lemma_ids();
        assert(m@.paused =~= all_paused(old(m)@).paused);
    }
    send(out, Effect::Broadcast(Message::AllPaused));
    ids
}

/// A task that waits, runs or is paused becomes cancelled, and its error goes.
pub open spec fn cancelled_if_active(task: TaskView) -> TaskView {
    if active(task) {
        TaskView { status: TaskStatus::Cancelled, error: None, ..task }
    } else {
        task
    }
}

/// The ids of the tasks that wait, run or are paused.
pub open spec fn active_ids(tasks: Map<Seq<char>, TaskView>) -> Set<Seq<char>> {
    Set::new(|id: Seq<char>| tasks.contains_key(id) && active(tasks[id]))
}

/// The state after everything has been cancelled.
pub open spec fn all_cancelled(m: ManagerView) -> ManagerView {
    ManagerView {
        tasks: changed(m.tasks, |t: TaskView| cancelled_if_active(t)),
        tokens: m.tokens.remove_keys(active_ids(m.tasks)),
        paused: m.paused.difference(active_ids(m.tasks)),
        batch_cancelled: true,
        global_cancelled: true,
        ..m
    }
}

/// The backend is told to abort each of the uploads.
pub open spec fn aborts(ids: Seq<Seq<char>>) -> Seq<Effect<Seq<char>>> {
    ids.map_values(|id: Seq<char>| Effect::Abort(id))
}

/// The cancelling of each of the tasks is broadcast.
pub open spec fn cancel_messages(ids: Seq<Seq<char>>) -> Seq<Effect<Seq<char>>> {
    ids.map_values(|id: Seq<char>| Effect::Broadcast(Message::TaskCancelled { upload_id: id }))
}

/// Each of the tasks is to be resumed.
pub open spec fn resumes(ids: Seq<Seq<char>>) -> Seq<Effect<Seq<char>>> {
    ids.map_values(|id: Seq<char>| Effect::Resume(id))
}

/// Cancels the tasks that wait, run or are paused, in the store alone.
fn cancel_active(m: &mut Manager) -> (r: Vec<String>)
    requires
        old(m).wf(),
    ensures
        final(m).wf(),
        final(m)@ == (ManagerView {
            tasks: changed(old(m)@.tasks, |t: TaskView| cancelled_if_active(t)),
            ..old(m)@
        }),
        lists(strings(r@), old(m)@.tasks, |t: TaskView| active(t)),
{
    let ghost f = |t: TaskView| cancelled_if_active(t);
    let ghost p = |t: TaskView| active(t);
    let ghost all = m.tasks.sequence();
    let mut ids: Vec<String> = Vec::new();
    let mut i: usize = 0;
    proof {
        m.tasks.lemma_ids();
        lemma_no_tasks(all.take(0));
        lemma_lists_none(p);
        assert(strings(ids@) =~= Seq::<Seq<char>>::empty());
    }
    while i < m.tasks.len()
        invariant
            i <= all.len(),
            m.wf(),
            m@ == (ManagerView { tasks: m@.tasks, ..old(m)@ }),
            all == old(m).tasks.sequence(),
            distinct_ids(all),
            m.tasks.sequence().len() == all.len(),
            f == (|t: TaskView| cancelled_if_active(t)),
            p == (|t: TaskView| active(t)),
            forall|j: int| 0 <= j < i ==> (#[trigger] m.tasks.sequence()[j])@ == f(all[j]@),
            forall|j: int| i <= j < all.len() ==> #[trigger] m.tasks.sequence()[j] == all[j],
            lists(strings(ids@), task_map(all.take(i as int)), p),
        decreases all.len() - i,
    {
        let task = m.tasks.at(i).clone();
        let ghost before = m.tasks.sequence();
        let ghost shorter = task_map(all.take(i as int));
        proof {
            assert(task == all[i as int]);
            lemma_prefix(all, i as int);
            assert(!shorter.contains_key(task.upload_id@));
            lemma_lists_step(strings(ids@), shorter, task.upload_id@, task@, p);
        }
        if is_active(&task) {
            let ghost ids_before = ids@;
            ids.push(task.upload_id.clone());
            proof {
                lemma_strings_push(ids_before, task.upload_id);
            }
            let mut stopped = task;
            stopped.status = TaskStatus::Cancelled;
            stopped.error = None;
            m.tasks.set_at(i, stopped);
        }
        assert(m.tasks.sequence()[i as int]@ == f(all[i as int]@));
        assert forall|j: int| 0 <= j < i implies (#[trigger] m.tasks.sequence()[j])@ == f(all[j]@) by {
            assert(before[j] == m.tasks.sequence()[j]);
        }
        i = i + 1;
    }
    proof {
        assert(all.take(i as int) == all);
        lemma_changed(all, m.tasks.sequence(), f);
        m.tasks.lemma_ids();
    }
    ids
}

proof fn lemma_take_step<A>(s: Seq<A>, i: int)
    requires
        0 <= i < s.len(),
    ensures
        s.take(i + 1) == s.take(i).push(s[i]),
        s.take(i + 1).drop_last() == s.take(i),
        s.take(i + 1).last() == s[i],
{
    assert(s.take(i + 1) =~= s.take(i).push(s[i]));
    assert(s.take(i + 1).drop_last() =~= s.take(i));
}

/// Lets the tokens and the pause marks of some uploads go.
fn forget_uploads(m: &mut Manager, ids: &Vec<String>, out: &mut Vec<Effect<String>>)
    requires
        old(m).wf(),
        strings(ids@).no_duplicates(),
    ensures
        final(m).wf(),
        final(m)@ == (ManagerView {
            tokens: old(m)@.tokens.remove_keys(strings(ids@).to_set()),
            paused: old(m)@.paused.difference(strings(ids@).to_set()),
            ..old(m)@
        }),
        sent(final(out)@) == sent(old(out)@) + all_forgets(old(m)@.tokens, strings(ids@)),
{
    let ghost names = strings(ids@);
    let mut i: usize = 0;
    proof {
        assert(m.tokens@ =~= old(m)@.tokens.remove_keys(names.take(0).to_set()));
        assert(m.paused@ =~= old(m)@.paused.difference(names.take(0).to_set()));
        assert(sent(out@) =~= sent(old(out)@) + all_forgets(old(m)@.tokens, names.take(0)));
    }
    while i < ids.len()
        invariant
            i <= ids@.len(),
            names == strings(ids@),
            names.no_duplicates(),
            m.wf(),
            m@ == (ManagerView {
                tokens: old(m)@.tokens.remove_keys(names.take(i as int).to_set()),
                paused: old(m)@.paused.difference(names.take(i as int).to_set()),
                ..old(m)@
            }),
            sent(out@) == sent(old(out)@) + all_forgets(old(m)@.tokens, names.take(i as int)),
        decreases ids@.len() - i,
    {
        let ghost done = names.take(i as int);
        let ghost next = names.take(i + 1);
        proof {
            lemma_take_step(names, i as int);
            assert(names[i as int] == ids@[i as int]@);
            assert(!done.contains(names[i as int])) by {
                if done.contains(names[i as int]) {
                    let j = choose|j: int| 0 <= j < done.len() && done[j] == names[i as int];
                    assert(names[j] == names[i as int]);
                }
            }
            assert forall|k: Seq<char>| #[trigger] next.to_set().contains(k) <==> done.to_set().contains(k) || k
                == names[i as int] by {
                if done.contains(k) {
                    let j = choose|j: int| 0 <= j < done.len() && done[j] == k;
                    assert(next[j] == k);
                }
                if k == names[i as int] {
                    assert(next[i as int] == k);
                }
            }
        }
        remove_cancel_token(m, &ids[i], out);
        m.paused.remove(&ids[i]);
        proof {
            assert(m.tokens@ =~= old(m)@.tokens.remove_keys(next.to_set()));
            assert(m.paused@ =~= old(m)@.paused.difference(next.to_set()));
            assert(sent(out@) =~= sent(old(out)@) + all_forgets(old(m)@.tokens, next));
        }
        i = i + 1;
    }
    assert(names.take(i as int) =~= names);
}

/// Cancels every task that waits, runs or is paused, with the batch that was begun last, and keeps
/// uploads from starting. The ids of the tasks that were cancelled are given back.
pub fn cancel_all_tasks(m: &mut Manager, out: &mut Vec<Effect<String>>) -> (r: Vec<String>)
    requires
        old(m).wf(),
    ensures
        final(m).wf(),
        final(m)@ == all_cancelled(old(m)@),
        lists(strings(r@), old(m)@.tasks, |t: TaskView| active(t)),
        sent(final(out)@) == sent(old(out)@) + seq![Effect::CancelBatch(old(m)@.batch), Effect::Save] + all_cancels(
            old(m)@.tokens,
            strings(r@),
        ) + all_forgets(old(m)@.tokens, strings(r@)) + aborts(strings(r@)) + cancel_messages(strings(r@)),
{
    m.global_cancelled = true;
    m.batch_cancelled = true;
    send(out, Effect::CancelBatch(m.batch));
    let ids = cancel_active(m);
    let ghost names = strings(ids@);
    send(out, Effect::Save);
    let ghost head = sent(out@);
    proof {
        assert(head =~= sent(old(out)@) + seq![Effect::CancelBatch(old(m)@.batch), Effect::Save]);
    }
    let mut i: usize = 0;
    assert(sent(out@) =~= head + all_cancels(old(m)@.tokens, names.take(0)));
    while i < ids.len()
        invariant
            i <= ids@.len(),
            names == strings(ids@),
            m.wf(),
            m.tokens@ == old(m)@.tokens,
            sent(out@) == head + all_cancels(old(m)@.tokens, names.take(i as int)),
        decreases ids@.len() - i,
    {
        proof {
            lemma_take_step(names, i as int);
            assert(names[i as int] == ids@[i as int]@);
        }
        match m.tokens.get(&ids[i]) {
            Some(number) => {
                send(out, Effect::CancelToken(number));
            },
            None => {},
        }
        assert(sent(out@) =~= head + all_cancels(old(m)@.tokens, names.take(i + 1)));
        i = i + 1;
    }
    assert(names.take(i as int) =~= names);
    forget_uploads(m, &ids, out);
    let ghost middle = sent(out@);
    let mut j: usize = 0;
    assert(sent(out@) =~= middle + aborts(names.take(0)));
    while j < ids.len()
        invariant
            j <= ids@.len(),
            names == strings(ids@),
            sent(out@) == middle + aborts(names.take(j as int)),
        decreases ids@.len() - j,
    {
        proof {
            lemma_take_step(names, j as int);
            assert(names[j as int] == ids@[j as int]@);
        }
        send(out, Effect::Abort(ids[j].clone()));
        assert(sent(out@) =~= middle + aborts(names.take(j + 1)));
        j = j + 1;
    }
    assert(names.take(j as int) =~= names);
    let mut k: usize = 0;
    assert(sent(out@) =~= middle + aborts(names) + cancel_messages(names.take(0)));
    while k < ids.len()
        invariant
            k <= ids@.len(),
            names == strings(ids@),
            sent(out@) == middle + aborts(names) + cancel_messages(names.take(k as int)),
        decreases ids@.len() - k,
    {
        proof {
            lemma_take_step(names, k as int);
            assert(names[k as int] == ids@[k as int]@);
        }
        send(out, Effect::Broadcast(Message::TaskCancelled { upload_id: ids[k].clone() }));
        assert(sent(out@) =~= middle + aborts(names) + cancel_messages(names.take(k + 1)));
        k = k + 1;
    }
    assert(names.take(k as int) =~= names);
    proof {
        let chosen = active_ids(old(m)@.tasks);
        assert forall|id: Seq<char>| #[trigger] names.to_set().contains(id) <==> chosen.contains(id) by {
            assert(names.contains(id) <==> old(m)@.tasks.contains_key(id) && active(old(m)@.tasks[id]));
        }
        assert(names.to_set() =~= chosen);
    }
    ids
}

/// The task is paused, if it waited.
pub open spec fn paused_if_pending(task: TaskView) -> TaskView {
    if task.status == TaskStatus::Pending {
        TaskView { status: TaskStatus::Paused, ..task }
    } else {
        task
    }
}

/// The ids of the tasks that wait or are paused.
pub open spec fn held_ids(tasks: Map<Seq<char>, TaskView>) -> Set<Seq<char>> {
    Set::new(|id: Seq<char>| tasks.contains_key(id) && held(tasks[id]))
}

/// The state after everything has been told to resume.
pub open spec fn all_resumed(m: ManagerView) -> ManagerView {
    ManagerView {
        tasks: changed(m.tasks, |t: TaskView| paused_if_pending(t)),
        paused: m.paused.difference(held_ids(m.tasks)),
        global_paused: false,
        ..m
    }
}

/// Lets uploads start again, and has every task that waits or is paused resumed. The ids of those
/// tasks are given back.
pub fn resume_all_tasks(m: &mut Manager, out: &mut Vec<Effect<String>>) -> (r: Vec<String>)
    requires
        old(m).wf(),
    ensures
        final(m).wf(),
        final(m)@ == all_resumed(old(m)@),
        lists(strings(r@), old(m)@.tasks, |t: TaskView| held(t)),
        sent(final(out)@) == sent(old(out)@) + seq![Effect::Save, Effect::Broadcast(Message::AllResumed)] + resumes(
            strings(r@),
        ),
{
    m.global_paused = false;
    let ghost f = |t: TaskView| paused_if_pending(t);
    let ghost p = |t: TaskView| held(t);
    let ghost all = m.tasks.sequence();
    let ghost marked = old(m)@.paused;
    let mut ids: Vec<String> = Vec::new();
    let mut i: usize = 0;
    proof {
        m.tasks.lemma_ids();
        lemma_no_tasks(all.take(0));
        lemma_lists_none(p);
        assert(strings(ids@) =~= Seq::<Seq<char>>::empty());
        assert(m.paused@ =~= marked.difference(held_ids(task_map(all.take(0)))));
    }
    while i < m.tasks.len()
        invariant
            i <= all.len(),
            m.wf(),
            !m.global_paused,
            m.global_cancelled == old(m).global_cancelled,
            m.tokens == old(m).tokens,
            m.sending == old(m).sending,
            m.batch == old(m).batch,
            m.batch_cancelled == old(m).batch_cancelled,
            all == old(m).tasks.sequence(),
            distinct_ids(all),
            m.tasks.sequence().len() == all.len(),
            f == (|t: TaskView| paused_if_pending(t)),
            p == (|t: TaskView| held(t)),
            marked == old(m)@.paused,
            forall|j: int| 0 <= j < i ==> (#[trigger] m.tasks.sequence()[j])@ == f(all[j]@),
            forall|j: int| i <= j < all.len() ==> #[trigger] m.tasks.sequence()[j] == all[j],
            lists(strings(ids@), task_map(all.take(i as int)), p),
            m.paused@ == marked.difference(held_ids(task_map(all.take(i as int)))),
        decreases all.len() - i,
    {
        let task = m.tasks.at(i).clone();
        let ghost before = m.tasks.sequence();
        let ghost shorter = task_map(all.take(i as int));
        let ghost longer = task_map(all.take(i + 1));
        proof {
            assert(task == all[i as int]);
            lemma_prefix(all, i as int);
            assert(!shorter.contains_key(task.upload_id@));
            lemma_lists_step(strings(ids@), shorter, task.upload_id@, task@, p);
        }
        if task.status == TaskStatus::Paused || task.status == TaskStatus::Pending {
            m.paused.remove(&task.upload_id);
            let ghost ids_before = ids@;
            ids.push(task.upload_id.clone());
            proof {
                lemma_strings_push(ids_before, task.upload_id);
            }
            if task.status == TaskStatus::Pending {
                let mut stopped = task;
                stopped.status = TaskStatus::Paused;
                m.tasks.set_at(i, stopped);
            }
        }
        assert(m.paused@ =~= marked.difference(held_ids(longer)));
        assert(m.tasks.sequence()[i as int]@ == f(all[i as int]@));
        assert forall|j: int| 0 <= j < i implies (#[trigger] m.tasks.sequence()[j])@ == f(all[j]@) by {
            assert(before[j] == m.tasks.sequence()[j]);
        }
        i = i + 1;
    }
    proof {
        assert(all.take(i as int) == all);
        lemma_changed(all, m.tasks.sequence(), f);
        m.tasks.lemma_ids();
    }
    send(out, Effect::Save);
    send(out, Effect::Broadcast(Message::AllResumed));
    send_resumes(&ids, out);
    assert(sent(out@) =~= sent(old(out)@) + seq![Effect::Save, Effect::Broadcast(Message::AllResumed)] + resumes(
        strings(ids@),
    ));
    ids
}

fn send_resumes(ids: &Vec<String>, out: &mut Vec<Effect<String>>)
    ensures
        sent(final(out)@) == sent(old(out)@) + resumes(strings(ids@)),
{
    let ghost names = strings(ids@);
    let mut i: usize = 0;
    assert(sent(out@) =~= sent(old(out)@) + resumes(names.take(0)));
    while i < ids.len()
        invariant
            i <= ids@.len(),
            names == strings(ids@),
            sent(out@) == sent(old(out)@) + resumes(names.take(i as int)),
        decreases ids@.len() - i,
    {
        proof {
            lemma_take_step(names, i as int);
            assert(names[i as int] == ids@[i as int]@);
        }
        send(out, Effect::Resume(ids[i].clone()));
        assert(sent(out@) =~= sent(old(out)@) + resumes(names.take(i + 1)));
        i = i + 1;
    }
    assert(names.take(i as int) =~= names);
}

/// The task of the user was waiting or running, and has a file.
pub open spec fn interrupted(task: TaskView, user: Seq<char>) -> bool {
    owned(task, user) && task.file_path is Some && queued(task)
}

/// A task that was interrupted is paused where its file is there, and failed where it is not.
pub open spec fn revived(task: TaskView, user: Seq<char>, present: Seq<Seq<char>>) -> TaskView {
    if !interrupted(task, user) {
        task
    } else if present.contains(task.file_path->0) {
        TaskView { status: TaskStatus::Paused, error: None, ..task }
    } else {
        TaskView { status: TaskStatus::Failed, error: Some(file_missing()), ..task }
    }
}

/// The state after the interrupted tasks have been looked through; `present` are the paths at
/// which there is a file.
pub open spec fn pending_resumed(m: ManagerView, user: Seq<char>, present: Seq<Seq<char>>) -> ManagerView {
    ManagerView {
        tasks: changed(m.tasks, |t: TaskView| revived(t, user, present)),
        global_paused: false,
        global_cancelled: false,
        ..m
    }
}

/// The store is written this many times.
pub open spec fn saves(n: nat) -> Seq<Effect<Seq<char>>> {
    Seq::new(n, |i: int| Effect::Save)
}

fn contains_string(list: &Vec<String>, s: &str) -> (r: bool)
    ensures
        r == strings(list@).contains(s@),
{
    let mut i: usize = 0;
    while i < list.len()
        invariant
            i <= list@.len(),
            forall|j: int| 0 <= j < i ==> strings(list@)[j] != s@,
        decreases list@.len() - i,
    {
        if same(&list[i], s) {
            assert(strings(list@)[i as int] == s@);
            return true;
        }
        i = i + 1;
    }
    false
}

/// The ids of some tasks, the newest first.
pub open spec fn ids_newest_first(ids: Seq<Seq<char>>, tasks: Map<Seq<char>, TaskView>) -> bool {
    forall|i: int, j: int|
        0 <= i < j < ids.len() ==> tasks[#[trigger] ids[i]].created_at >= tasks[#[trigger] ids[j]].created_at
}

/// None of the tasks with these ids is older than one of the rest.
spec fn none_older(ids: Seq<Seq<char>>, tasks: Map<Seq<char>, TaskView>, rest: Seq<TransferTask>) -> bool {
    forall|i: int, j: int|
        0 <= i < ids.len() && 0 <= j < rest.len() ==> tasks[#[trigger] ids[i]].created_at >= (
        #[trigger] rest[j]).created_at
}

proof fn lemma_newest_push(
    ids: Seq<Seq<char>>,
    tasks: Map<Seq<char>, TaskView>,
    list: Seq<TransferTask>,
    at: int,
)
    requires
        0 <= at < list.len(),
        newest_first(list),
        ids_newest_first(ids, tasks),
        none_older(ids, tasks, list.skip(at)),
        tasks[list[at].upload_id@] == list[at]@,
    ensures
        ids_newest_first(ids.push(list[at].upload_id@), tasks),
        none_older(ids.push(list[at].upload_id@), tasks, list.skip(at)),
{
    assert(list.skip(at)[0] == list[at]);
    let more = ids.push(list[at].upload_id@);
    assert forall|i: int, j: int| 0 <= i < more.len() && 0 <= j < list.skip(at).len() implies tasks[#[trigger] more[i]].created_at
        >= (#[trigger] list.skip(at)[j]).created_at by {
        if i == ids.len() {
            assert(list.skip(at)[j] == list[at + j]);
        } else {
            assert(more[i] == ids[i]);
        }
    }
    assert forall|i: int, j: int| 0 <= i < j < more.len() implies tasks[#[trigger] more[i]].created_at >= tasks[
    #[trigger] more[j]].created_at by {
        assert(more[i] == ids[i]);
        if j < ids.len() {
            assert(more[j] == ids[j]);
        } else {
            assert(tasks[ids[i]].created_at >= list.skip(at)[0].created_at);
        }
    }
}

proof fn lemma_newest_skip(
    ids: Seq<Seq<char>>,
    tasks: Map<Seq<char>, TaskView>,
    list: Seq<TransferTask>,
    at: int,
)
    requires
        0 <= at < list.len(),
        none_older(ids, tasks, list.skip(at)),
    ensures
        none_older(ids, tasks, list.skip(at + 1)),
{
    assert forall|i: int, j: int| 0 <= i < ids.len() && 0 <= j < list.skip(at + 1).len() implies tasks[#[trigger] ids[i]].created_at
        >= (#[trigger] list.skip(at + 1)[j]).created_at by {
        assert(list.skip(at)[j + 1] == list.skip(at + 1)[j]);
    }
}

/// Takes up the user's tasks that were waiting or running when the client stopped. `present` are
/// the paths at which there is a file. The ids of the tasks that are resumed and of those whose
/// file is gone are given back, each the newest first.
pub fn resume_pending_tasks(
    m: &mut Manager,
    user_id: &str,
    present: &Vec<String>,
    out: &mut Vec<Effect<String>>,
) -> (r: (Vec<String>, Vec<String>))
    requires
        old(m).wf(),
    ensures
        final(m).wf(),
        final(m)@ == pending_resumed(old(m)@, user_id@, strings(present@)),
        lists(
            strings(r.0@),
            old(m)@.tasks,
            |t: TaskView| interrupted(t, user_id@) && strings(present@).contains(t.file_path->0),
        ),
        lists(
            strings(r.1@),
            old(m)@.tasks,
            |t: TaskView| interrupted(t, user_id@) && !strings(present@).contains(t.file_path->0),
        ),
        ids_newest_first(strings(r.0@), old(m)@.tasks),
        ids_newest_first(strings(r.1@), old(m)@.tasks),
        sent(final(out)@) == sent(old(out)@) + saves((r.0@.len() + r.1@.len()) as nat) + resumes(strings(r.0@)),
{
    m.global_paused = false;
    m.global_cancelled = false;
    let list = get_all_tasks(m, user_id);
    let ghost there = strings(present@);
    let ghost f = |t: TaskView| revived(t, user_id@, there);
    let ghost p = |t: TaskView| interrupted(t, user_id@) && there.contains(t.file_path->0);
    let ghost q = |t: TaskView| interrupted(t, user_id@) && !there.contains(t.file_path->0);
    let ghost start = old(m)@.tasks;
    let mut resumed: Vec<String> = Vec::new();
    let mut failed: Vec<String> = Vec::new();
    let mut i: usize = 0;
    proof {
        m.tasks.lemma_ids();
        lemma_no_tasks(list@.take(0));
        lemma_lists_none(p);
        lemma_lists_none(q);
        assert(strings(resumed@) =~= Seq::<Seq<char>>::empty());
        assert(strings(failed@) =~= Seq::<Seq<char>>::empty());
        assert(m.tasks@ =~= partly_changed(start, task_map(list@.take(0)), f));
        assert(sent(out@) =~= sent(old(out)@) + saves(0));
    }
    while i < list.len()
        invariant
            i <= list@.len(),
            m.wf(),
            newest_first(list@),
            ids_newest_first(strings(resumed@), start),
            ids_newest_first(strings(failed@), start),
            none_older(strings(resumed@), start, list@.skip(i as int)),
            none_older(strings(failed@), start, list@.skip(i as int)),
            distinct_ids(list@),
            there == strings(present@),
            start == old(m)@.tasks,
            task_map(list@) == restricted(start, |t: TaskView| owned(t, user_id@)),
            f == (|t: TaskView| revived(t, user_id@, there)),
            p == (|t: TaskView| interrupted(t, user_id@) && there.contains(t.file_path->0)),
            q == (|t: TaskView| interrupted(t, user_id@) && !there.contains(t.file_path->0)),
            m@ == (ManagerView {
                tasks: partly_changed(start, task_map(list@.take(i as int)), f),
                global_paused: false,
                global_cancelled: false,
                ..old(m)@
            }),
            lists(strings(resumed@), task_map(list@.take(i as int)), p),
            lists(strings(failed@), task_map(list@.take(i as int)), q),
            sent(out@) == sent(old(out)@) + saves((resumed@.len() + failed@.len()) as nat),
        decreases list@.len() - i,
    {
        let task = &list[i];
        let ghost id = task.upload_id@;
        let ghost shorter = task_map(list@.take(i as int));
        let ghost longer = task_map(list@.take(i + 1));
        let ghost writes = (resumed@.len() + failed@.len()) as nat;
        proof {
            lemma_prefix(list@, i as int);
            lemma_task_at(list@, i as int);
            assert(start.contains_key(id) && start[id] == task@);
            assert(!shorter.contains_key(id));
            lemma_lists_step(strings(resumed@), shorter, id, task@, p);
            lemma_lists_step(strings(failed@), shorter, id, task@, q);
            assert(saves(writes).push(Effect::Save) =~= saves(writes + 1));
        }
        match &task.file_path {
            Some(path) => {
                if is_queued(task) {
                    if contains_string(present, path) {
                        update_task_status(m, &task.upload_id, TaskStatus::Paused, None, out);
                        let ghost ids_before = resumed@;
                        resumed.push(task.upload_id.clone());
                        proof {
                            lemma_strings_push(ids_before, task.upload_id);
                            lemma_newest_push(strings(ids_before), start, list@, i as int);
                        }
                    } else {
                        update_task_status(
                            m,
                            &task.upload_id,
                            TaskStatus::Failed,
                            Some("文件不存在，无法续传".to_string()),
                            out,
                        );
                        let ghost ids_before = failed@;
                        failed.push(task.upload_id.clone());
                        proof {
                            lemma_strings_push(ids_before, task.upload_id);
                            lemma_newest_push(strings(ids_before), start, list@, i as int);
                        }
                    }
                }
            },
            None => {},
        }
        proof {
            lemma_newest_skip(strings(resumed@), start, list@, i as int);
            lemma_newest_skip(strings(failed@), start, list@, i as int);
        }
        assert(m.tasks@ =~= partly_changed(start, longer, f));
        assert(sent(out@) =~= sent(old(out)@) + saves((resumed@.len() + failed@.len()) as nat));
        i = i + 1;
    }
    proof {
        assert(list@.take(i as int) =~= list@);
        assert(m.tasks@ =~= changed(start, f));
        assert(lists(strings(resumed@), start, p)) by {
            assert forall|id: Seq<char>| #[trigger] strings(resumed@).contains(id) <==> start.contains_key(id) && p(
                start[id],
            ) by {
            }
        }
        assert(lists(strings(failed@), start, q)) by {
            assert forall|id: Seq<char>| #[trigger] strings(failed@).contains(id) <==> start.contains_key(id) && q(
                start[id],
            ) by {
            }
        }
    }
    send_resumes(&resumed, out);
    (resumed, failed)
}

/// The tasks, those with an id in `done` changed by `f`.
pub open spec fn partly_changed(
    tasks: Map<Seq<char>, TaskView>,
    done: Map<Seq<char>, TaskView>,
    f: spec_fn(TaskView) -> TaskView,
) -> Map<Seq<char>, TaskView> {
    Map::new(
        |id: Seq<char>| tasks.contains_key(id),
        |id: Seq<char>|
            if done.contains_key(id) {
                f(tasks[id])
            } else {
                tasks[id]
            },
    )
}

/// The task of the user waits with its file, though no batch will take it up.
pub open spec fn orphaned(task: TaskView, user: Seq<char>) -> bool {
    task.status == TaskStatus::Pending && task.file_path is Some && owned(task, user)
}

/// Has the user's tasks that were left waiting resumed, unless everything is paused or cancelled.
pub fn resume_orphaned_tasks(m: &Manager, user_id: &str, out: &mut Vec<Effect<String>>) -> (r: Vec<String>)
    requires
        m.wf(),
    ensures
        if m@.global_paused || m@.global_cancelled {
            r@.len() == 0
        } else {
            lists(strings(r@), m@.tasks, |t: TaskView| orphaned(t, user_id@))
        },
        sent(final(out)@) == sent(old(out)@) + resumes(strings(r@)),
{
    let ghost p = |t: TaskView| orphaned(t, user_id@);
    let ghost all = m.tasks.sequence();
    let mut ids: Vec<String> = Vec::new();
    if m.global_paused || m.global_cancelled {
        assert(sent(out@) =~= sent(old(out)@) + resumes(strings(ids@)));
        return ids;
    }
    let mut i: usize = 0;
    proof {
        m.tasks.lemma_ids();
        lemma_no_tasks(all.take(0));
        lemma_lists_none(p);
        assert(strings(ids@) =~= Seq::<Seq<char>>::empty());
    }
    while i < m.tasks.len()
        invariant
            i <= all.len(),
            m.wf(),
            all == m.tasks.sequence(),
            distinct_ids(all),
            p == (|t: TaskView| orphaned(t, user_id@)),
            lists(strings(ids@), task_map(all.take(i as int)), p),
        decreases all.len() - i,
    {
        let task = m.tasks.at(i);
        proof {
            lemma_prefix(all, i as int);
            lemma_lists_step(strings(ids@), task_map(all.take(i as int)), task.upload_id@, task@, p);
        }
        if task.status == TaskStatus::Pending && task.file_path.is_some() && is_owned(task, user_id) {
            let ghost ids_before = ids@;
            ids.push(task.upload_id.clone());
            proof {
                lemma_strings_push(ids_before, task.upload_id);
            }
        }
        i = i + 1;
    }
    assert(all.take(i as int) == all);
    send_resumes(&ids, out);
    ids
}

/// A task that waits, runs or is paused is cancelled, whichever of the three it was, and keeps everything
/// else that it holds; so no worker starts it and it cannot be resumed. Its token and its pause mark go.
/// Any other task, and everything else, stays.
pub proof fn law_cancelled_is_cancelled(m: ManagerView, id: Seq<char>, other: Seq<char>)
    requires
        m.tasks.contains_key(id),
    ensures
        ({
            let status = m.tasks[id].status;
            let after = task_cancelled(m, id);
            &&& status == TaskStatus::Pending || status == TaskStatus::Running || status == TaskStatus::Paused ==> {
                &&& after.tasks.contains_key(id)
                &&& after.tasks[id].status == TaskStatus::Cancelled
                &&& after.tasks[id] == (TaskView { status: after.tasks[id].status, ..m.tasks[id] })
                &&& super::worker::taken(after, id)
                &&& !resumable(after.tasks[id])
                &&& task_resumed(after, id, true) == after
                &&& !after.tokens.contains_key(id)
                &&& !after.paused.contains(id)
            }
            &&& status == TaskStatus::Completed || status == TaskStatus::Failed || status == TaskStatus::Cancelled
                ==> after == m
            &&& other != id ==> after.tasks.contains_key(other) == m.tasks.contains_key(other)
            &&& other != id && m.tasks.contains_key(other) ==> after.tasks[other] == m.tasks[other]
            &&& other != id ==> after.paused.contains(other) == m.paused.contains(other)
            &&& other != id ==> after.tokens.contains_key(other) == m.tokens.contains_key(other)
            &&& other != id && m.tokens.contains_key(other) ==> after.tokens[other] == m.tokens[other]
            &&& after == (ManagerView { tasks: after.tasks, tokens: after.tokens, paused: after.paused, ..m })
        }),
        !m.tasks.contains_key(other) ==> task_cancelled(m, other) == m,
{
}

/// A task that waits or runs is paused and known to be, and keeps everything else that it holds; it can be
/// resumed. Any other task, and everything else, stays; what is not under way cannot be paused.
pub proof fn law_paused_is_paused(m: ManagerView, id: Seq<char>, other: Seq<char>)
    requires
        m.tasks.contains_key(id),
    ensures
        ({
            let status = m.tasks[id].status;
            let after = task_paused(m, id);
            &&& status == TaskStatus::Pending || status == TaskStatus::Running ==> {
                &&& after.tasks.contains_key(id)
                &&& after.tasks[id].status == TaskStatus::Paused
                &&& after.tasks[id] == (TaskView { status: after.tasks[id].status, ..m.tasks[id] })
                &&& after.paused.contains(id)
                &&& resumable(after.tasks[id])
            }
            &&& status != TaskStatus::Pending && status != TaskStatus::Running ==> after == m
            &&& other != id ==> after.tasks.contains_key(other) == m.tasks.contains_key(other)
            &&& other != id && m.tasks.contains_key(other) ==> after.tasks[other] == m.tasks[other]
            &&& other != id ==> after.paused.contains(other) == m.paused.contains(other)
            &&& after == (ManagerView { tasks: after.tasks, paused: after.paused, ..m })
        }),
        !m.tasks.contains_key(other) ==> task_paused(m, other) == m,
{
}

/// A task that is paused, failed or waits is resumed: it waits, with its retries counted anew, and is no
/// longer held back. Where its file is gone it has failed, with the reason. What runs, is complete or was
/// cancelled is not resumed. Any other task, and everything else, stays.
pub proof fn law_resumed_is_resumed(m: ManagerView, id: Seq<char>, present: bool, other: Seq<char>)
    requires
        m.tasks.contains_key(id),
    ensures
        ({
            let status = m.tasks[id].status;
            let after = task_resumed(m, id, present);
            let may = status == TaskStatus::Paused || status == TaskStatus::Failed || status == TaskStatus::Pending;
            let gone = m.tasks[id].file_path is Some && !present;
            &&& may ==> {
                &&& after.tasks.contains_key(id)
                &&& after.tasks[id].retry_count == 0
                &&& after.tasks[id].status == if gone {
                    TaskStatus::Failed
                } else {
                    TaskStatus::Pending
                }
                &&& after.tasks[id].error == if gone {
                    Some("文件不存在，无法续传"@)
                } else {
                    m.tasks[id].error
                }
                &&& after.tasks[id] == (TaskView {
                    status: after.tasks[id].status,
                    error: after.tasks[id].error,
                    retry_count: 0,
                    ..m.tasks[id]
                })
                &&& !after.paused.contains(id)
                &&& !after.tokens.contains_key(id)
            }
            &&& !may ==> after == m
            &&& other != id ==> after.tasks.contains_key(other) == m.tasks.contains_key(other)
            &&& other != id && m.tasks.contains_key(other) ==> after.tasks[other] == m.tasks[other]
            &&& other != id ==> after.paused.contains(other) == m.paused.contains(other)
            &&& other != id ==> after.tokens.contains_key(other) == m.tokens.contains_key(other)
            &&& other != id && m.tokens.contains_key(other) ==> after.tokens[other] == m.tokens[other]
            &&& after == (ManagerView { tasks: after.tasks, tokens: after.tokens, paused: after.paused, ..m })
        }),
        !m.tasks.contains_key(other) ==> task_resumed(m, other, present) == m,
{
}

/// When everything is paused, the tasks that wait or run are paused and keep everything else, the others
/// stay, and no upload starts; known to be paused are those and the ones that were paused.
pub proof fn law_all_is_paused(m: ManagerView, id: Seq<char>)
    ensures
        ({
            let after = all_paused(m);
            let status = m.tasks[id].status;
            &&& after.tasks.contains_key(id) == m.tasks.contains_key(id)
            &&& m.tasks.contains_key(id) && (status == TaskStatus::Pending || status == TaskStatus::Running)
                ==> after.tasks[id] == (TaskView { status: TaskStatus::Paused, ..m.tasks[id] })
            &&& m.tasks.contains_key(id) && status != TaskStatus::Pending && status != TaskStatus::Running
                ==> after.tasks[id] == m.tasks[id]
            &&& after.paused.contains(id) <==> m.paused.contains(id) || (m.tasks.contains_key(id) && (status
                == TaskStatus::Pending || status == TaskStatus::Running || status == TaskStatus::Paused))
            &&& after.global_paused
            &&& after == (ManagerView { tasks: after.tasks, paused: after.paused, global_paused: true, ..m })
        }),
{
}

/// When everything is resumed, uploads may start again; the tasks that wait or are paused are no longer
/// held back, and each can be resumed. The others stay.
pub proof fn law_all_is_resumed(m: ManagerView, id: Seq<char>)
    ensures
        ({
            let after = all_resumed(m);
            let status = m.tasks[id].status;
            &&& after.tasks.contains_key(id) == m.tasks.contains_key(id)
            &&& m.tasks.contains_key(id) && status == TaskStatus::Pending ==> after.tasks[id] == (TaskView {
                status: TaskStatus::Paused,
                ..m.tasks[id]
            })
            &&& m.tasks.contains_key(id) && status != TaskStatus::Pending ==> after.tasks[id] == m.tasks[id]
            &&& m.tasks.contains_key(id) && (status == TaskStatus::Pending || status == TaskStatus::Paused) ==> {
                &&& !after.paused.contains(id)
                &&& task_resumed(after, id, true).tasks[id].status == TaskStatus::Pending
            }
            &&& !(m.tasks.contains_key(id) && (status == TaskStatus::Pending || status == TaskStatus::Paused))
                ==> after.paused.contains(id) == m.paused.contains(id)
            &&& !after.global_paused
            &&& after == (ManagerView { tasks: after.tasks, paused: after.paused, global_paused: false, ..m })
        }),
{
}

/// When everything is cancelled, the tasks that wait, run or are paused are cancelled, without an error,
/// and keep everything else; their tokens and pause marks go. The others stay, and so does the number of
/// the batch, which is cancelled.
pub proof fn law_all_is_cancelled(m: ManagerView, id: Seq<char>)
    ensures
        ({
            let after = all_cancelled(m);
            let status = m.tasks[id].status;
            let hit = m.tasks.contains_key(id) && (status == TaskStatus::Pending || status == TaskStatus::Running
                || status == TaskStatus::Paused);
            &&& after.tasks.contains_key(id) == m.tasks.contains_key(id)
            &&& hit ==> after.tasks[id] == (TaskView { status: TaskStatus::Cancelled, error: None, ..m.tasks[id] })
            &&& m.tasks.contains_key(id) && !hit ==> after.tasks[id] == m.tasks[id]
            &&& hit ==> !after.tokens.contains_key(id) && !after.paused.contains(id)
            &&& !hit ==> after.paused.contains(id) == m.paused.contains(id)
            &&& !hit ==> after.tokens.contains_key(id) == m.tokens.contains_key(id)
            &&& !hit && m.tokens.contains_key(id) ==> after.tokens[id] == m.tokens[id]
            &&& after.global_cancelled
            &&& after.batch_cancelled
            &&& after.batch == m.batch
            &&& after.global_paused == m.global_paused
            &&& after.sending == m.sending
        }),
{
}

/// At the start the user's tasks that waited or ran with a file are taken up: paused, to be resumed, where
/// the file is there, and failed, with the reason, where it is not. The others stay, and uploads may start.
pub proof fn law_interrupted_tasks(m: ManagerView, user: Seq<char>, present: Seq<Seq<char>>, id: Seq<char>)
    requires
        m.tasks.contains_key(id),
    ensures
        ({
            let task = m.tasks[id];
            let after = pending_resumed(m, user, present);
            let hit = (task.user_id is None || task.user_id == Some(user)) && task.file_path is Some && (task.status
                == TaskStatus::Pending || task.status == TaskStatus::Running);
            &&& interrupted(task, user) <==> hit
            &&& after.tasks.contains_key(id)
            &&& hit && present.contains(task.file_path->0) ==> after.tasks[id] == (TaskView {
                status: TaskStatus::Paused,
                error: None,
                ..task
            })
            &&& hit && !present.contains(task.file_path->0) ==> after.tasks[id] == (TaskView {
                status: TaskStatus::Failed,
                error: Some("文件不存在，无法续传"@),
                ..task
            })
            &&& !hit ==> after.tasks[id] == task
            &&& !after.global_paused
            &&& !after.global_cancelled
            &&& after == (ManagerView { tasks: after.tasks, global_paused: false, global_cancelled: false, ..m })
        }),
        orphaned(m.tasks[id], user) <==> m.tasks[id].status == TaskStatus::Pending && m.tasks[id].file_path is Some && (
        m.tasks[id].user_id is None || m.tasks[id].user_id == Some(user)),
{
}

/// What is done for several uploads is done for each of them, in their order, and for no other.
pub proof fn law_done_for_each(ids: Seq<Seq<char>>, i: int)
    requires
        0 <= i < ids.len(),
    ensures
        aborts(ids).len() == ids.len(),
        aborts(ids)[i] == Effect::Abort(ids[i]),
        cancel_messages(ids).len() == ids.len(),
        cancel_messages(ids)[i] == Effect::Broadcast(Message::TaskCancelled { upload_id: ids[i] }),
        resumes(ids).len() == ids.len(),
        resumes(ids)[i] == Effect::Resume(ids[i]),
        saves(ids.len()).len() == ids.len(),
        saves(ids.len())[i] == Effect::<Seq<char>>::Save,
{
}

/// The tokens that are fired, and those that are let go, are those of the uploads in question that have
/// one, and no others.
pub proof fn law_tokens_of_the_uploads(tokens: Map<Seq<char>, u64>, ids: Seq<Seq<char>>, effect: Effect<Seq<char>>)
    ensures
        all_cancels(tokens, ids).contains(effect) <==> exists|i: int|
            0 <= i < ids.len() && tokens.contains_key(#[trigger] ids[i]) && effect == Effect::<Seq<char>>::CancelToken(
                tokens[ids[i]],
            ),
        all_forgets(tokens, ids).contains(effect) <==> exists|i: int|
            0 <= i < ids.len() && tokens.contains_key(#[trigger] ids[i]) && effect == Effect::<Seq<char>>::ForgetToken(
                tokens[ids[i]],
            ),
    decreases ids.len(),
{
    if ids.len() > 0 {
        let fewer = ids.drop_last();
        let last = ids.last();
        law_tokens_of_the_uploads(tokens, fewer, effect);
        assert(ids[ids.len() - 1] == last);
        lemma_contains_add(all_cancels(tokens, fewer), cancels(tokens, last), effect);
        lemma_contains_add(all_forgets(tokens, fewer), forgets(tokens, last), effect);
        if tokens.contains_key(last) {
            assert(cancels(tokens, last)[0] == Effect::<Seq<char>>::CancelToken(tokens[last]));
            assert(forgets(tokens, last)[0] == Effect::<Seq<char>>::ForgetToken(tokens[last]));
        }
        assert forall|i: int| 0 <= i < fewer.len() implies #[trigger] fewer[i] == ids[i] by {
        }
        if exists|i: int|
            0 <= i < ids.len() && tokens.contains_key(#[trigger] ids[i]) && effect == Effect::<Seq<char>>::CancelToken(
                tokens[ids[i]],
            ) {
            let i = choose|i: int|
                0 <= i < ids.len() && tokens.contains_key(#[trigger] ids[i]) && effect == Effect::<
                    Seq<char>,
                >::CancelToken(tokens[ids[i]]);
            if i < fewer.len() {
                assert(fewer[i] == ids[i]);
            }
        }
        if exists|i: int|
            0 <= i < ids.len() && tokens.contains_key(#[trigger] ids[i]) && effect == Effect::<Seq<char>>::ForgetToken(
                tokens[ids[i]],
            ) {
            let i = choose|i: int|
                0 <= i < ids.len() && tokens.contains_key(#[trigger] ids[i]) && effect == Effect::<
                    Seq<char>,
                >::ForgetToken(tokens[ids[i]]);
            if i < fewer.len() {
                assert(fewer[i] == ids[i]);
            }
        }
    }
}

proof fn lemma_contains_add<A>(a: Seq<A>, b: Seq<A>, x: A)
    ensures
        (a + b).contains(x) <==> a.contains(x) || b.contains(x),
{
    if a.contains(x) {
        let i = choose|i: int| 0 <= i < a.len() && a[i] == x;
        assert((a + b)[i] == x);
    }
    if b.contains(x) {
        let i = choose|i: int| 0 <= i < b.len() && b[i] == x;
        assert((a + b)[a.len() + i] == x);
    }
    if (a + b).contains(x) {
        let i = choose|i: int| 0 <= i < (a + b).len() && (a + b)[i] == x;
        if i < a.len() {
            assert(a[i] == x);
        } else {
            assert(b[i - a.len()] == x);
        }
    }
}

/// The token of an upload, where it has one, is the one that is fired and let go, once; where it has none,
/// none is.
pub proof fn law_token_of_the_upload(tokens: Map<Seq<char>, u64>, id: Seq<char>)
    ensures
        tokens.contains_key(id) ==> cancels(tokens, id).len() == 1 && cancels(tokens, id)[0] == Effect::<
            Seq<char>,
        >::CancelToken(tokens[id]),
        tokens.contains_key(id) ==> forgets(tokens, id).len() == 1 && forgets(tokens, id)[0] == Effect::<
            Seq<char>,
        >::ForgetToken(tokens[id]),
        !tokens.contains_key(id) ==> cancels(tokens, id).len() == 0 && forgets(tokens, id).len() == 0,
{
}

/// A list of the tasks that are meant names each of them once and no other; the newest come first where
/// that is said.
pub proof fn law_lists_are_exact(
    ids: Seq<Seq<char>>,
    tasks: Map<Seq<char>, TaskView>,
    p: spec_fn(TaskView) -> bool,
    i: int,
    j: int,
    id: Seq<char>,
)
    requires
        lists(ids, tasks, p),
        0 <= i < j < ids.len(),
    ensures
        ids[i] != ids[j],
        ids.contains(id) <==> tasks.contains_key(id) && p(tasks[id]),
        ids_newest_first(ids, tasks) ==> tasks[ids[i]].created_at >= tasks[ids[j]].created_at,
{
}

/// The tokens are fired, and let go, in the order of the uploads, once for each.
pub proof fn law_tokens_in_order(tokens: Map<Seq<char>, u64>, ids: Seq<Seq<char>>, id: Seq<char>)
    ensures
        all_cancels(tokens, Seq::empty()).len() == 0,
        all_forgets(tokens, Seq::empty()).len() == 0,
        tokens.contains_key(id) ==> all_cancels(tokens, ids.push(id)) == all_cancels(tokens, ids).push(
            Effect::<Seq<char>>::CancelToken(tokens[id]),
        ),
        tokens.contains_key(id) ==> all_forgets(tokens, ids.push(id)) == all_forgets(tokens, ids).push(
            Effect::<Seq<char>>::ForgetToken(tokens[id]),
        ),
        !tokens.contains_key(id) ==> all_cancels(tokens, ids.push(id)) == all_cancels(tokens, ids),
        !tokens.contains_key(id) ==> all_forgets(tokens, ids.push(id)) == all_forgets(tokens, ids),
{
    assert(ids.push(id).drop_last() =~= ids);
    if tokens.contains_key(id) {
        assert(all_cancels(tokens, ids.push(id)) =~= all_cancels(tokens, ids).push(
            Effect::<Seq<char>>::CancelToken(tokens[id]),
        ));
        assert(all_forgets(tokens, ids.push(id)) =~= all_forgets(tokens, ids).push(
            Effect::<Seq<char>>::ForgetToken(tokens[id]),
        ));
    } else {
        assert(all_cancels(tokens, ids.push(id)) =~= all_cancels(tokens, ids));
        assert(all_forgets(tokens, ids.push(id)) =~= all_forgets(tokens, ids));
    }
}

} // verus!
