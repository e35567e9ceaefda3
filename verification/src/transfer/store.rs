//! The task store: every known task, under its upload id.
use vstd::prelude::*;
use crate::text::same;
use super::{TaskView, TransferTask};

verus! {

/// The tasks, in the order in which they came; no two share an upload id.
pub struct TaskStore {
    tasks: Vec<TransferTask>,
}

/// The place of the task with upload id `id`.
pub open spec fn task_position(tasks: Seq<TransferTask>, id: Seq<char>) -> int {
    choose|i: int| 0 <= i < tasks.len() && (#[trigger] tasks[i]).upload_id@ == id
}

/// Some task has upload id `id`.
pub open spec fn has_task(tasks: Seq<TransferTask>, id: Seq<char>) -> bool {
    exists|i: int| 0 <= i < tasks.len() && (#[trigger] tasks[i]).upload_id@ == id
}

/// No two tasks share an upload id.
pub open spec fn distinct_ids(tasks: Seq<TransferTask>) -> bool {
    forall|i: int, j: int|
        0 <= i < j < tasks.len() ==> (#[trigger] tasks[i]).upload_id@ != (#[trigger] tasks[j]).upload_id@
}

/// The tasks by upload id.
pub open spec fn task_map(tasks: Seq<TransferTask>) -> Map<Seq<char>, TaskView> {
    Map::new(|id: Seq<char>| has_task(tasks, id), |id: Seq<char>| tasks[task_position(tasks, id)]@)
}

impl View for TaskStore {
    type V = Map<Seq<char>, TaskView>;

    closed spec fn view(&self) -> Map<Seq<char>, TaskView> {
        task_map(self.tasks@)
    }
}

/// Each task stands under its upload id.
pub proof fn lemma_task_at(tasks: Seq<TransferTask>, i: int)
    requires
        distinct_ids(tasks),
        0 <= i < tasks.len(),
    ensures
        task_map(tasks).contains_key(tasks[i].upload_id@),
        task_map(tasks)[tasks[i].upload_id@] == tasks[i]@,
{
    let id = tasks[i].upload_id@;
    assert(has_task(tasks, id));
    let p = task_position(tasks, id);
    assert(tasks[p].upload_id@ == id);
    assert(p == i);
}

impl TaskStore {
    /// No two tasks share an upload id.
    pub closed spec fn wf(&self) -> bool {
        distinct_ids(self.tasks@)
    }

    /// The tasks in the order in which they came.
    pub closed spec fn sequence(&self) -> Seq<TransferTask> {
        self.tasks@
    }

    /// Every task stands under its own upload id.
    pub proof fn lemma_ids(&self)
        requires
            self.wf(),
        ensures
            distinct_ids(self.sequence()),
            self@ == task_map(self.sequence()),
            forall|i: int|
                0 <= i < self.sequence().len() ==> {
                    &&& self@.contains_key((#[trigger] self.sequence()[i]).upload_id@)
                    &&& self@[self.sequence()[i].upload_id@] == self.sequence()[i]@
                },
            forall|id: Seq<char>| #[trigger]
                self@.contains_key(id) ==> {
                    &&& has_task(self.sequence(), id)
                    &&& self@[id].upload_id == id
                },
    {
        assert forall|i: int| 0 <= i < self.sequence().len() implies {
            &&& self@.contains_key((#[trigger] self.sequence()[i]).upload_id@)
            &&& self@[self.sequence()[i].upload_id@] == self.sequence()[i]@
        } by {
            lemma_task_at(self.tasks@, i);
        }
    }

    /// A store without tasks.
    pub fn new() -> (r: Self)
        ensures
            r.wf(),
            r@ == Map::<Seq<char>, TaskView>::empty(),
    {
        let r = TaskStore { tasks: Vec::new() };
        assert(r@ =~= Map::<Seq<char>, TaskView>::empty());
        r
    }

    pub fn len(&self) -> (r: usize)
        ensures
            r == self.sequence().len(),
    {
        self.tasks.len()
    }

    /// The task at a place.
    pub fn at(&self, i: usize) -> (r: &TransferTask)
        requires
            i < self.sequence().len(),
        ensures
            *r == self.sequence()[i as int],
    {
        &self.tasks[i]
    }

    fn position(&self, id: &str) -> (r: Option<usize>)
        requires
            self.wf(),
        ensures
            match r {
                Some(i) => i < self.tasks@.len() && self.tasks@[i as int].upload_id@ == id@
                    && self@.contains_key(id@) && self@[id@] == self.tasks@[i as int]@,
                None => !has_task(self.tasks@, id@) && !self@.contains_key(id@),
            },
    {
        let mut i: usize = 0;
        while i < self.tasks.len()
            invariant
                i <= self.tasks@.len(),
                self.wf(),
                forall|j: int| 0 <= j < i ==> (#[trigger] self.tasks@[j]).upload_id@ != id@,
            decreases self.tasks@.len() - i,
        {
            if same(&self.tasks[i].upload_id, id) {
                proof {
                    lemma_task_at(self.tasks@, i as int);
                }
                return Some(i);
            }
            i = i + 1;
        }
        None
    }

    /// The task with upload id `id`.
    pub fn get(&self, id: &str) -> (r: Option<&TransferTask>)
        requires
            self.wf(),
        ensures
            match r {
                Some(task) => self@.contains_key(id@) && self@[id@] == task@,
                None => !self@.contains_key(id@),
            },
    {
        match self.position(id) {
            Some(i) => Some(&self.tasks[i]),
            None => None,
        }
    }

    /// Puts a task in place of the one with the same upload id, if there is one.
    pub fn insert(&mut self, task: TransferTask)
        requires
            old(self).wf(),
        ensures
            final(self).wf(),
            final(self)@ == old(self)@.insert(task@.upload_id, task@),
    {
        let ghost id = task.upload_id@;
        let ghost before = self.tasks@;
        match self.position(&task.upload_id) {
            Some(i) => {
                self.tasks.set(i, task);
                proof {
                    lemma_set(before, i as int, task);
                }
            },
            None => {
                self.tasks.push(task);
                proof {
                    lemma_insert_at(before, before.len() as int, task);
                    assert(before.insert(before.len() as int, task) == before.push(task));
                }
            },
        }
    }

    /// Takes the task with upload id `id` out.
    pub fn remove(&mut self, id: &str) -> (r: Option<TransferTask>)
        requires
            old(self).wf(),
        ensures
            final(self).wf(),
            final(self)@ == old(self)@.remove(id@),
            match r {
                Some(task) => old(self)@.contains_key(id@) && old(self)@[id@] == task@,
                None => !old(self)@.contains_key(id@),
            },
    {
        let ghost before = self.tasks@;
        match self.position(id) {
            Some(i) => {
                let task = self.tasks.remove(i);
                proof {
                    lemma_remove(before, i as int);
                }
                Some(task)
            },
            None => {
                assert(self@ =~= self@.remove(id@));
                None
            },
        }
    }

    /// Forgets every task.
    pub fn clear(&mut self)
        ensures
            final(self).wf(),
            final(self)@ == Map::<Seq<char>, TaskView>::empty(),
    {
        self.tasks.clear();
        assert(self@ =~= Map::<Seq<char>, TaskView>::empty());
    }

    /// Replaces the task at a place by one with the same upload id.
    pub fn set_at(&mut self, i: usize, task: TransferTask)
        requires
            old(self).wf(),
            i < old(self).sequence().len(),
            task@.upload_id == old(self).sequence()[i as int]@.upload_id,
        ensures
            final(self).wf(),
            final(self).sequence() == old(self).sequence().update(i as int, task),
            final(self)@ == old(self)@.insert(task@.upload_id, task@),
    {
        let ghost before = self.tasks@;
        self.tasks.set(i, task);
        proof {
            lemma_set(before, i as int, task);
        }
    }
}

proof fn lemma_set(before: Seq<TransferTask>, i: int, task: TransferTask)
    requires
        distinct_ids(before),
        0 <= i < before.len(),
        before[i].upload_id@ == task.upload_id@,
    ensures
        distinct_ids(before.update(i, task)),
        task_map(before.update(i, task)) == task_map(before).insert(task.upload_id@, task@),
{
    let after = before.update(i, task);
    let id = task.upload_id@;
    assert forall|a: int, b: int| 0 <= a < b < after.len() implies (#[trigger] after[a]).upload_id@
        != (#[trigger] after[b]).upload_id@ by {
        assert(before[a].upload_id@ != before[b].upload_id@);
    }
    assert forall|k: Seq<char>| #![auto] task_map(after).contains_key(k) == task_map(before).insert(id, task@).contains_key(k) by {
        if has_task(before, k) {
            let p = task_position(before, k);
            assert(after[p].upload_id@ == k);
        }
        if has_task(after, k) {
            let p = task_position(after, k);
            assert(before[p].upload_id@ == k);
        }
    }
    assert forall|k: Seq<char>| task_map(after).contains_key(k) implies task_map(after)[k] == task_map(before).insert(id, task@)[k] by {
        let p = task_position(after, k);
        assert(after[p].upload_id@ == k);
        lemma_task_at(after, p);
        if k != id {
            assert(p != i);
            assert(before[p] == after[p]);
            lemma_task_at(before, p);
        } else {
            assert(after[i].upload_id@ == k);
            assert(p == i);
        }
    }
    assert(task_map(after) =~= task_map(before).insert(id, task@));
}

/// A task that goes in at any place is added to the tasks by id.
pub proof fn lemma_insert_at(before: Seq<TransferTask>, at: int, task: TransferTask)
    requires
        distinct_ids(before),
        0 <= at <= before.len(),
        !has_task(before, task.upload_id@),
    ensures
        distinct_ids(before.insert(at, task)),
        task_map(before.insert(at, task)) == task_map(before).insert(task.upload_id@, task@),
{
    let after = before.insert(at, task);
    let id = task.upload_id@;
    assert forall|a: int| 0 <= a < after.len() && a != at implies #[trigger] after[a] == before[if a < at { a } else { a - 1 }] by {
    }
    assert forall|a: int, b: int| 0 <= a < b < after.len() implies (#[trigger] after[a]).upload_id@
        != (#[trigger] after[b]).upload_id@ by {
        let a2 = if a < at { a } else { a - 1 };
        let b2 = if b < at { b } else { b - 1 };
        if a == at {
            assert(before[b2].upload_id@ != id);
        } else if b == at {
            assert(before[a2].upload_id@ != id);
        } else {
            assert(before[a2].upload_id@ != before[b2].upload_id@);
        }
    }
    assert(after[at].upload_id@ == id);
    assert forall|k: Seq<char>| #![auto] task_map(after).contains_key(k) == task_map(before).insert(id, task@).contains_key(k) by {
        if has_task(before, k) {
            let p = task_position(before, k);
            assert(after[if p < at { p } else { p + 1 }].upload_id@ == k);
        }
        if has_task(after, k) && k != id {
            let p = task_position(after, k);
            assert(p != at);
            assert(before[if p < at { p } else { p - 1 }].upload_id@ == k);
        }
    }
    assert forall|k: Seq<char>| task_map(after).contains_key(k) implies task_map(after)[k] == task_map(before).insert(id, task@)[k] by {
        let p = task_position(after, k);
        assert(after[p].upload_id@ == k);
        lemma_task_at(after, p);
        if k != id {
            assert(p != at);
            let q = if p < at { p } else { p - 1 };
            assert(before[q] == after[p]);
            lemma_task_at(before, q);
        } else {
            assert(p == at);
        }
    }
    assert(task_map(after) =~= task_map(before).insert(id, task@));
}

/// The tasks by id grow by one task with each place.
pub proof fn lemma_prefix(tasks: Seq<TransferTask>, i: int)
    requires
        distinct_ids(tasks),
        0 <= i < tasks.len(),
    ensures
        distinct_ids(tasks.take(i)),
        distinct_ids(tasks.take(i + 1)),
        !has_task(tasks.take(i), tasks[i].upload_id@),
        task_map(tasks.take(i + 1)) == task_map(tasks.take(i)).insert(tasks[i].upload_id@, tasks[i]@),
{
    let shorter = tasks.take(i);
    assert forall|a: int, b: int| 0 <= a < b < shorter.len() implies (#[trigger] shorter[a]).upload_id@
        != (#[trigger] shorter[b]).upload_id@ by {
        assert(tasks[a].upload_id@ != tasks[b].upload_id@);
    }
    if has_task(shorter, tasks[i].upload_id@) {
        let p = task_position(shorter, tasks[i].upload_id@);
        assert(tasks[p].upload_id@ == tasks[i].upload_id@);
    }
    assert(shorter.insert(i, tasks[i]) == tasks.take(i + 1));
    lemma_insert_at(shorter, i, tasks[i]);
}

/// No tasks by id where there are no tasks.
pub proof fn lemma_no_tasks(tasks: Seq<TransferTask>)
    requires
        tasks.len() == 0,
    ensures
        distinct_ids(tasks),
        task_map(tasks) == Map::<Seq<char>, TaskView>::empty(),
{
    assert(task_map(tasks) =~= Map::<Seq<char>, TaskView>::empty());
}

proof fn lemma_remove(before: Seq<TransferTask>, i: int)
    requires
        distinct_ids(before),
        0 <= i < before.len(),
    ensures
        distinct_ids(before.remove(i)),
        task_map(before.remove(i)) == task_map(before).remove(before[i].upload_id@),
{
    let after = before.remove(i);
    let id = before[i].upload_id@;
    assert forall|a: int| 0 <= a < after.len() implies #[trigger] after[a] == before[if a < i { a } else { a + 1 }] by {
    }
    assert forall|a: int, b: int| 0 <= a < b < after.len() implies (#[trigger] after[a]).upload_id@
        != (#[trigger] after[b]).upload_id@ by {
        let a2 = if a < i { a } else { a + 1 };
        let b2 = if b < i { b } else { b + 1 };
        assert(before[a2].upload_id@ != before[b2].upload_id@);
    }
    assert forall|k: Seq<char>| #![auto] task_map(after).contains_key(k) == task_map(before).remove(id).contains_key(k) by {
        if has_task(before, k) && k != id {
            let p = task_position(before, k);
            assert(before[p].upload_id@ == k);
            assert(after[if p < i { p } else { p - 1 }].upload_id@ == k);
        }
        if has_task(after, k) {
            let p = task_position(after, k);
            let q = if p < i { p } else { p + 1 };
            assert(before[q].upload_id@ == k);
            assert(q != i);
            assert(k != id);
        }
    }
    assert forall|k: Seq<char>| task_map(after).contains_key(k) implies task_map(after)[k] == task_map(before).remove(id)[k] by {
        let p = task_position(after, k);
        assert(after[p].upload_id@ == k);
        lemma_task_at(after, p);
        let q = if p < i { p } else { p + 1 };
        lemma_task_at(before, q);
    }
    assert(task_map(after) =~= task_map(before).remove(id));
}

/// The tasks, each changed by `f`.
pub open spec fn changed(
    tasks: Map<Seq<char>, TaskView>,
    f: spec_fn(TaskView) -> TaskView,
) -> Map<Seq<char>, TaskView> {
    Map::new(|id: Seq<char>| tasks.contains_key(id), |id: Seq<char>| f(tasks[id]))
}

/// The tasks for which `p` holds.
pub open spec fn restricted(
    tasks: Map<Seq<char>, TaskView>,
    p: spec_fn(TaskView) -> bool,
) -> Map<Seq<char>, TaskView> {
    Map::new(|id: Seq<char>| tasks.contains_key(id) && p(tasks[id]), |id: Seq<char>| tasks[id])
}

/// `ids` are the ids of the tasks for which `p` holds, each once.
pub open spec fn lists(
    ids: Seq<Seq<char>>,
    tasks: Map<Seq<char>, TaskView>,
    p: spec_fn(TaskView) -> bool,
) -> bool {
    &&& ids.no_duplicates()
    &&& forall|id: Seq<char>| #[trigger] ids.contains(id) <==> tasks.contains_key(id) && p(tasks[id])
}

/// Where each task changes by `f` and keeps its id, so do the tasks by id.
pub proof fn lemma_changed(
    before: Seq<TransferTask>,
    after: Seq<TransferTask>,
    f: spec_fn(TaskView) -> TaskView,
)
    requires
        distinct_ids(before),
        after.len() == before.len(),
        forall|i: int|
            0 <= i < before.len() ==> (#[trigger] after[i])@ == f(before[i]@) && after[i]@.upload_id
                == before[i]@.upload_id,
    ensures
        distinct_ids(after),
        task_map(after) == changed(task_map(before), f),
{
    assert forall|a: int, b: int| 0 <= a < b < after.len() implies (#[trigger] after[a]).upload_id@
        != (#[trigger] after[b]).upload_id@ by {
        assert(before[a].upload_id@ != before[b].upload_id@);
        assert(after[a]@.upload_id == before[a]@.upload_id);
        assert(after[b]@.upload_id == before[b]@.upload_id);
    }
    assert forall|k: Seq<char>| #![auto] task_map(after).contains_key(k) == task_map(before).contains_key(k) by {
        if has_task(before, k) {
            let p = task_position(before, k);
            assert(after[p]@.upload_id == k);
        }
        if has_task(after, k) {
            let p = task_position(after, k);
            assert(after[p]@.upload_id == k);
            assert(before[p].upload_id@ == k);
        }
    }
    assert forall|k: Seq<char>| task_map(after).contains_key(k) implies task_map(after)[k] == f(task_map(before)[k]) by {
        let p = task_position(after, k);
        assert(after[p]@.upload_id == k);
        lemma_task_at(after, p);
        lemma_task_at(before, p);
    }
    assert(task_map(after) =~= changed(task_map(before), f));
}

/// A list of ids goes on with one more task.
pub proof fn lemma_lists_step(
    ids: Seq<Seq<char>>,
    tasks: Map<Seq<char>, TaskView>,
    id: Seq<char>,
    task: TaskView,
    p: spec_fn(TaskView) -> bool,
)
    requires
        lists(ids, tasks, p),
        !tasks.contains_key(id),
    ensures
        p(task) ==> lists(ids.push(id), tasks.insert(id, task), p),
        !p(task) ==> lists(ids, tasks.insert(id, task), p),
{
    assert(!ids.contains(id));
    let longer = ids.push(id);
    let more = tasks.insert(id, task);
    if p(task) {
        assert forall|k: Seq<char>| #[trigger] longer.contains(k) <==> more.contains_key(k) && p(more[k]) by {
            if ids.contains(k) {
                let i = choose|i: int| 0 <= i < ids.len() && ids[i] == k;
                assert(longer[i] == k);
            }
            if k == id {
                assert(longer[ids.len() as int] == k);
            }
            if longer.contains(k) && k != id {
                let i = choose|i: int| 0 <= i < longer.len() && longer[i] == k;
                assert(ids[i] == k);
            }
        }
        assert forall|i: int, j: int| 0 <= i < longer.len() && 0 <= j < longer.len() && i != j implies longer[i] != longer[j] by {
            if i < ids.len() && j < ids.len() {
                assert(ids[i] != ids[j]);
            } else if i < ids.len() {
                assert(ids.contains(ids[i]));
            } else if j < ids.len() {
                assert(ids.contains(ids[j]));
            }
        }
    } else {
        assert forall|k: Seq<char>| #[trigger] ids.contains(k) <==> more.contains_key(k) && p(more[k]) by {
        }
    }
}

/// No ids where there are no tasks.
pub proof fn lemma_lists_none(p: spec_fn(TaskView) -> bool)
    ensures
        lists(Seq::<Seq<char>>::empty(), Map::<Seq<char>, TaskView>::empty(), p),
{
}

} // verus!
