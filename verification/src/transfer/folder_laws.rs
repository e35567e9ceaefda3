//! Which folders are made at the backend: those that lead to the folders in which files stand, each
//! of them and no other.
use vstd::prelude::*;
use crate::text::{lemma_position_of, position_of, split_on};
use super::folders::{
    advanced, all_made, below, extended, fresh_plan, lemma_advanced, lemma_all_made_is_ready, lemma_nonempty, named,
    names_of, nonempty, ready, PlanView,
};

verus! {

/// The path of the first names.
pub open spec fn lead(names: Seq<Seq<char>>, k: int) -> Seq<char> {
    extended(Seq::empty(), names.take(k))
}

/// The path leads to the folder, or is the folder's own.
pub open spec fn leads_to(path: Seq<char>, folder: Seq<char>) -> bool {
    exists|k: int| 1 <= k <= names_of(folder).len() && path == #[trigger] lead(names_of(folder), k)
}

/// The path leads to one of the folders.
pub open spec fn leading(folders: Seq<Seq<char>>, path: Seq<char>) -> bool {
    exists|at: int| 0 <= at < folders.len() && leads_to(path, #[trigger] folders[at])
}

/// The making of folders after the backend has made one folder after the other under these ids, or
/// not made it.
pub open spec fn all_answered(plan: PlanView, ids: Seq<Option<Seq<char>>>) -> PlanView
    decreases ids.len(),
{
    if ids.len() == 0 || plan.names.len() == 0 {
        plan
    } else {
        all_answered(advanced(named(plan, ids[0])), ids.skip(1))
    }
}

// ---------------------------------------------------------------------------------------------
// Names and paths
// ---------------------------------------------------------------------------------------------

/// The names can stand in a path.
spec fn plain(names: Seq<Seq<char>>) -> bool {
    forall|i: int| 0 <= i < names.len() ==> (#[trigger] names[i]).len() > 0 && !names[i].contains('/')
}

proof fn lemma_split_parts(text: Seq<char>)
    ensures
        forall|i: int| 0 <= i < split_on(text, '/').len() ==> !(#[trigger] split_on(text, '/')[i]).contains('/'),
    decreases text.len(),
{
    let at = position_of(text, '/', 0);
    lemma_position_of(text, '/', 0);
    if 0 <= at < text.len() {
        let rest = split_on(text.skip(at + 1), '/');
        lemma_split_parts(text.skip(at + 1));
        assert forall|i: int| 0 <= i < split_on(text, '/').len() implies !(#[trigger] split_on(text, '/')[i]).contains('/') by {
            if i == 0 {
                assert(split_on(text, '/')[i] == text.take(at));
                assert forall|j: int| 0 <= j < text.take(at).len() implies text.take(at)[j] != '/' by {
                    assert(text.take(at)[j] == text[j]);
                }
            } else {
                assert(split_on(text, '/')[i] == rest[i - 1]);
            }
        }
    }
}

proof fn lemma_nonempty_parts(parts: Seq<Seq<char>>)
    requires
        forall|i: int| 0 <= i < parts.len() ==> !(#[trigger] parts[i]).contains('/'),
    ensures
        plain(nonempty(parts)),
    decreases parts.len(),
{
    lemma_nonempty(parts);
    if parts.len() > 0 {
        let before = nonempty(parts.drop_last());
        lemma_nonempty_parts(parts.drop_last());
        assert forall|i: int| 0 <= i < nonempty(parts).len() implies !(#[trigger] nonempty(parts)[i]).contains('/') by {
            if i < before.len() {
                assert(nonempty(parts)[i] == before[i]);
            } else {
                assert(nonempty(parts)[i] == parts[parts.len() - 1]);
            }
        }
    }
}

proof fn lemma_names_are_plain(folder: Seq<char>)
    ensures
        plain(names_of(folder)),
{
    lemma_split_parts(folder);
    lemma_nonempty_parts(split_on(folder, '/'));
}

proof fn lemma_split_below(path: Seq<char>, name: Seq<char>)
    requires
        !name.contains('/'),
    ensures
        split_on(path.push('/') + name, '/') == split_on(path, '/').push(name),
    decreases path.len(),
{
    let text = path.push('/') + name;
    let at = position_of(path, '/', 0);
    let found = position_of(text, '/', 0);
    lemma_position_of(path, '/', 0);
    lemma_position_of(text, '/', 0);
    assert(text[path.len() as int] == '/');
    if 0 <= at < path.len() {
        assert(text[at] == '/');
        assert(found == at) by {
            if found < at {
                assert(text[found] == path[found]);
            }
        }
        assert(text.take(at) =~= path.take(at));
        assert(text.skip(at + 1) =~= path.skip(at + 1).push('/') + name);
        lemma_split_below(path.skip(at + 1), name);
        assert(split_on(text, '/') =~= split_on(path, '/').push(name));
    } else {
        assert(found == path.len()) by {
            if found < path.len() {
                assert(text[found] == path[found]);
            }
        }
        assert(text.take(found) =~= path);
        assert(text.skip(found + 1) =~= name);
        lemma_position_of(name, '/', 0);
        assert(split_on(name, '/') == seq![name]);
        assert(split_on(text, '/') =~= seq![path].push(name));
    }
}

proof fn lemma_no_names()
    ensures
        names_of(Seq::empty()) == Seq::<Seq<char>>::empty(),
{
    let path = Seq::<char>::empty();
    lemma_position_of(path, '/', 0);
    assert(split_on(path, '/') == seq![path]);
    assert(seq![path].drop_last() =~= Seq::<Seq<char>>::empty());
    assert(nonempty(Seq::<Seq<char>>::empty()) =~= Seq::<Seq<char>>::empty());
    assert(nonempty(seq![path]) =~= Seq::<Seq<char>>::empty());
}

proof fn lemma_names_below(path: Seq<char>, name: Seq<char>)
    requires
        name.len() > 0,
        !name.contains('/'),
    ensures
        names_of(below(path, name)) == names_of(path).push(name),
{
    if path.len() == 0 {
        lemma_no_names();
        assert(path =~= Seq::<char>::empty());
        lemma_position_of(name, '/', 0);
        assert(split_on(name, '/') == seq![name]);
        assert(seq![name].drop_last() =~= Seq::<Seq<char>>::empty());
        assert(nonempty(Seq::<Seq<char>>::empty()) =~= Seq::<Seq<char>>::empty());
        assert(nonempty(seq![name]) =~= Seq::<Seq<char>>::empty().push(name));
    } else {
        lemma_split_below(path, name);
        let parts = split_on(path, '/').push(name);
        assert(parts.drop_last() =~= split_on(path, '/'));
        assert(parts.last() == name);
    }
}

proof fn lemma_extended_push(path: Seq<char>, names: Seq<Seq<char>>, name: Seq<char>)
    ensures
        extended(path, names.push(name)) == below(extended(path, names), name),
    decreases names.len(),
{
    if names.len() == 0 {
        assert(names.push(name).skip(1) =~= names);
        assert(extended(below(path, name), names) == below(path, name));
    } else {
        assert(names.push(name).skip(1) =~= names.skip(1).push(name));
        lemma_extended_push(below(path, names[0]), names.skip(1), name);
    }
}

/// One name more, and one path further.
proof fn lemma_lead_on(names: Seq<Seq<char>>, k: int)
    requires
        0 <= k < names.len(),
    ensures
        lead(names, k + 1) == below(lead(names, k), names[k]),
{
    assert(names.take(k + 1) =~= names.take(k).push(names[k]));
    lemma_extended_push(Seq::empty(), names.take(k), names[k]);
}

/// The names of a path that was made of names are these.
proof fn lemma_names_of_lead(names: Seq<Seq<char>>, k: int)
    requires
        0 <= k <= names.len(),
        plain(names),
    ensures
        names_of(lead(names, k)) == names.take(k),
        k > 0 ==> lead(names, k).len() > 0,
    decreases k,
{
    if k == 0 {
        assert(names.take(0) =~= Seq::<Seq<char>>::empty());
        lemma_no_names();
    } else {
        lemma_names_of_lead(names, k - 1);
        lemma_lead_on(names, k - 1);
        lemma_names_below(lead(names, k - 1), names[k - 1]);
        assert(names.take(k) =~= names.take(k - 1).push(names[k - 1]));
    }
}

/// Where two paths made of names are one, the paths that lead to them are the same.
proof fn lemma_same_lead(a: Seq<Seq<char>>, i: int, b: Seq<Seq<char>>, j: int, k: int)
    requires
        plain(a),
        plain(b),
        0 <= i <= a.len(),
        0 <= j <= b.len(),
        lead(a, i) == lead(b, j),
        0 <= k <= i,
    ensures
        i == j,
        lead(a, k) == lead(b, k),
{
    lemma_names_of_lead(a, i);
    lemma_names_of_lead(b, j);
    assert(a.take(i).len() == b.take(j).len());
    assert(a.take(k) =~= a.take(i).take(k));
    assert(b.take(k) =~= b.take(j).take(k));
}

// ---------------------------------------------------------------------------------------------
// No other folder is made
// ---------------------------------------------------------------------------------------------

/// The plan has come this far with the names of this folder.
spec fn at_step(plan: PlanView, folder: Seq<char>, k: int) -> bool {
    &&& 0 <= k <= names_of(folder).len()
    &&& plan.names == names_of(folder).skip(k)
    &&& plan.path == lead(names_of(folder), k)
}

/// What was made leads to the folders, and so does what is being made.
spec fn on_track(plan: PlanView, folders: Seq<Seq<char>>) -> bool {
    &&& forall|p: Seq<char>| #[trigger] plan.made.contains_key(p) ==> leading(folders, p)
    &&& forall|i: int| 0 <= i < plan.folders.len() ==> folders.contains(#[trigger] plan.folders[i])
    &&& plan.names.len() > 0 ==> exists|f: Seq<char>, k: int|
        folders.contains(f) && #[trigger] at_step(plan, f, k)
}

proof fn lemma_step_on(plan: PlanView, folder: Seq<char>, k: int, next: PlanView)
    requires
        at_step(plan, folder, k),
        plan.names.len() > 0,
        next.names == plan.names.skip(1),
        next.path == below(plan.path, plan.names[0]),
    ensures
        at_step(next, folder, k + 1),
        leads_to(next.path, folder),
{
    let names = names_of(folder);
    assert(plan.names[0] == names[k]);
    assert(next.names =~= names.skip(k + 1));
    lemma_lead_on(names, k);
    assert(next.path == lead(names, k + 1));
}

proof fn lemma_first_step(plan: PlanView, folder: Seq<char>)
    requires
        plan.names == names_of(folder),
        plan.path.len() == 0,
    ensures
        at_step(plan, folder, 0),
{
    assert(names_of(folder).skip(0) =~= names_of(folder));
    assert(names_of(folder).take(0) =~= Seq::<Seq<char>>::empty());
    assert(plan.path =~= lead(names_of(folder), 0));
}

proof fn lemma_advance_on_track(plan: PlanView, folders: Seq<Seq<char>>)
    requires
        on_track(plan, folders),
    ensures
        on_track(advanced(plan), folders),
    decreases plan.folders.len(), plan.names.len(),
{
    if plan.names.len() == 0 {
        if plan.folders.len() > 0 {
            let first = plan.folders[0];
            let rest = plan.folders.skip(1);
            assert forall|i: int| 0 <= i < rest.len() implies folders.contains(#[trigger] rest[i]) by {
                assert(rest[i] == plan.folders[i + 1]);
            }
            if plan.made.contains_key(first) {
                lemma_advance_on_track(PlanView { folders: rest, ..plan }, folders);
            } else {
                let next = PlanView {
                    folders: rest,
                    names: names_of(first),
                    path: Seq::empty(),
                    parent: plan.base,
                    ..plan
                };
                lemma_first_step(next, first);
                lemma_advance_on_track(next, folders);
            }
        }
    } else if plan.made.contains_key(below(plan.path, plan.names[0])) {
        let path = below(plan.path, plan.names[0]);
        let next = PlanView { names: plan.names.skip(1), path, parent: Some(plan.made[path]), ..plan };
        let (f, k) = choose|f: Seq<char>, k: int| folders.contains(f) && #[trigger] at_step(plan, f, k);
        lemma_step_on(plan, f, k, next);
        lemma_advance_on_track(next, folders);
    }
}

proof fn lemma_named_on_track(plan: PlanView, id: Option<Seq<char>>, folders: Seq<Seq<char>>)
    requires
        on_track(plan, folders),
        plan.names.len() > 0,
    ensures
        on_track(named(plan, id), folders),
{
    let next = named(plan, id);
    let (f, k) = choose|f: Seq<char>, k: int| folders.contains(f) && #[trigger] at_step(plan, f, k);
    lemma_step_on(plan, f, k, next);
    let at = choose|at: int| 0 <= at < folders.len() && folders[at] == f;
    assert(leads_to(next.path, folders[at]));
    assert(leading(folders, next.path));
}

proof fn lemma_answered_on_track(plan: PlanView, ids: Seq<Option<Seq<char>>>, folders: Seq<Seq<char>>)
    requires
        on_track(plan, folders),
    ensures
        on_track(all_answered(plan, ids), folders),
    decreases ids.len(),
{
    if ids.len() > 0 && plan.names.len() > 0 {
        lemma_named_on_track(plan, ids[0], folders);
        lemma_advance_on_track(named(plan, ids[0]), folders);
        lemma_answered_on_track(advanced(named(plan, ids[0])), ids.skip(1), folders);
    }
}

proof fn lemma_fresh_on_track(folders: Seq<Seq<char>>, base: Option<Seq<char>>)
    ensures
        on_track(fresh_plan(folders, base), folders),
{
    assert forall|i: int| 0 <= i < folders.len() implies folders.contains(#[trigger] folders[i]) by {
    }
}

/// Whatever the backend answers, only folders are made that lead to one in which a file stands.
pub proof fn law_only_leading_folders_are_made(
    folders: Seq<Seq<char>>,
    base: Option<Seq<char>>,
    ids: Seq<Option<Seq<char>>>,
    path: Seq<char>,
)
    requires
        all_answered(advanced(fresh_plan(folders, base)), ids).made.contains_key(path),
    ensures
        leading(folders, path),
{
    lemma_fresh_on_track(folders, base);
    lemma_advance_on_track(fresh_plan(folders, base), folders);
    lemma_answered_on_track(advanced(fresh_plan(folders, base)), ids, folders);
}

// ---------------------------------------------------------------------------------------------
// Each of these folders is made
// ---------------------------------------------------------------------------------------------

/// Whatever leads to the folder is there.
spec fn complete(made: Map<Seq<char>, Seq<char>>, folder: Seq<char>) -> bool {
    forall|k: int| 1 <= k <= names_of(folder).len() ==> made.contains_key(#[trigger] lead(names_of(folder), k))
}

/// Where a folder is there, so is whatever leads to it.
spec fn closed_up(made: Map<Seq<char>, Seq<char>>, folders: Seq<Seq<char>>) -> bool {
    forall|f: Seq<char>, k: int, i: int|
        #![trigger lead(names_of(f), k), lead(names_of(f), i)]
        folders.contains(f) && 1 <= i <= k <= names_of(f).len() && made.contains_key(lead(names_of(f), k))
            ==> made.contains_key(lead(names_of(f), i))
}

/// The folder is there, is being made, or is still to come.
spec fn covered(plan: PlanView, folder: Seq<char>) -> bool {
    ||| complete(plan.made, folder)
    ||| plan.folders.contains(folder)
    ||| exists|k: int| #[trigger] at_step(plan, folder, k)
}

/// What holds as long as the backend makes every folder that it is asked for.
spec fn complete_so_far(plan: PlanView, folders: Seq<Seq<char>>) -> bool {
    &&& on_track(plan, folders)
    &&& closed_up(plan.made, folders)
    &&& plan.path.len() > 0 ==> plan.made.contains_key(plan.path)
    &&& forall|f: Seq<char>| #[trigger] folders.contains(f) ==> covered(plan, f)
}

/// A folder with whose names the plan is through is there.
proof fn lemma_through(plan: PlanView, folders: Seq<Seq<char>>, folder: Seq<char>, k: int)
    requires
        complete_so_far(plan, folders),
        folders.contains(folder),
        at_step(plan, folder, k),
        plan.names.len() == 0,
    ensures
        complete(plan.made, folder),
{
    let names = names_of(folder);
    assert(k == names.len());
    lemma_names_are_plain(folder);
    lemma_names_of_lead(names, k);
    assert forall|i: int| 1 <= i <= names.len() implies plan.made.contains_key(#[trigger] lead(names, i)) by {
        assert(plan.made.contains_key(lead(names, k)));
    }
}

/// A folder that stands among those that were made under its own path is there with whatever leads to
/// it.
proof fn lemma_found(plan: PlanView, folders: Seq<Seq<char>>, folder: Seq<char>)
    requires
        complete_so_far(plan, folders),
        plan.made.contains_key(folder),
    ensures
        complete(plan.made, folder),
{
    assert(leading(folders, folder));
    let at = choose|at: int| 0 <= at < folders.len() && leads_to(folder, #[trigger] folders[at]);
    let other = folders[at];
    let names = names_of(other);
    let k = choose|k: int| 1 <= k <= names.len() && folder == #[trigger] lead(names, k);
    lemma_names_are_plain(other);
    lemma_names_of_lead(names, k);
    assert(folders.contains(other));
    assert forall|i: int| 1 <= i <= names_of(folder).len() implies plan.made.contains_key(
        #[trigger] lead(names_of(folder), i),
    ) by {
        assert(names.take(k).take(i) =~= names.take(i));
        assert(plan.made.contains_key(lead(names, k)));
        assert(plan.made.contains_key(lead(names, i)));
    }
}

proof fn lemma_advance_completes(plan: PlanView, folders: Seq<Seq<char>>)
    requires
        complete_so_far(plan, folders),
    ensures
        complete_so_far(advanced(plan), folders),
    decreases plan.folders.len(), plan.names.len(),
{
    if plan.names.len() == 0 {
        if plan.folders.len() > 0 {
            let first = plan.folders[0];
            let rest = plan.folders.skip(1);
            assert forall|i: int| 0 <= i < rest.len() implies folders.contains(#[trigger] rest[i]) by {
                assert(rest[i] == plan.folders[i + 1]);
            }
            let next = if plan.made.contains_key(first) {
                PlanView { folders: rest, ..plan }
            } else {
                PlanView { folders: rest, names: names_of(first), path: Seq::empty(), parent: plan.base, ..plan }
            };
            if plan.made.contains_key(first) {
                lemma_found(plan, folders, first);
            } else {
                lemma_first_step(next, first);
            }
            assert forall|f: Seq<char>| #[trigger] folders.contains(f) implies covered(next, f) by {
                assert(covered(plan, f));
                if complete(plan.made, f) {
                } else if plan.folders.contains(f) {
                    if f != first {
                        let i = choose|i: int| 0 <= i < plan.folders.len() && plan.folders[i] == f;
                        assert(rest[i - 1] == f);
                        assert(rest.contains(f));
                    }
                } else {
                    let k = choose|k: int| #[trigger] at_step(plan, f, k);
                    lemma_through(plan, folders, f, k);
                }
            }
            assert(folders.contains(first)) by {
                assert(folders.contains(plan.folders[0]));
            }
            lemma_advance_completes(next, folders);
        }
    } else if plan.made.contains_key(below(plan.path, plan.names[0])) {
        let path = below(plan.path, plan.names[0]);
        let next = PlanView { names: plan.names.skip(1), path, parent: Some(plan.made[path]), ..plan };
        let (f, k) = choose|f: Seq<char>, k: int| folders.contains(f) && #[trigger] at_step(plan, f, k);
        lemma_step_on(plan, f, k, next);
        lemma_covered_on(plan, folders, next);
        lemma_advance_completes(next, folders);
    }
}

proof fn lemma_covered_on(plan: PlanView, folders: Seq<Seq<char>>, next: PlanView)
    requires
        complete_so_far(plan, folders),
        plan.names.len() > 0,
        next.names == plan.names.skip(1),
        next.path == below(plan.path, plan.names[0]),
        next.folders == plan.folders,
        forall|p: Seq<char>| #[trigger] plan.made.contains_key(p) ==> next.made.contains_key(p),
    ensures
        forall|f: Seq<char>| #[trigger] folders.contains(f) ==> covered(next, f),
{
    assert forall|f: Seq<char>| #[trigger] folders.contains(f) implies covered(next, f) by {
        assert(covered(plan, f));
        if complete(plan.made, f) {
            assert(complete(next.made, f));
        } else if !plan.folders.contains(f) {
            let k = choose|k: int| #[trigger] at_step(plan, f, k);
            lemma_step_on(plan, f, k, next);
        }
    }
}

proof fn lemma_named_completes(plan: PlanView, id: Seq<char>, folders: Seq<Seq<char>>)
    requires
        complete_so_far(plan, folders),
        plan.names.len() > 0,
    ensures
        complete_so_far(named(plan, Some(id)), folders),
{
    let next = named(plan, Some(id));
    lemma_named_on_track(plan, Some(id), folders);
    lemma_covered_on(plan, folders, next);
    let (f, k) = choose|f: Seq<char>, k: int| folders.contains(f) && #[trigger] at_step(plan, f, k);
    let names = names_of(f);
    lemma_step_on(plan, f, k, next);
    lemma_names_are_plain(f);
    lemma_names_of_lead(names, k);
    assert forall|g: Seq<char>, j: int, i: int|
        #![trigger lead(names_of(g), j), lead(names_of(g), i)]
        folders.contains(g) && 1 <= i <= j <= names_of(g).len() && next.made.contains_key(lead(names_of(g), j))
            implies next.made.contains_key(lead(names_of(g), i)) by {
        if lead(names_of(g), j) == next.path {
            lemma_names_are_plain(g);
            lemma_same_lead(names_of(g), j, names, k + 1, i);
            if i <= k {
                assert(plan.made.contains_key(lead(names, k)));
                assert(plan.made.contains_key(lead(names, i)));
            }
        } else {
            assert(plan.made.contains_key(lead(names_of(g), j)));
        }
    }
}

proof fn lemma_all_made_completes(plan: PlanView, ids: Seq<Seq<char>>, folders: Seq<Seq<char>>)
    requires
        complete_so_far(plan, folders),
    ensures
        complete_so_far(all_made(plan, ids), folders),
    decreases ids.len(),
{
    if ids.len() > 0 && plan.names.len() > 0 {
        lemma_named_completes(plan, ids[0], folders);
        lemma_advance_completes(named(plan, Some(ids[0])), folders);
        lemma_all_made_completes(advanced(named(plan, Some(ids[0]))), ids.skip(1), folders);
    }
}

/// When the backend makes every folder that it is asked for, then those that are made in the end are
/// exactly the ones that lead to a folder in which a file stands.
pub proof fn law_leading_folders_are_made(
    folders: Seq<Seq<char>>,
    base: Option<Seq<char>>,
    ids: Seq<Seq<char>>,
    path: Seq<char>,
)
    requires
        all_made(advanced(fresh_plan(folders, base)), ids).names.len() == 0,
    ensures
        all_made(advanced(fresh_plan(folders, base)), ids).made.contains_key(path) <==> leading(folders, path),
{
    let start = fresh_plan(folders, base);
    let end = all_made(advanced(start), ids);
    lemma_fresh_on_track(folders, base);
    lemma_advance_completes(start, folders);
    lemma_all_made_completes(advanced(start), ids, folders);
    lemma_advanced(start);
    lemma_all_made_is_ready(advanced(start), ids);
    assert(ready(end));
    if leading(folders, path) {
        let at = choose|at: int| 0 <= at < folders.len() && leads_to(path, #[trigger] folders[at]);
        let f = folders[at];
        assert(folders.contains(f));
        assert(covered(end, f));
        if !complete(end.made, f) {
            assert(!end.folders.contains(f));
            let k = choose|k: int| #[trigger] at_step(end, f, k);
            lemma_through(end, folders, f, k);
        }
        assert(complete(end.made, f));
    }
}

} // verus!
