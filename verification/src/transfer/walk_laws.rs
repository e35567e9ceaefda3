//! What the walk through a folder finds: every file to which no hidden name leads, once, with its
//! place.
use vstd::multiset::Multiset;
use vstd::prelude::*;
use super::folders::{below, extended, fresh_scan, hidden, relative_place, visited, EntryKind, ScanView};

verus! {

/// What stands in a folder. A folder that cannot be read is one in which nothing stands.
#[verifier::reject_recursive_types(P)]
pub enum Entry<P> {
    /// A folder, with what stands in it.
    Folder { path: P, name: Seq<char>, inside: Seq<Entry<P>> },
    /// A file, with the path below the folder where the walk began, if it can be told.
    File { path: P, name: Seq<char>, inner: Option<Seq<char>> },
    /// Something else.
    Other { path: P, name: Seq<char> },
}

impl<P> Entry<P> {
    pub open spec fn path(self) -> P {
        match self {
            Entry::Folder { path, .. } => path,
            Entry::File { path, .. } => path,
            Entry::Other { path, .. } => path,
        }
    }

    pub open spec fn name(self) -> Seq<char> {
        match self {
            Entry::Folder { name, .. } => name,
            Entry::File { name, .. } => name,
            Entry::Other { name, .. } => name,
        }
    }

    pub open spec fn kind(self) -> EntryKind {
        match self {
            Entry::Folder { .. } => EntryKind::Folder,
            Entry::File { .. } => EntryKind::File,
            Entry::Other { .. } => EntryKind::Other,
        }
    }

    pub open spec fn inner(self) -> Option<Seq<char>> {
        match self {
            Entry::File { inner, .. } => inner,
            _ => None,
        }
    }

    /// What stands in it, where it is a folder.
    pub open spec fn inside(self) -> Seq<Entry<P>> {
        match self {
            Entry::Folder { inside, .. } => inside,
            _ => Seq::empty(),
        }
    }
}

/// How much stands in a folder and below it.
pub open spec fn size<P>(entries: Seq<Entry<P>>) -> nat
    decreases entries,
{
    if entries.len() == 0 {
        0
    } else {
        size(entries.drop_last()) + 1 + match entries.last() {
            Entry::Folder { inside, .. } => size(inside),
            _ => 0,
        }
    }
}

/// The folders among the entries that are walked through.
pub open spec fn subfolders<P>(entries: Seq<Entry<P>>) -> Seq<Entry<P>>
    decreases entries.len(),
{
    if entries.len() == 0 {
        Seq::empty()
    } else if entries.last() is Folder && !hidden(entries.last().name()) {
        subfolders(entries.drop_last()).push(entries.last())
    } else {
        subfolders(entries.drop_last())
    }
}

/// The walk after these entries have been met, one after the other.
pub open spec fn met<P>(scan: ScanView<P>, entries: Seq<Entry<P>>) -> ScanView<P>
    decreases entries.len(),
{
    if entries.len() == 0 {
        scan
    } else {
        let e = entries.last();
        visited(met(scan, entries.drop_last()), e.path(), e.name(), e.kind(), e.inner())
    }
}

/// The walk after one more folder has been read, in which these entries stand.
pub open spec fn folder_read<P>(scan: ScanView<P>, entries: Seq<Entry<P>>) -> ScanView<P> {
    met(ScanView { pending: scan.pending.drop_last(), ..scan }, entries)
}

/// The walk to its end, where `open` are the folders that are still to be read, the next one last.
pub open spec fn walked<P>(scan: ScanView<P>, open: Seq<Entry<P>>) -> ScanView<P>
    decreases size(open),
{
    if open.len() == 0 {
        scan
    } else {
        proof {
            lemma_less_is_open(open);
        }
        let entries = open.last().inside();
        walked(folder_read(scan, entries), open.drop_last() + subfolders(entries))
    }
}

/// The files among the entries and below them to which no hidden name leads, each with its place.
pub open spec fn files_of<P>(folder: Seq<char>, entries: Seq<Entry<P>>) -> Multiset<(P, Option<Seq<char>>)>
    decreases entries,
{
    if entries.len() == 0 {
        Multiset::empty()
    } else {
        files_of(folder, entries.drop_last()).add(
            if hidden(entries.last().name()) {
                Multiset::empty()
            } else {
                match entries.last() {
                    Entry::Folder { inside, .. } => files_of(folder, inside),
                    Entry::File { path, inner, .. } => Multiset::singleton((path, place_of(folder, inner))),
                    Entry::Other { .. } => Multiset::empty(),
                }
            },
        )
    }
}

/// The place of a file, where it can be told.
pub open spec fn place_of(folder: Seq<char>, inner: Option<Seq<char>>) -> Option<Seq<char>> {
    match inner {
        Some(inner) => Some(relative_place(folder, inner)),
        None => None,
    }
}

proof fn lemma_size_add<P>(a: Seq<Entry<P>>, b: Seq<Entry<P>>)
    ensures
        size(a + b) == size(a) + size(b),
    decreases b.len(),
{
    if b.len() == 0 {
        assert(a + b =~= a);
    } else {
        assert((a + b).drop_last() =~= a + b.drop_last());
        assert((a + b).last() == b.last());
        lemma_size_add(a, b.drop_last());
    }
}

proof fn lemma_size_subfolders<P>(entries: Seq<Entry<P>>)
    ensures
        size(subfolders(entries)) <= size(entries),
    decreases entries.len(),
{
    if entries.len() > 0 {
        lemma_size_subfolders(entries.drop_last());
        let before = subfolders(entries.drop_last());
        assert(before.push(entries.last()).drop_last() =~= before);
        assert(before.push(entries.last()).last() == entries.last());
    }
}

/// Reading a folder leaves less to be read.
pub proof fn lemma_less_is_open<P>(open: Seq<Entry<P>>)
    requires
        open.len() > 0,
    ensures
        size(open.drop_last() + subfolders(open.last().inside())) < size(open),
{
    let entries = open.last().inside();
    lemma_size_add(open.drop_last(), subfolders(entries));
    lemma_size_subfolders(entries);
    assert(size(Seq::<Entry<P>>::empty()) == 0);
}

// ---------------------------------------------------------------------------------------------
// Every file once
// ---------------------------------------------------------------------------------------------

/// What one entry adds to the files.
spec fn added<P>(folder: Seq<char>, entry: Entry<P>) -> Multiset<(P, Option<Seq<char>>)> {
    if hidden(entry.name()) {
        Multiset::empty()
    } else {
        match entry {
            Entry::Folder { inside, .. } => files_of(folder, inside),
            Entry::File { path, inner, .. } => Multiset::singleton((path, place_of(folder, inner))),
            Entry::Other { .. } => Multiset::empty(),
        }
    }
}

spec fn paths<P>(entries: Seq<Entry<P>>) -> Seq<P> {
    entries.map_values(|e: Entry<P>| e.path())
}

/// The files below the folders that are still to be read.
spec fn files_below<P>(folder: Seq<char>, open: Seq<Entry<P>>) -> Multiset<(P, Option<Seq<char>>)>
    decreases open.len(),
{
    if open.len() == 0 {
        Multiset::empty()
    } else {
        files_below(folder, open.drop_last()).add(files_of(folder, open.last().inside()))
    }
}

proof fn lemma_files_below_add<P>(folder: Seq<char>, a: Seq<Entry<P>>, b: Seq<Entry<P>>)
    ensures
        files_below(folder, a + b) == files_below(folder, a).add(files_below(folder, b)),
    decreases b.len(),
{
    if b.len() == 0 {
        assert(a + b =~= a);
        assert(files_below(folder, a).add(files_below(folder, b)) =~= files_below(folder, a));
    } else {
        assert((a + b).drop_last() =~= a + b.drop_last());
        assert((a + b).last() == b.last());
        lemma_files_below_add(folder, a, b.drop_last());
        assert(files_below(folder, a + b) =~= files_below(folder, a).add(files_below(folder, b)));
    }
}

proof fn lemma_met<P>(scan: ScanView<P>, entries: Seq<Entry<P>>)
    ensures
        met(scan, entries).folder == scan.folder,
        met(scan, entries).pending == scan.pending + paths(subfolders(entries)),
        met(scan, entries).files.to_multiset().add(files_below(scan.folder, subfolders(entries)))
            == scan.files.to_multiset().add(files_of(scan.folder, entries)),
    decreases entries.len(),
{
    let folder = scan.folder;
    let folders = subfolders(entries);
    if entries.len() == 0 {
        assert(met(scan, entries).pending =~= scan.pending + paths(folders));
        assert(scan.files.to_multiset().add(files_below(folder, folders)) =~= scan.files.to_multiset().add(
            files_of(folder, entries),
        ));
    } else {
        let e = entries.last();
        let before = met(scan, entries.drop_last());
        let known = subfolders(entries.drop_last());
        lemma_met(scan, entries.drop_last());
        if !hidden(e.name()) {
            match e {
                Entry::Folder { path, inside, .. } => {
                    assert(folders == known.push(e));
                    assert(paths(folders) =~= paths(known).push(path));
                    assert(folders.drop_last() =~= known);
                    assert(folders.last() == e);
                },
                Entry::File { path, inner, .. } => {
                    before.files.to_multiset_ensures();
                    assert(met(scan, entries).files == before.files.push((path, place_of(folder, inner))));
                },
                Entry::Other { .. } => {},
            }
        }
        assert(met(scan, entries).pending =~= scan.pending + paths(folders));
        let left = met(scan, entries).files.to_multiset().add(files_below(folder, folders));
        let right = scan.files.to_multiset().add(files_of(folder, entries));
        let left_before = before.files.to_multiset().add(files_below(folder, known));
        let right_before = scan.files.to_multiset().add(files_of(folder, entries.drop_last()));
        assert forall|x: (P, Option<Seq<char>>)| left.count(x) == right.count(x) by {
            assert(left_before.count(x) == right_before.count(x));
            assert(left.count(x) == left_before.count(x) + added(folder, e).count(x));
            assert(right.count(x) == right_before.count(x) + added(folder, e).count(x));
        }
        assert(left =~= right);
    }
}

proof fn lemma_walked<P>(scan: ScanView<P>, open: Seq<Entry<P>>)
    requires
        scan.pending == paths(open),
    ensures
        walked(scan, open).folder == scan.folder,
        walked(scan, open).pending.len() == 0,
        walked(scan, open).files.to_multiset() == scan.files.to_multiset().add(files_below(scan.folder, open)),
    decreases size(open),
{
    if open.len() == 0 {
        assert(scan.files.to_multiset() =~= scan.files.to_multiset().add(files_below(scan.folder, open)));
    } else {
        let entries = open.last().inside();
        let rest = open.drop_last();
        let popped = ScanView { pending: scan.pending.drop_last(), ..scan };
        let next = folder_read(scan, entries);
        lemma_less_is_open(open);
        lemma_met(popped, entries);
        assert(popped.pending =~= paths(rest));
        assert(next.pending =~= paths(rest + subfolders(entries)));
        lemma_walked(next, rest + subfolders(entries));
        lemma_files_below_add(scan.folder, rest, subfolders(entries));
        let left = next.files.to_multiset().add(files_below(scan.folder, subfolders(entries)));
        let right = scan.files.to_multiset().add(files_of(scan.folder, entries));
        let all = walked(scan, open).files.to_multiset();
        let wanted = scan.files.to_multiset().add(files_below(scan.folder, open));
        assert forall|x: (P, Option<Seq<char>>)| all.count(x) == wanted.count(x) by {
            assert(left.count(x) == right.count(x));
        }
        assert(all =~= wanted);
    }
}

/// The walk through a folder ends, and then has listed each file below it to which no hidden name leads
/// exactly once, with its place, and nothing else.
pub proof fn law_walk_lists_every_file<P>(root: P, name: Option<Seq<char>>, inside: Seq<Entry<P>>)
    ensures
        ({
            let start = fresh_scan(root, name);
            let end = walked(start, seq![Entry::Folder { path: root, name: start.folder, inside }]);
            &&& end.pending.len() == 0
            &&& end.files.to_multiset() == files_of(start.folder, inside)
        }),
{
    let start = fresh_scan(root, name);
    let top = Entry::Folder { path: root, name: start.folder, inside };
    let open = seq![top];
    assert(start.pending =~= paths(open));
    lemma_walked(start, open);
    start.files.to_multiset_ensures();
    assert(open.drop_last() =~= Seq::<Entry<P>>::empty());
    assert(files_below(start.folder, open.drop_last()) =~= Multiset::empty());
    assert(files_below(start.folder, open) =~= files_of(start.folder, inside));
    assert(start.files.to_multiset() =~= Multiset::empty());
    assert(start.files.to_multiset().add(files_below(start.folder, open)) =~= files_of(start.folder, inside));
}

// ---------------------------------------------------------------------------------------------
// The place of a file
// ---------------------------------------------------------------------------------------------

/// Each file knows its path below the folder where the walk began: the names that lead to it.
pub open spec fn told<P>(entries: Seq<Entry<P>>, path: Seq<char>) -> bool
    decreases entries,
{
    entries.len() > 0 ==> {
        &&& told(entries.drop_last(), path)
        &&& match entries.last() {
            Entry::Folder { name, inside, .. } => told(inside, below(path, name)),
            Entry::File { name, inner, .. } => inner == Some(below(path, name)),
            Entry::Other { .. } => true,
        }
    }
}

/// These names lead to the file, one folder after the other, and none of them is hidden.
pub open spec fn lead_to_file<P>(entries: Seq<Entry<P>>, names: Seq<Seq<char>>, file: P) -> bool
    decreases names.len(),
{
    names.len() > 0 && !hidden(names[0]) && exists|i: int|
        0 <= i < entries.len() && (#[trigger] entries[i]).name() == names[0] && if names.len() == 1 {
            entries[i] is File && entries[i].path() == file
        } else {
            entries[i] is Folder && lead_to_file(entries[i].inside(), names.skip(1), file)
        }
}

/// The place of the file is made of the name of the folder and of names that lead to the file.
pub open spec fn found_at<P>(
    folder: Seq<char>,
    path: Seq<char>,
    entries: Seq<Entry<P>>,
    file: P,
    place: Option<Seq<char>>,
) -> bool {
    exists|names: Seq<Seq<char>>| #[trigger]
        lead_to_file(entries, names, file) && place == Some(relative_place(folder, extended(path, names)))
}

proof fn lemma_lead_on_in_more<P>(entries: Seq<Entry<P>>, names: Seq<Seq<char>>, file: P)
    requires
        entries.len() > 0,
        lead_to_file(entries.drop_last(), names, file),
    ensures
        lead_to_file(entries, names, file),
{
    let fewer = entries.drop_last();
    let i = choose|i: int|
        0 <= i < fewer.len() && (#[trigger] fewer[i]).name() == names[0] && if names.len() == 1 {
            fewer[i] is File && fewer[i].path() == file
        } else {
            fewer[i] is Folder && lead_to_file(fewer[i].inside(), names.skip(1), file)
        };
    assert(entries[i] == fewer[i]);
}

proof fn lemma_listed_is_found<P>(
    folder: Seq<char>,
    path: Seq<char>,
    entries: Seq<Entry<P>>,
    file: P,
    place: Option<Seq<char>>,
)
    requires
        told(entries, path),
        files_of(folder, entries).contains((file, place)),
    ensures
        found_at(folder, path, entries, file, place),
    decreases entries,
{
    if entries.len() > 0 {
        let e = entries.last();
        let fewer = entries.drop_last();
        assert(entries[entries.len() - 1] == e);
        if files_of(folder, fewer).contains((file, place)) {
            lemma_listed_is_found(folder, path, fewer, file, place);
            let names = choose|names: Seq<Seq<char>>| #[trigger]
                lead_to_file(fewer, names, file) && place == Some(relative_place(folder, extended(path, names)));
            lemma_lead_on_in_more(entries, names, file);
        } else {
            match e {
                Entry::Folder { name, inside, .. } => {
                    lemma_listed_is_found(folder, below(path, name), inside, file, place);
                    let rest = choose|rest: Seq<Seq<char>>| #[trigger]
                        lead_to_file(inside, rest, file) && place == Some(
                            relative_place(folder, extended(below(path, name), rest)),
                        );
                    let names = seq![name] + rest;
                    assert(names.skip(1) =~= rest);
                    assert(lead_to_file(entries, names, file));
                },
                Entry::File { name, .. } => {
                    let names = seq![name];
                    assert(names.skip(1) =~= Seq::<Seq<char>>::empty());
                    assert(extended(below(path, name), names.skip(1)) == below(path, name));
                    assert(lead_to_file(entries, names, file));
                },
                Entry::Other { .. } => {},
            }
        }
    }
}

proof fn lemma_entry_counts<P>(
    folder: Seq<char>,
    path: Seq<char>,
    entries: Seq<Entry<P>>,
    i: int,
    found: (P, Option<Seq<char>>),
)
    requires
        0 <= i < entries.len(),
        told(entries, path),
    ensures
        added(folder, entries[i]).contains(found) ==> files_of(folder, entries).contains(found),
        match entries[i] {
            Entry::Folder { name, inside, .. } => told(inside, below(path, name)),
            Entry::File { name, inner, .. } => inner == Some(below(path, name)),
            Entry::Other { .. } => true,
        },
    decreases entries.len(),
{
    assert(files_of(folder, entries) == files_of(folder, entries.drop_last()).add(added(folder, entries.last())));
    if i < entries.len() - 1 {
        assert(entries.drop_last()[i] == entries[i]);
        lemma_entry_counts(folder, path, entries.drop_last(), i, found);
    }
}

proof fn lemma_found_is_listed<P>(
    folder: Seq<char>,
    path: Seq<char>,
    entries: Seq<Entry<P>>,
    file: P,
    names: Seq<Seq<char>>,
)
    requires
        told(entries, path),
        lead_to_file(entries, names, file),
    ensures
        files_of(folder, entries).contains((file, Some(relative_place(folder, extended(path, names))))),
    decreases names.len(),
{
    let found = (file, Some(relative_place(folder, extended(path, names))));
    let i = choose|i: int|
        0 <= i < entries.len() && (#[trigger] entries[i]).name() == names[0] && if names.len() == 1 {
            entries[i] is File && entries[i].path() == file
        } else {
            entries[i] is Folder && lead_to_file(entries[i].inside(), names.skip(1), file)
        };
    lemma_entry_counts(folder, path, entries, i, found);
    if names.len() == 1 {
        assert(names.skip(1) =~= Seq::<Seq<char>>::empty());
        assert(extended(below(path, names[0]), names.skip(1)) == below(path, names[0]));
    } else {
        lemma_found_is_listed(folder, below(path, names[0]), entries[i].inside(), file, names.skip(1));
    }
}

/// A file is listed under a place exactly where names lead to it of which none is hidden, and the place
/// is made of the name of the folder and of these names, with slashes between them.
pub proof fn law_place_tells_the_way<P>(
    root: P,
    name: Option<Seq<char>>,
    inside: Seq<Entry<P>>,
    file: P,
    place: Option<Seq<char>>,
)
    requires
        told(inside, Seq::empty()),
    ensures
        ({
            let start = fresh_scan(root, name);
            let end = walked(start, seq![Entry::Folder { path: root, name: start.folder, inside }]);
            end.files.contains((file, place)) <==> found_at(start.folder, Seq::empty(), inside, file, place)
        }),
{
    let start = fresh_scan(root, name);
    let end = walked(start, seq![Entry::Folder { path: root, name: start.folder, inside }]);
    law_walk_lists_every_file(root, name, inside);
    end.files.to_multiset_ensures();
    assert(end.files.contains((file, place)) <==> end.files.to_multiset().contains((file, place)));
    if files_of(start.folder, inside).contains((file, place)) {
        lemma_listed_is_found(start.folder, Seq::empty(), inside, file, place);
    }
    if found_at(start.folder, Seq::empty(), inside, file, place) {
        let names = choose|names: Seq<Seq<char>>| #[trigger]
            lead_to_file(inside, names, file) && place == Some(
                relative_place(start.folder, extended(Seq::empty(), names)),
            );
        lemma_found_is_listed(start.folder, Seq::empty(), inside, file, names);
    }
}

} // verus!
