//! Folders: which files of a folder are taken, and how the folders in which they stand are made at
//! the backend.
use vstd::prelude::*;
use vstd::string::*;
use crate::api::{folder_body, folder_fields, folders_address, folders_url, success, Request, Sent, SentView};
use crate::json::{data_text, object_fields, read_data_text, read_document, Json};
use crate::pairs::TextMap;
use crate::path::{parent_path, parent_text};
use crate::text::{
    ascending, begins_with, copy_opt, insert_ascending, opt, replace_text, replaced, split_on, split_text,
    starts_with_text, strings,
};

verus! {

/// What a name in a folder stands for.
#[derive(Debug, Clone, Copy, PartialEq, Eq, Structural)]
pub enum EntryKind {
    Folder,
    File,
    Other,
}

/// The walk through a folder. `P` is how a file or a folder is found again.
pub struct FolderScan<P> {
    folder: String,
    pending: Vec<P>,
    files: Vec<(P, Option<String>)>,
}

/// How far a walk through a folder has come.
#[verifier::ext_equal]
#[verifier::reject_recursive_types(P)]
pub struct ScanView<P> {
    /// The name of the folder.
    pub folder: Seq<char>,
    /// The folders that are still to be read, the next one last.
    pub pending: Seq<P>,
    /// The files so far, each with its place below the folder.
    pub files: Seq<(P, Option<Seq<char>>)>,
}

/// What a list of files holds.
pub open spec fn file_views<P>(files: Seq<(P, Option<String>)>) -> Seq<(P, Option<Seq<char>>)> {
    files.map_values(|f: (P, Option<String>)| (f.0, opt(f.1)))
}

impl<P> View for FolderScan<P> {
    type V = ScanView<P>;

    closed spec fn view(&self) -> ScanView<P> {
        ScanView { folder: self.folder@, pending: self.pending@, files: file_views(self.files@) }
    }
}

/// The place of a file: the folder's name and the path below it, with slashes.
pub open spec fn relative_place(folder: Seq<char>, inner: Seq<char>) -> Seq<char> {
    folder + "/"@ + replaced(inner, "\\"@, "/"@)
}

/// The name is one that is passed over.
pub open spec fn hidden(name: Seq<char>) -> bool {
    begins_with(name, "."@)
}

/// The walk after a name has been met.
pub open spec fn visited<P>(
    scan: ScanView<P>,
    path: P,
    name: Seq<char>,
    kind: EntryKind,
    inner: Option<Seq<char>>,
) -> ScanView<P> {
    if hidden(name) {
        scan
    } else {
        match kind {
            EntryKind::Folder => ScanView { pending: scan.pending.push(path), ..scan },
            EntryKind::File => ScanView {
                files: scan.files.push(
                    (
                        path,
                        match inner {
                            Some(inner) => Some(relative_place(scan.folder, inner)),
                            None => None,
                        },
                    ),
                ),
                ..scan
            },
            EntryKind::Other => scan,
        }
    }
}

/// The walk through a folder, before anything has been read.
pub open spec fn fresh_scan<P>(root: P, name: Option<Seq<char>>) -> ScanView<P> {
    ScanView {
        folder: match name {
            Some(name) => name,
            None => "folder"@,
        },
        pending: seq![root],
        files: Seq::empty(),
    }
}

impl<P> FolderScan<P> {
    /// The walk through a folder, before anything has been read. A folder whose name cannot be
    /// told is called `folder`.
    pub fn new(root: P, name: Option<String>) -> (r: Self)
        ensures
            r@ == fresh_scan(root, opt(name)),
    {
        let mut pending: Vec<P> = Vec::new();
        pending.push(root);
        let folder = match name {
            Some(n) => n,
            None => "folder".to_string(),
        };
        let r = FolderScan { folder, pending, files: Vec::new() };
        assert(r@.pending =~= seq![root]);
        assert(r@.files =~= Seq::empty());
        r
    }

    /// The folder that is read next. Where there is none, the walk is over.
    pub fn next_folder(&mut self) -> (r: Option<P>)
        ensures
            match r {
                Some(p) => {
                    &&& old(self)@.pending.len() > 0
                    &&& p == old(self)@.pending.last()
                    &&& final(self)@ == (ScanView { pending: old(self)@.pending.drop_last(), ..old(self)@ })
                },
                None => old(self)@.pending.len() == 0 && final(self)@ == old(self)@,
            },
    {
        self.pending.pop()
    }

    /// Meets a name in the folder that is being read. `inner` is the path below the folder where
    /// the walk began, if it can be told.
    pub fn visit(&mut self, path: P, name: &str, kind: EntryKind, inner: Option<String>)
        ensures
            final(self)@ == visited(old(self)@, path, name@, kind, opt(inner)),
    {
        if starts_with_text(name, ".") {
            return;
        }
        match kind {
            EntryKind::Folder => {
                self.pending.push(path);
            },
            EntryKind::File => {
                let place = match inner {
                    Some(inner) => {
                        proof {
                            reveal_strlit("\\");
                        }
                        let mut place = self.folder.clone();
                        place.append("/");
                        place.append(&replace_text(&inner, "\\", "/"));
                        Some(place)
                    },
                    None => None,
                };
                self.files.push((path, place));
                assert(file_views(self.files@) =~= file_views(old(self).files@).push((path, opt(place))));
            },
            EntryKind::Other => {},
        }
    }

    /// The files that were met.
    pub fn into_files(self) -> (r: Vec<(P, Option<String>)>)
        ensures
            file_views(r@) == self@.files,
    {
        self.files
    }
}

/// The folder in which a file stands, where its place is known.
pub open spec fn folder_of(place: Option<Seq<char>>) -> Option<Seq<char>> {
    match place {
        Some(p) => parent_path(p),
        None => None,
    }
}

/// Some file stands in this folder.
pub open spec fn some_file_in(places: Seq<Option<Seq<char>>>, folder: Seq<char>) -> bool {
    exists|i: int| 0 <= i < places.len() && folder_of(#[trigger] places[i]) == Some(folder)
}

/// What a list of places holds.
pub open spec fn place_views(places: Seq<Option<String>>) -> Seq<Option<Seq<char>>> {
    places.map_values(|p: Option<String>| opt(p))
}

/// The folders in which files stand, each once and in ascending order.
pub fn folders_of(places: &Vec<Option<String>>) -> (r: Vec<String>)
    ensures
        ascending(strings(r@)),
        forall|folder: Seq<char>| #[trigger]
            strings(r@).contains(folder) <==> some_file_in(place_views(places@), folder),
{
    let ghost views = place_views(places@);
    let mut out: Vec<String> = Vec::new();
    let mut i: usize = 0;
    while i < places.len()
        invariant
            i <= places@.len(),
            views == place_views(places@),
            ascending(strings(out@)),
            forall|folder: Seq<char>| #[trigger]
                strings(out@).to_set().contains(folder) <==> some_file_in(views.take(i as int), folder),
        decreases places@.len() - i,
    {
        let ghost before = strings(out@).to_set();
        let parent = match &places[i] {
            Some(place) => parent_text(place),
            None => None,
        };
        assert(opt(parent) == folder_of(views[i as int]));
        let ghost shorter = views.take(i as int);
        let ghost longer = views.take(i + 1);
        assert forall|folder: Seq<char>| some_file_in(longer, folder) <==> some_file_in(shorter, folder) || folder_of(
            views[i as int],
        ) == Some(folder) by {
            if some_file_in(longer, folder) {
                let k = choose|k: int| 0 <= k < longer.len() && folder_of(#[trigger] longer[k]) == Some(folder);
                if k < i {
                    assert(shorter[k] == longer[k]);
                }
            }
            if some_file_in(shorter, folder) {
                let k = choose|k: int| 0 <= k < shorter.len() && folder_of(#[trigger] shorter[k]) == Some(folder);
                assert(longer[k] == shorter[k]);
            }
            assert(longer[i as int] == views[i as int]);
        }
        match parent {
            Some(parent) => insert_ascending(&mut out, parent),
            None => {},
        }
        i = i + 1;
        assert forall|folder: Seq<char>| #[trigger]
            strings(out@).to_set().contains(folder) <==> some_file_in(longer, folder) by {
            assert(before.contains(folder) <==> some_file_in(shorter, folder));
        }
    }
    assert(views.take(i as int) =~= views);
    assert forall|folder: Seq<char>| #[trigger] strings(out@).contains(folder) <==> some_file_in(views, folder) by {
        assert(strings(out@).to_set().contains(folder) <==> strings(out@).contains(folder));
    }
    out
}

/// The folder at the backend that a file goes to: the one made for its folder, or else the one
/// that was chosen.
pub open spec fn target_folder(
    place: Option<Seq<char>>,
    made: Map<Seq<char>, Seq<char>>,
    chosen: Option<Seq<char>>,
) -> Option<Seq<char>> {
    match folder_of(place) {
        Some(folder) => if made.contains_key(folder) {
            Some(made[folder])
        } else {
            chosen
        },
        None => chosen,
    }
}

/// The folder at the backend that a file goes to.
pub fn target_folder_id(place: &Option<String>, made: &TextMap, chosen: &Option<String>) -> (r: Option<String>)
    ensures
        opt(r) == target_folder(opt(*place), made@, opt(*chosen)),
{
    let parent = match place {
        Some(place) => parent_text(place),
        None => None,
    };
    match parent {
        Some(folder) => match made.get(&folder) {
            Some(id) => Some(id),
            None => copy_opt(chosen),
        },
        None => copy_opt(chosen),
    }
}

/// The parts that are not empty.
pub open spec fn nonempty(parts: Seq<Seq<char>>) -> Seq<Seq<char>>
    decreases parts.len(),
{
    if parts.len() == 0 {
        parts
    } else if parts.last().len() > 0 {
        nonempty(parts.drop_last()).push(parts.last())
    } else {
        nonempty(parts.drop_last())
    }
}

/// The names of which a folder's path is made.
pub open spec fn names_of(folder: Seq<char>) -> Seq<Seq<char>> {
    nonempty(split_on(folder, '/'))
}

fn split_names(folder: &str) -> (r: Vec<String>)
    ensures
        strings(r@) == names_of(folder@),
{
    let parts = split_text(folder, '/');
    let mut out: Vec<String> = Vec::new();
    let mut i: usize = 0;
    assert(strings(out@) =~= nonempty(strings(parts@).take(0)));
    while i < parts.len()
        invariant
            i <= parts@.len(),
            strings(out@) == nonempty(strings(parts@).take(i as int)),
        decreases parts@.len() - i,
    {
        let ghost shorter = strings(parts@).take(i as int);
        let ghost longer = strings(parts@).take(i + 1);
        let ghost before = strings(out@);
        assert(longer.drop_last() =~= shorter);
        assert(longer.last() == parts@[i as int]@);
        if parts[i].as_str().unicode_len() > 0 {
            out.push(parts[i].clone());
            assert(strings(out@) =~= before.push(parts@[i as int]@));
        }
        i = i + 1;
    }
    assert(strings(parts@).take(i as int) =~= strings(parts@));
    out
}

/// A name below a path.
pub open spec fn below(path: Seq<char>, name: Seq<char>) -> Seq<char> {
    if path.len() == 0 {
        name
    } else {
        path.push('/') + name
    }
}

/// Several names, each below the one before.
pub open spec fn extended(path: Seq<char>, names: Seq<Seq<char>>) -> Seq<char>
    decreases names.len(),
{
    if names.len() == 0 {
        path
    } else {
        extended(below(path, names[0]), names.skip(1))
    }
}

/// How far the making of folders has come.
#[verifier::ext_equal]
pub struct PlanView {
    /// The folders that are still to come.
    pub folders: Seq<Seq<char>>,
    /// The names of the current folder that are still to come.
    pub names: Seq<Seq<char>>,
    /// The path of the names that are done.
    pub path: Seq<char>,
    /// The folder at the backend below which the next one is made.
    pub parent: Option<Seq<char>>,
    /// The folder at the backend below which all are made.
    pub base: Option<Seq<char>>,
    /// The folders at the backend by path.
    pub made: Map<Seq<char>, Seq<char>>,
}

/// The making of these folders before any is made.
pub open spec fn fresh_plan(folders: Seq<Seq<char>>, base: Option<Seq<char>>) -> PlanView {
    PlanView { folders, names: Seq::empty(), path: Seq::empty(), parent: base, base, made: Map::empty() }
}

/// The making of folders, gone on to the next folder that is not there; the folders that are there
/// are passed.
pub open spec fn advanced(plan: PlanView) -> PlanView
    decreases plan.folders.len(), plan.names.len(),
{
    if plan.names.len() == 0 {
        if plan.folders.len() == 0 {
            plan
        } else if plan.made.contains_key(plan.folders[0]) {
            advanced(PlanView { folders: plan.folders.skip(1), ..plan })
        } else {
            advanced(
                PlanView {
                    folders: plan.folders.skip(1),
                    names: names_of(plan.folders[0]),
                    path: Seq::empty(),
                    parent: plan.base,
                    ..plan
                },
            )
        }
    } else if plan.made.contains_key(below(plan.path, plan.names[0])) {
        let path = below(plan.path, plan.names[0]);
        advanced(PlanView { names: plan.names.skip(1), path, parent: Some(plan.made[path]), ..plan })
    } else {
        plan
    }
}

/// The plan waits for a folder that is not there, or is over.
pub open spec fn ready(plan: PlanView) -> bool {
    if plan.names.len() == 0 {
        plan.folders.len() == 0
    } else {
        !plan.made.contains_key(below(plan.path, plan.names[0]))
    }
}

/// The next folder is made in the one at hand: the one that all are below, or the one made for the
/// path so far, where that one could be made.
pub open spec fn anchored(plan: PlanView) -> bool {
    &&& plan.path.len() == 0 ==> plan.parent == plan.base
    &&& plan.made.contains_key(plan.path) && plan.path.len() > 0 ==> plan.parent == Some(plan.made[plan.path])
}

/// The plan after the next folder was made under this id, or not made.
pub open spec fn named(plan: PlanView, id: Option<Seq<char>>) -> PlanView {
    let path = below(plan.path, plan.names[0]);
    match id {
        Some(id) => PlanView {
            names: plan.names.skip(1),
            path,
            parent: Some(id),
            made: plan.made.insert(path, id),
            ..plan
        },
        None => PlanView { names: plan.names.skip(1), path, ..plan },
    }
}

/// Why the making of folders ends early.
#[derive(Debug)]
pub enum FolderError {
    /// The backend was not reached.
    Unreachable(String),
    /// What the backend answered could not be read.
    Garbled,
}

/// The id of the folder that was made, as the backend tells it; none where it made none or tells
/// none.
pub open spec fn made_id(answer: SentView) -> Option<Seq<char>> {
    match answer {
        SentView::Answered { status, document, .. } => if success(status) {
            data_text(document, "id"@)
        } else {
            None
        },
        SentView::Unreachable(_) => None,
    }
}

/// The answer ends the making of folders.
pub open spec fn ends_early(answer: SentView) -> bool {
    match answer {
        SentView::Answered { status, document, .. } => success(status) && document is None,
        SentView::Unreachable(_) => true,
    }
}

pub(crate) proof fn lemma_advanced(plan: PlanView)
    requires
        anchored(plan),
        forall|i: int| 0 <= i < plan.names.len() ==> (#[trigger] plan.names[i]).len() > 0,
    ensures
        ready(advanced(plan)),
        anchored(advanced(plan)),
        forall|i: int| 0 <= i < advanced(plan).names.len() ==> (#[trigger] advanced(plan).names[i]).len() > 0,
        advanced(plan).base == plan.base,
        advanced(plan).made == plan.made,
    decreases plan.folders.len(), plan.names.len(),
{
    if plan.names.len() == 0 {
        if plan.folders.len() == 0 {
        } else if plan.made.contains_key(plan.folders[0]) {
            lemma_advanced(PlanView { folders: plan.folders.skip(1), ..plan });
        } else {
            lemma_nonempty(split_on(plan.folders[0], '/'));
            lemma_advanced(
                PlanView {
                    folders: plan.folders.skip(1),
                    names: names_of(plan.folders[0]),
                    path: Seq::empty(),
                    parent: plan.base,
                    ..plan
                },
            );
        }
    } else if plan.made.contains_key(below(plan.path, plan.names[0])) {
        let path = below(plan.path, plan.names[0]);
        assert(plan.names[0].len() > 0);
        assert(path.len() > 0);
        let next = PlanView { names: plan.names.skip(1), path, parent: Some(plan.made[path]), ..plan };
        assert forall|i: int| 0 <= i < next.names.len() implies (#[trigger] next.names[i]).len() > 0 by {
            assert(next.names[i] == plan.names[i + 1]);
        }
        lemma_advanced(next);
    }
}

pub(crate) proof fn lemma_nonempty(parts: Seq<Seq<char>>)
    ensures
        forall|i: int| 0 <= i < nonempty(parts).len() ==> (#[trigger] nonempty(parts)[i]).len() > 0,
    decreases parts.len(),
{
    if parts.len() > 0 {
        let before = nonempty(parts.drop_last());
        lemma_nonempty(parts.drop_last());
        assert forall|i: int| 0 <= i < nonempty(parts).len() implies (#[trigger] nonempty(parts)[i]).len() > 0 by {
            if i < before.len() {
                assert(nonempty(parts)[i] == before[i]);
            }
        }
    }
}

/// The making of folders at the backend, layer by layer.
pub struct FolderPlan {
    folders: Vec<String>,
    folder_at: usize,
    names: Vec<String>,
    name_at: usize,
    path: String,
    parent_id: Option<String>,
    base_id: Option<String>,
    made: TextMap,
}

impl View for FolderPlan {
    type V = PlanView;

    closed spec fn view(&self) -> PlanView {
        PlanView {
            folders: strings(self.folders@).skip(self.folder_at as int),
            names: strings(self.names@).skip(self.name_at as int),
            path: self.path@,
            parent: opt(self.parent_id),
            base: opt(self.base_id),
            made: self.made@,
        }
    }
}

impl FolderPlan {
    /// The plan waits for a folder that is not there, or is over, and knows below which folder the
    /// next one is made.
    pub closed spec fn wf(&self) -> bool {
        &&& self.bounded()
        &&& ready(self@)
    }

    spec fn bounded(&self) -> bool {
        &&& self.folder_at <= self.folders@.len()
        &&& self.name_at <= self.names@.len()
        &&& anchored(self@)
        &&& forall|i: int| 0 <= i < self@.names.len() ==> (#[trigger] self@.names[i]).len() > 0
    }

    /// What holds of every plan: it has gone on as far as it can, and the next folder is made in
    /// the one at hand.
    pub proof fn law_next_folder_has_its_parent(&self)
        requires
            self.wf(),
        ensures
            ready(self@),
            anchored(self@),
    {
    }

    fn enter_name(&mut self)
        requires
            old(self).bounded(),
            old(self)@.names.len() > 0,
        ensures
            final(self).folder_at <= final(self).folders@.len(),
            final(self).name_at <= final(self).names@.len(),
            final(self)@ == (PlanView {
                names: old(self)@.names.skip(1),
                path: below(old(self)@.path, old(self)@.names[0]),
                ..old(self)@
            }),
    {
        assert(self.name_at < self.names.len());
        if self.path.as_str().unicode_len() > 0 {
            self.path.push('/');
        }
        self.path.append(&self.names[self.name_at]);
        self.name_at = self.name_at + 1;
        assert(strings(self.names@).skip(self.name_at as int) =~= old(self)@.names.skip(1));
        assert(self.path@ =~= below(old(self)@.path, old(self)@.names[0]));
    }

    fn advance(&mut self)
        requires
            old(self).bounded(),
        ensures
            final(self).wf(),
            final(self)@ == advanced(old(self)@),
    {
        proof {
            lemma_advanced(self@);
        }
        loop
            invariant
                self.bounded(),
                advanced(self@) == advanced(old(self)@),
            ensures
                self.bounded(),
                ready(self@),
                self@ == advanced(old(self)@),
            decreases self.folders@.len() - self.folder_at, self.names@.len() - self.name_at,
        {
            let ghost before = self@;
            if self.name_at >= self.names.len() {
                if self.folder_at >= self.folders.len() {
                    break;
                }
                let there = self.made.contains(&self.folders[self.folder_at]);
                assert(before.folders[0] == self.folders@[self.folder_at as int]@);
                if there {
                    self.folder_at = self.folder_at + 1;
                    assert(self@ =~= (PlanView { folders: before.folders.skip(1), ..before }));
                } else {
                    let names = split_names(&self.folders[self.folder_at]);
                    self.names = names;
                    self.name_at = 0;
                    self.path = String::new();
                    self.parent_id = copy_opt(&self.base_id);
                    self.folder_at = self.folder_at + 1;
                    proof {
                        lemma_nonempty(split_on(before.folders[0], '/'));
                        assert(self@ =~= (PlanView {
                            folders: before.folders.skip(1),
                            names: names_of(before.folders[0]),
                            path: Seq::empty(),
                            parent: before.base,
                            ..before
                        }));
                    }
                }
            } else {
                let path = self.next_path();
                let found = self.made.get(&path);
                match found {
                    Some(id) => {
                        self.enter_name();
                        self.parent_id = Some(id);
                        proof {
                            assert(before.names[0].len() > 0);
                            assert(self@ =~= (PlanView {
                                names: before.names.skip(1),
                                path: below(before.path, before.names[0]),
                                parent: Some(before.made[below(before.path, before.names[0])]),
                                ..before
                            }));
                            assert forall|i: int| 0 <= i < self@.names.len() implies (#[trigger] self@.names[i]).len()
                                > 0 by {
                                assert(self@.names[i] == before.names[i + 1]);
                            }
                        }
                    },
                    None => {
                        break;
                    },
                }
            }
        }
    }

    fn next_path(&self) -> (r: String)
        requires
            self.name_at < self.names@.len(),
        ensures
            r@ == below(self@.path, self@.names[0]),
    {
        let mut path = self.path.clone();
        if self.path.as_str().unicode_len() > 0 {
            path.push('/');
        }
        path.append(&self.names[self.name_at]);
        assert(path@ =~= below(self@.path, self@.names[0]));
        path
    }

    /// The making of these folders, below one that is there or at the top.
    pub fn new(folders: Vec<String>, base_id: Option<String>) -> (r: Self)
        ensures
            r.wf(),
            r@ == advanced(fresh_plan(strings(folders@), opt(base_id))),
    {
        let parent_id = copy_opt(&base_id);
        let mut plan = FolderPlan {
            folders,
            folder_at: 0,
            names: Vec::new(),
            name_at: 0,
            path: String::new(),
            parent_id,
            base_id,
            made: TextMap::new(),
        };
        assert(plan@ =~= fresh_plan(strings(folders@), opt(base_id)));
        plan.advance();
        plan
    }

    /// The request for the next folder. Where there is none, every folder has had its turn.
    pub fn request(&self, api_url: &str, project_id: &str) -> (r: Option<Request>)
        requires
            self.wf(),
        ensures
            if self@.names.len() == 0 {
                r is None
            } else {
                r matches Some(Request::Post { url, body }) && url@ == folders_address(api_url@, project_id@)
                    && object_fields(body) == folder_fields(self@.names[0], self@.parent)
            },
    {
        if self.name_at >= self.names.len() {
            return None;
        }
        Some(
            Request::Post {
                url: folders_url(api_url, project_id),
                body: folder_body(&self.names[self.name_at], &self.parent_id),
            },
        )
    }

    /// Takes the backend's answer to the request in. A folder that the backend did not make is
    /// passed over.
    pub fn create_folder_structure(&mut self, answer: &Sent) -> (r: Result<(), FolderError>)
        requires
            old(self).wf(),
            old(self)@.names.len() > 0,
        ensures
            final(self).wf(),
            match r {
                Ok(()) => !ends_early(answer@) && final(self)@ == advanced(named(old(self)@, made_id(answer@))),
                Err(FolderError::Unreachable(e)) => answer@ == SentView::Unreachable(e@) && final(self)@
                    == old(self)@,
                Err(FolderError::Garbled) => ends_early(answer@) && answer@ is Answered && final(self)@
                    == old(self)@,
            },
    {
        let id = match answer {
            Sent::Answered(reply) => {
                if reply.is_success() {
                    let document = read_document(&reply.body);
                    if document.is_none() {
                        return Err(FolderError::Garbled);
                    }
                    read_data_text(&document, "id")
                } else {
                    None
                }
            },
            Sent::Unreachable(error) => {
                return Err(FolderError::Unreachable(error.clone()));
            },
        };
        let ghost before = self@;
        let path = self.next_path();
        self.enter_name();
        match id {
            Some(id) => {
                self.made.insert(path, id.clone());
                self.parent_id = Some(id);
            },
            None => {},
        }
        proof {
            assert(self@ =~= named(before, made_id(answer@)));
            assert(before.names[0].len() > 0);
            assert forall|i: int| 0 <= i < self@.names.len() implies (#[trigger] self@.names[i]).len() > 0 by {
                assert(self@.names[i] == before.names[i + 1]);
            }
        }
        self.advance();
        Ok(())
    }

    /// The folders at the backend by path.
    pub fn into_made(self) -> (r: TextMap)
        ensures
            r@ == self@.made,
    {
        self.made
    }
}

/// The making of folders after the backend has made one folder after the other under these ids.
pub open spec fn all_made(plan: PlanView, ids: Seq<Seq<char>>) -> PlanView
    decreases ids.len(),
{
    if ids.len() == 0 || plan.names.len() == 0 {
        plan
    } else {
        all_made(advanced(named(plan, Some(ids[0]))), ids.skip(1))
    }
}

/// The folder has its place at the backend, under its path or under its names.
pub open spec fn placed(made: Map<Seq<char>, Seq<char>>, folder: Seq<char>) -> bool {
    ||| made.contains_key(folder)
    ||| names_of(folder).len() == 0
    ||| made.contains_key(extended(Seq::empty(), names_of(folder)))
}

/// The path that the plan works on is this one.
spec fn works_on(plan: PlanView, target: Seq<char>) -> bool {
    plan.names.len() > 0 && extended(plan.path, plan.names) == target
}

proof fn lemma_advance_keeps(plan: PlanView, folder: Seq<char>, target: Seq<char>)
    ensures
        advanced(plan).made == plan.made,
        plan.folders.contains(folder) ==> {
            ||| placed(plan.made, folder)
            ||| advanced(plan).folders.contains(folder)
            ||| works_on(advanced(plan), extended(Seq::empty(), names_of(folder)))
        },
        works_on(plan, target) ==> plan.made.contains_key(target) || works_on(advanced(plan), target),
    decreases plan.folders.len(), plan.names.len(),
{
    if plan.names.len() == 0 {
        if plan.folders.len() > 0 {
            let first = plan.folders[0];
            let rest = plan.folders.skip(1);
            if plan.folders.contains(folder) && folder != first {
                let k = choose|k: int| 0 <= k < plan.folders.len() && plan.folders[k] == folder;
                assert(rest[k - 1] == folder);
                assert(rest.contains(folder));
            }
            let next = if plan.made.contains_key(first) {
                PlanView { folders: rest, ..plan }
            } else {
                PlanView { folders: rest, names: names_of(first), path: Seq::empty(), parent: plan.base, ..plan }
            };
            lemma_advance_keeps(next, folder, extended(Seq::empty(), names_of(first)));
            if folder == first && !plan.made.contains_key(first) && names_of(first).len() > 0 {
                assert(works_on(next, extended(Seq::empty(), names_of(first))));
            }
        }
    } else if plan.made.contains_key(below(plan.path, plan.names[0])) {
        let path = below(plan.path, plan.names[0]);
        let next = PlanView { names: plan.names.skip(1), path, parent: Some(plan.made[path]), ..plan };
        lemma_advance_keeps(next, folder, target);
        if plan.names.len() == 1 {
            assert(plan.names.skip(1).len() == 0);
            assert(extended(path, plan.names.skip(1)) == path);
        }
    }
}

proof fn lemma_placed_grows(made: Map<Seq<char>, Seq<char>>, path: Seq<char>, id: Seq<char>, folder: Seq<char>)
    ensures
        placed(made, folder) ==> placed(made.insert(path, id), folder),
{
}

proof fn lemma_all_made(plan: PlanView, ids: Seq<Seq<char>>, folder: Seq<char>)
    requires
        ready(all_made(plan, ids)),
        all_made(plan, ids).names.len() == 0,
        ({
            ||| placed(plan.made, folder)
            ||| plan.folders.contains(folder)
            ||| works_on(plan, extended(Seq::empty(), names_of(folder)))
        }),
    ensures
        placed(all_made(plan, ids).made, folder),
    decreases ids.len(),
{
    if ids.len() == 0 || plan.names.len() == 0 {
        assert(all_made(plan, ids) == plan);
    } else {
        let target = extended(Seq::empty(), names_of(folder));
        let path = below(plan.path, plan.names[0]);
        let after = named(plan, Some(ids[0]));
        lemma_placed_grows(plan.made, path, ids[0], folder);
        lemma_advance_keeps(after, folder, target);
        if works_on(plan, target) && plan.names.len() == 1 {
            assert(plan.names.skip(1).len() == 0);
            assert(extended(path, plan.names.skip(1)) == path);
            assert(after.made.contains_key(target));
        }
        lemma_all_made(advanced(after), ids.skip(1), folder);
    }
}

/// When the backend makes every folder that it is asked for, then each folder in which a file
/// stands has its place in the end.
pub proof fn law_every_folder_is_made(folders: Seq<Seq<char>>, base: Option<Seq<char>>, ids: Seq<Seq<char>>, at: int)
    requires
        0 <= at < folders.len(),
        all_made(advanced(fresh_plan(folders, base)), ids).names.len() == 0,
    ensures
        placed(all_made(advanced(fresh_plan(folders, base)), ids).made, folders[at]),
{
    let start = fresh_plan(folders, base);
    lemma_advanced(start);
    lemma_advance_keeps(start, folders[at], folders[at]);
    assert(folders.contains(folders[at]));
    lemma_all_made_is_ready(advanced(start), ids);
    lemma_all_made(advanced(start), ids, folders[at]);
}

pub(crate) proof fn lemma_all_made_is_ready(plan: PlanView, ids: Seq<Seq<char>>)
    requires
        ready(plan),
        anchored(plan),
        forall|i: int| 0 <= i < plan.names.len() ==> (#[trigger] plan.names[i]).len() > 0,
    ensures
        ready(all_made(plan, ids)),
    decreases ids.len(),
{
    if ids.len() > 0 && plan.names.len() > 0 {
        let after = named(plan, Some(ids[0]));
        assert(plan.names[0].len() > 0);
        assert forall|i: int| 0 <= i < after.names.len() implies (#[trigger] after.names[i]).len() > 0 by {
            assert(after.names[i] == plan.names[i + 1]);
        }
        lemma_advanced(after);
        lemma_all_made_is_ready(advanced(after), ids.skip(1));
    }
}

/// No folder is asked for that is there, and a folder that was made keeps its id.
pub proof fn law_folder_is_made_once(plan: PlanView, id: Option<Seq<char>>, path: Seq<char>)
    requires
        ready(plan),
        plan.names.len() > 0,
        plan.made.contains_key(path),
    ensures
        path != below(plan.path, plan.names[0]),
        advanced(named(plan, id)).made.contains_key(path),
        advanced(named(plan, id)).made[path] == plan.made[path],
{
    lemma_advance_keeps(named(plan, id), path, path);
}

/// A folder that the backend has made is known from then on by the id that the backend told, under the
/// path that was asked for, whatever the status by which the backend said that it was made; and the next
/// name below it is made in it. No other folder is touched.
pub proof fn law_made_folder_is_recorded(
    plan: PlanView,
    status: u16,
    status_text: Seq<char>,
    text: Seq<char>,
    fields: Map<Seq<char>, Json>,
    data: Map<Seq<char>, Json>,
    id: Seq<char>,
    other: Seq<char>,
)
    requires
        plan.names.len() > 0,
        200 <= status <= 299,
        fields.contains_key("data"@),
        fields["data"@] == Json::Object(data),
        data.contains_key("id"@),
        data["id"@] == Json::Text(id),
    ensures
        ({
            let answer = SentView::Answered { status, status_text, document: Some(Json::Object(fields)), text };
            let after = advanced(named(plan, made_id(answer)));
            let path = if plan.path.len() == 0 {
                plan.names[0]
            } else {
                plan.path + seq!['/'] + plan.names[0]
            };
            &&& !ends_early(answer)
            &&& after.made.contains_key(path)
            &&& after.made[path] == id
            &&& other != path ==> after.made.contains_key(other) == plan.made.contains_key(other)
            &&& other != path && plan.made.contains_key(other) ==> after.made[other] == plan.made[other]
            &&& after.base == plan.base
            &&& plan.names.len() > 1 && plan.names[0].len() > 0 && !after.made.contains_key(
                path + seq!['/'] + plan.names[1],
            ) ==> {
                &&& after.parent == Some(id)
                &&& after.path == path
                &&& after.names == plan.names.skip(1)
                &&& after.folders == plan.folders
            }
        }),
{
    let answer = SentView::Answered { status, status_text, document: Some(Json::Object(fields)), text };
    let next = named(plan, made_id(answer));
    let path = if plan.path.len() == 0 {
        plan.names[0]
    } else {
        plan.path + seq!['/'] + plan.names[0]
    };
    assert(made_id(answer) == Some(id));
    assert(path =~= below(plan.path, plan.names[0]));
    lemma_advance_keeps(next, path, path);
    lemma_advance_base(next);
    if plan.names.len() > 1 && plan.names[0].len() > 0 {
        assert(next.names[0] == plan.names[1]);
        assert(path.len() > 0);
        assert(path + seq!['/'] + plan.names[1] =~= below(path, plan.names[1]));
    }
}

/// A folder that the backend refuses to make, or tells no id of, is passed over: nothing is recorded, and
/// the next name is made in the folder that was at hand. Where the backend is not reached, or its answer to
/// a folder that it made cannot be read, the making of folders ends.
pub proof fn law_refused_folder_is_passed(
    plan: PlanView,
    status: u16,
    status_text: Seq<char>,
    text: Seq<char>,
    document: Option<Json>,
    cause: Seq<char>,
)
    requires
        plan.names.len() > 0,
    ensures
        ({
            let answer = SentView::Answered { status, status_text, document, text };
            let met = 200 <= status <= 299;
            let after = advanced(named(plan, made_id(answer)));
            &&& ends_early(answer) <==> met && document is None
            &&& !met ==> after.made == plan.made && after.base == plan.base
            &&& !met && plan.names.len() > 1 && !plan.made.contains_key(
                below(below(plan.path, plan.names[0]), plan.names[1]),
            ) ==> after.parent == plan.parent && after.names == plan.names.skip(1)
            &&& met && (document matches Some(Json::Object(fields)) && !fields.contains_key("data"@)) ==> after.made
                == plan.made
        }),
        ends_early(SentView::Unreachable(cause)),
{
    let answer = SentView::Answered { status, status_text, document, text };
    let next = named(plan, made_id(answer));
    lemma_advance_keeps(next, plan.path, plan.path);
    lemma_advance_base(next);
    if plan.names.len() > 1 {
        assert(next.names[0] == plan.names[1]);
    }
}

proof fn lemma_advance_base(plan: PlanView)
    ensures
        advanced(plan).base == plan.base,
    decreases plan.folders.len(), plan.names.len(),
{
    if plan.names.len() == 0 {
        if plan.folders.len() > 0 {
            if plan.made.contains_key(plan.folders[0]) {
                lemma_advance_base(PlanView { folders: plan.folders.skip(1), ..plan });
            } else {
                lemma_advance_base(
                    PlanView {
                        folders: plan.folders.skip(1),
                        names: names_of(plan.folders[0]),
                        path: Seq::empty(),
                        parent: plan.base,
                        ..plan
                    },
                );
            }
        }
    } else if plan.made.contains_key(below(plan.path, plan.names[0])) {
        let path = below(plan.path, plan.names[0]);
        lemma_advance_base(PlanView { names: plan.names.skip(1), path, parent: Some(plan.made[path]), ..plan });
    }
}

/// A file goes to the folder that was made for the one in which it stands, and else to the one that was
/// chosen. One whose place is not known, or that stands at the top, goes there too.
pub proof fn law_file_goes_to_its_folder(
    folder: Seq<char>,
    name: Seq<char>,
    made: Map<Seq<char>, Seq<char>>,
    chosen: Option<Seq<char>>,
)
    requires
        folder.len() > 0,
        folder.last() != '/',
        folder.last() != '.',
        name.len() > 0,
        name != seq!['.'],
        forall|i: int| 0 <= i < name.len() ==> name[i] != '/',
    ensures
        made.contains_key(folder) ==> target_folder(Some(folder + seq!['/'] + name), made, chosen) == Some(
            made[folder],
        ),
        !made.contains_key(folder) ==> target_folder(Some(folder + seq!['/'] + name), made, chosen) == chosen,
        target_folder(None, made, chosen) == chosen,
        folder_of(Some(folder + seq!['/'] + name)) == Some(folder),
        folder_of(None) is None,
{
    assert(crate::path::trimmed_path(folder) == folder);
    crate::path::law_parent_of_joined(folder, name);
    assert(folder + seq!['/'] + name =~= folder.push('/') + name);
}

/// A name is passed over exactly if it begins with a dot. The place of a file is the folder's name and the
/// path below it, with each backslash as a slash and nothing else changed.
pub proof fn law_places(name: Seq<char>, folder: Seq<char>, inner: Seq<char>)
    ensures
        hidden(name) <==> name.len() > 0 && name[0] == '.',
        relative_place(folder, inner).len() == folder.len() + 1 + inner.len(),
        relative_place(folder, inner).take(folder.len() as int) == folder,
        relative_place(folder, inner)[folder.len() as int] == '/',
        forall|i: int|
            0 <= i < inner.len() ==> #[trigger] relative_place(folder, inner)[folder.len() + 1 + i] == if inner[i]
                == '\\' {
                '/'
            } else {
                inner[i]
            },
{
    reveal_strlit(".");
    reveal_strlit("/");
    reveal_strlit("\\");
    if name.len() > 0 {
        assert(name.subrange(0, 1)[0] == name[0]);
        if name[0] == '.' {
            assert(name.subrange(0, 1) =~= "."@);
        }
    }
    lemma_slashes(inner);
    let place = relative_place(folder, inner);
    assert(place.take(folder.len() as int) =~= folder);
}

proof fn lemma_slashes(text: Seq<char>)
    ensures
        replaced(text, "\\"@, "/"@).len() == text.len(),
        forall|i: int|
            0 <= i < text.len() ==> #[trigger] replaced(text, "\\"@, "/"@)[i] == if text[i] == '\\' {
                '/'
            } else {
                text[i]
            },
    decreases text.len(),
{
    reveal_strlit("\\");
    reveal_strlit("/");
    if text.len() > 0 {
        let rest = text.skip(1);
        lemma_slashes(rest);
        let all = replaced(text, "\\"@, "/"@);
        assert(text.subrange(0, 1)[0] == text[0]);
        if text[0] == '\\' {
            assert(text.subrange(0, 1) =~= "\\"@);
        }
        assert forall|i: int| 0 <= i < text.len() implies #[trigger] all[i] == if text[i] == '\\' {
            '/'
        } else {
            text[i]
        } by {
            if i > 0 {
                assert(all[i] == replaced(rest, "\\"@, "/"@)[i - 1]);
                assert(rest[i - 1] == text[i]);
            }
        }
    }
}

/// The folders that are to be made are those in which some file stands.
pub proof fn law_folders_of_the_files(places: Seq<Option<Seq<char>>>, place: Option<Seq<char>>, folder: Seq<char>)
    ensures
        !some_file_in(Seq::empty(), folder),
        some_file_in(places.push(place), folder) <==> some_file_in(places, folder) || (place is Some && parent_path(
            place->0,
        ) == Some(folder)),
{
    let more = places.push(place);
    if some_file_in(places, folder) {
        let i = choose|i: int| 0 <= i < places.len() && folder_of(#[trigger] places[i]) == Some(folder);
        assert(more[i] == places[i]);
    }
    if place is Some && parent_path(place->0) == Some(folder) {
        assert(more[places.len() as int] == place);
    }
    if some_file_in(more, folder) {
        let i = choose|i: int| 0 <= i < more.len() && folder_of(#[trigger] more[i]) == Some(folder);
        if i < places.len() {
            assert(places[i] == more[i]);
        }
    }
}

/// What a list of files, or of their places, holds is what each of them holds, in order.
pub proof fn law_listed_files<P>(files: Seq<(P, Option<String>)>, places: Seq<Option<String>>, i: int)
    ensures
        file_views(files).len() == files.len(),
        0 <= i < files.len() ==> file_views(files)[i].0 == files[i].0,
        0 <= i < files.len() ==> (file_views(files)[i].1 is Some <==> files[i].1 is Some),
        0 <= i < files.len() && files[i].1 is Some ==> file_views(files)[i].1->0 == files[i].1->0@,
        place_views(places).len() == places.len(),
        0 <= i < places.len() ==> (place_views(places)[i] is Some <==> places[i] is Some),
        0 <= i < places.len() && places[i] is Some ==> place_views(places)[i]->0 == places[i]->0@,
{
}

/// The id of a made folder is the one that the backend tells in a good answer; no other answer tells one.
pub proof fn law_id_of_a_made_folder(
    status: u16,
    status_text: Seq<char>,
    text: Seq<char>,
    document: Option<Json>,
    id: Seq<char>,
    cause: Seq<char>,
)
    ensures
        made_id(SentView::Answered { status, status_text, document, text }) == Some(id) <==> 200 <= status <= 299 && (
        document matches Some(Json::Object(fields)) && fields.contains_key("data"@) && (
        fields["data"@] matches Json::Object(data) && data.contains_key("id"@) && data["id"@] == Json::Text(id))),
        made_id(SentView::Unreachable(cause)) is None,
{
}

/// A name that was dealt with is passed, and the next one stands below it; where its folder was made, that
/// folder is recorded under its path and the next one is made in it.
pub proof fn law_name_is_dealt_with(plan: PlanView, id: Seq<char>)
    requires
        plan.names.len() > 0,
    ensures
        ({
            let path = if plan.path.len() == 0 {
                plan.names[0]
            } else {
                plan.path + seq!['/'] + plan.names[0]
            };
            &&& named(plan, Some(id)) == (PlanView {
                names: plan.names.skip(1),
                path,
                parent: Some(id),
                made: plan.made.insert(path, id),
                ..plan
            })
            &&& named(plan, None) == (PlanView { names: plan.names.skip(1), path, ..plan })
        }),
{
    assert(plan.path.push('/') + plan.names[0] =~= plan.path + seq!['/'] + plan.names[0]);
}

/// What was made already is passed over: the next folder to be made is the first name whose path has not
/// been made, below the folder that stands above it; each path is begun at the top, in the chosen folder.
pub proof fn law_plan_goes_on(plan: PlanView)
    ensures
        ({
            let path = if plan.path.len() == 0 {
                plan.names[0]
            } else {
                plan.path + seq!['/'] + plan.names[0]
            };
            &&& plan.names.len() > 0 && !plan.made.contains_key(path) ==> advanced(plan) == plan
            &&& plan.names.len() > 0 && plan.made.contains_key(path) ==> advanced(plan) == advanced(
                PlanView { names: plan.names.skip(1), path, parent: Some(plan.made[path]), ..plan },
            )
            &&& plan.names.len() == 0 && plan.folders.len() == 0 ==> advanced(plan) == plan
            &&& plan.names.len() == 0 && plan.folders.len() > 0 && plan.made.contains_key(plan.folders[0])
                ==> advanced(plan) == advanced(PlanView { folders: plan.folders.skip(1), ..plan })
            &&& plan.names.len() == 0 && plan.folders.len() > 0 && !plan.made.contains_key(plan.folders[0])
                ==> advanced(plan) == advanced(
                PlanView {
                    folders: plan.folders.skip(1),
                    names: names_of(plan.folders[0]),
                    path: Seq::empty(),
                    parent: plan.base,
                    ..plan
                },
            )
        }),
{
    if plan.names.len() > 0 {
        assert(plan.path.push('/') + plan.names[0] =~= plan.path + seq!['/'] + plan.names[0]);
    }
}

/// Any file goes to the folder that was made for the one above it, and else to the one that was chosen.
pub proof fn law_any_file_goes_to_its_folder(
    place: Seq<char>,
    made: Map<Seq<char>, Seq<char>>,
    chosen: Option<Seq<char>>,
)
    ensures
        parent_path(place) matches Some(folder) ==> {
            &&& made.contains_key(folder) ==> target_folder(Some(place), made, chosen) == Some(made[folder])
            &&& !made.contains_key(folder) ==> target_folder(Some(place), made, chosen) == chosen
        },
        parent_path(place) is None ==> target_folder(Some(place), made, chosen) == chosen,
        target_folder(None, made, chosen) == chosen,
        folder_of(Some(place)) == parent_path(place),
{
}

} // verus!
