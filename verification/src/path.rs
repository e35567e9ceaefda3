//! Paths as text: names with slashes between them.
use vstd::prelude::*;
use vstd::string::*;
use crate::text::{chars_of, string_of};

verus! {

/// `path` without the slashes and the names `.` at its end. A slash at its beginning stays.
pub open spec fn trimmed_path(path: Seq<char>) -> Seq<char>
    decreases path.len(),
{
    let n = path.len() as int;
    if n > 1 && (path[n - 1] == '/' || (path[n - 1] == '.' && path[n - 2] == '/')) {
        trimmed_path(path.drop_last())
    } else {
        path
    }
}

/// The place behind the last slash; 0 where there is none.
pub open spec fn behind_slash(path: Seq<char>) -> int
    decreases path.len(),
{
    if path.len() == 0 || path.last() == '/' {
        path.len() as int
    } else {
        behind_slash(path.drop_last())
    }
}

/// The folder in which a path stands: the path without its last name. None where it has no name.
pub open spec fn parent_path(path: Seq<char>) -> Option<Seq<char>> {
    let t = trimmed_path(path);
    if t.len() == 0 || t == seq!['/'] {
        None
    } else {
        Some(trimmed_path(t.take(behind_slash(t))))
    }
}

proof fn lemma_behind_slash(path: Seq<char>)
    ensures
        0 <= behind_slash(path) <= path.len(),
        forall|i: int| behind_slash(path) <= i < path.len() ==> path[i] != '/',
        behind_slash(path) > 0 ==> path[behind_slash(path) - 1] == '/',
    decreases path.len(),
{
    if path.len() > 0 && path.last() != '/' {
        lemma_behind_slash(path.drop_last());
        let b = behind_slash(path);
        assert forall|i: int| b <= i < path.len() implies path[i] != '/' by {
            if i < path.len() - 1 {
                assert(path.drop_last()[i] == path[i]);
            }
        }
    }
}

fn trimmed_len(chars: &Vec<char>, len: usize) -> (r: usize)
    requires
        len <= chars@.len(),
    ensures
        r <= len,
        chars@.take(r as int) == trimmed_path(chars@.take(len as int)),
{
    let mut n: usize = len;
    while n > 1 && (chars[n - 1] == '/' || (chars[n - 1] == '.' && chars[n - 2] == '/'))
        invariant
            n <= len <= chars@.len(),
            trimmed_path(chars@.take(n as int)) == trimmed_path(chars@.take(len as int)),
        decreases n,
    {
        assert(chars@.take(n as int).drop_last() =~= chars@.take(n - 1));
        n = n - 1;
    }
    n
}

/// The folder in which a path stands.
pub fn parent_text(path: &str) -> (r: Option<String>)
    ensures
        crate::text::opt(r) == parent_path(path@),
{
    let chars = chars_of(path);
    let len: usize = trimmed_len(&chars, chars.len());
    let ghost t = trimmed_path(path@);
    assert(chars@.take(chars@.len() as int) =~= path@);
    assert(chars@.take(len as int) == t);
    if len == 0 {
        return None;
    }
    if len == 1 && chars[0] == '/' {
        assert(t =~= seq!['/']);
        return None;
    }
    assert(t != seq!['/']) by {
        if t == seq!['/'] {
            assert(t.len() == 1);
            assert(t[0] == '/');
            assert(t[0] == chars@[0]);
        }
    }
    let mut at: usize = len;
    assert(t.take(len as int) =~= t);
    while at > 0 && chars[at - 1] != '/'
        invariant
            at <= len <= chars@.len(),
            t == chars@.take(len as int),
            behind_slash(t.take(at as int)) == behind_slash(t),
        decreases at,
    {
        assert(t.take(at as int).drop_last() =~= t.take(at - 1));
        at = at - 1;
    }
    let end: usize = trimmed_len(&chars, at);
    assert(t.take(at as int) =~= chars@.take(at as int));
    assert(chars@.subrange(0, end as int) =~= chars@.take(end as int));
    Some(string_of(&chars, 0, end))
}

/// A file stands in the folder that its path names before the last slash.
pub proof fn law_parent_of_joined(folder: Seq<char>, name: Seq<char>)
    requires
        folder.len() > 0,
        folder == trimmed_path(folder),
        name.len() > 0,
        name != seq!['.'],
        forall|i: int| 0 <= i < name.len() ==> name[i] != '/',
    ensures
        parent_path(folder.push('/') + name) == Some(folder),
{
    lemma_parent_of_joined(folder, name);
    assert(folder.push('/').drop_last() =~= folder);
}

/// Whatever slashes and dots end the folder before a name, the name stands in what is left without them; what
/// stands right below the root stands in it.
pub proof fn law_parent_of_any_joined(folder: Seq<char>, name: Seq<char>)
    requires
        name.len() > 0,
        name != seq!['.'],
        forall|i: int| 0 <= i < name.len() ==> name[i] != '/',
    ensures
        folder.len() > 0 ==> parent_path(folder.push('/') + name) == Some(trimmed_path(folder)),
        parent_path(seq!['/'] + name) == Some(seq!['/']),
{
    lemma_parent_of_joined(folder, name);
    lemma_parent_of_joined(Seq::empty(), name);
    let root: Seq<char> = Seq::empty();
    assert(root.push('/') + name =~= seq!['/'] + name);
    assert(root.push('/') =~= seq!['/']);
    if folder.len() > 0 {
        assert(folder.push('/').drop_last() =~= folder);
    }
}

/// The slashes at the end of a path, and the dots behind them, are cut off, and nothing else is.
pub proof fn law_trimmed_path(path: Seq<char>)
    ensures
        path.len() > 0 ==> trimmed_path(path.push('/')) == trimmed_path(path),
        path.len() > 0 ==> trimmed_path(path.push('/').push('.')) == trimmed_path(path),
        path.len() > 1 && path.last() != '/' && !(path.last() == '.' && path[path.len() - 2] == '/') ==> trimmed_path(
            path,
        ) == path,
        path.len() <= 1 ==> trimmed_path(path) == path,
        trimmed_path(seq!['/', '.']) == seq!['/'],
{
    let slash = path.push('/');
    assert(slash.drop_last() =~= path);
    if path.len() > 0 {
        assert(trimmed_path(slash) == trimmed_path(path));
        let dot = slash.push('.');
        assert(dot.drop_last() =~= slash);
        assert(dot[dot.len() - 1] == '.' && dot[dot.len() - 2] == '/');
        assert(trimmed_path(dot) == trimmed_path(slash));
    }
    let root = seq!['/', '.'];
    assert(root.drop_last() =~= seq!['/']);
    assert(trimmed_path(root) == trimmed_path(seq!['/']));
    assert(trimmed_path(seq!['/']) == seq!['/']);
}

proof fn lemma_parent_of_joined(folder: Seq<char>, name: Seq<char>)
    requires
        name.len() > 0,
        name != seq!['.'],
        forall|i: int| 0 <= i < name.len() ==> name[i] != '/',
    ensures
        parent_path(folder.push('/') + name) == Some(trimmed_path(folder.push('/'))),
{
    let path = folder.push('/') + name;
    let n = path.len() as int;
    assert(path[n - 1] == name.last());
    assert(!(path[n - 1] == '.' && path[n - 2] == '/')) by {
        if name.len() == 1 && name[0] == '.' {
            assert(name =~= seq!['.']);
        } else if name.len() > 1 {
            assert(path[n - 2] == name[name.len() - 2]);
        }
    }
    assert(trimmed_path(path) == path);
    assert(path != seq!['/']);
    lemma_behind_slash(path);
    let b = behind_slash(path);
    assert(path[folder.len() as int] == '/');
    assert(b == folder.len() + 1) by {
        if b > folder.len() + 1 {
            assert(path[b - 1] == name[b - 2 - folder.len()]);
        }
    }
    assert(path.take(b) =~= folder.push('/'));
}

/// The folder of a plain name is the one at hand, and neither the root nor nothing has a folder; a slash at
/// the end of a path does not matter.
pub proof fn law_parents(name: Seq<char>, path: Seq<char>)
    ensures
        name.len() > 0 && !name.contains('/') ==> parent_path(name) == Some(Seq::<char>::empty()),
        parent_path(Seq::empty()) is None,
        parent_path(seq!['/']) is None,
        path.len() > 0 ==> parent_path(path.push('/')) == parent_path(path),
{
    if name.len() > 0 && !name.contains('/') {
        assert(forall|i: int| 0 <= i < name.len() ==> name.contains(#[trigger] name[i]));
        assert(trimmed_path(name) == name);
        lemma_no_slash(name);
        assert(name.take(0) =~= Seq::<char>::empty());
        if name == seq!['/'] {
            assert(name[0] == '/');
        }
    }
    if path.len() > 0 {
        assert(path.push('/').drop_last() =~= path);
    }
}

proof fn lemma_no_slash(name: Seq<char>)
    requires
        forall|i: int| 0 <= i < name.len() ==> #[trigger] name[i] != '/',
    ensures
        behind_slash(name) == 0,
    decreases name.len(),
{
    if name.len() > 0 {
        assert(forall|i: int| 0 <= i < name.len() - 1 ==> #[trigger] name.drop_last()[i] == name[i]);
        lemma_no_slash(name.drop_last());
    }
}

} // verus!
