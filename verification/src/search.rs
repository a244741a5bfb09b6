//! The path searcher: a command name is looked up in the directories of a
//! search path, in order.
//!
//! Which paths are regular files is told to the searcher as a list: it never
//! looks at a file system itself.

use vstd::prelude::*;
use vstd::string::StringExecFns;
use crate::path::is_absolute;
use crate::text::{same_text, segments, split, texts, views};

verus! {

/// The path of the entry `name` of the directory `dir`.
///
/// An absolute `name` stands for itself. Otherwise the name follows the
/// directory, with a `/` between them unless the directory is empty or ends
/// with one.
pub open spec fn join(dir: Seq<char>, name: Seq<char>) -> Seq<char> {
    if is_absolute(name) {
        name
    } else if dir.len() == 0 || dir.last() == '/' {
        dir + name
    } else {
        dir + seq!['/'] + name
    }
}

/// The directories that a search path lists, in order: its pieces between
/// colons.
pub open spec fn directories(search: Seq<char>) -> Seq<Seq<char>> {
    segments(search, ':')
}

/// The paths at which `name` is looked for, one for each directory, in order.
pub open spec fn candidates(name: Seq<char>, dirs: Seq<Seq<char>>) -> Seq<Seq<char>> {
    Seq::new(dirs.len(), |i: int| join(dirs[i], name))
}

/// The first of `paths` that is among `files`.
pub open spec fn first_present(paths: Seq<Seq<char>>, files: Set<Seq<char>>) -> Option<Seq<char>>
    decreases paths.len(),
{
    if paths.len() == 0 {
        None
    } else if files.contains(paths[0]) {
        Some(paths[0])
    } else {
        first_present(paths.drop_first(), files)
    }
}

/// The executable that `name` resolves to: the first candidate, in the order
/// of the search path, that is a regular file. Nothing where the search path
/// is not set.
pub open spec fn search_spec(
    name: Seq<char>,
    search: Option<Seq<char>>,
    files: Set<Seq<char>>,
) -> Option<Seq<char>> {
    match search {
        None => None,
        Some(value) => first_present(candidates(name, directories(value)), files),
    }
}

/// The paths at which `name` is looked for; none where the search path is not
/// set.
pub open spec fn probe_spec(name: Seq<char>, search: Option<Seq<char>>) -> Seq<Seq<char>> {
    match search {
        None => Seq::empty(),
        Some(value) => candidates(name, directories(value)),
    }
}

/// The set of paths that a list of files names.
pub open spec fn file_set(files: Seq<String>) -> Set<Seq<char>> {
    Set::new(|p: Seq<char>| exists|i: int| 0 <= i < files.len() && (#[trigger] files[i])@ == p)
}

/// Joins a directory and the name of an entry in it.
pub fn join_path(dir: &str, name: &str) -> (r: String)
    ensures
        r@ == join(dir@, name@),
{
    if !name.is_empty() && name.get_char(0) == '/' {
        return String::from_str(name);
    }
    let n: usize = dir.unicode_len();
    let mut r = String::from_str(dir);
    if n > 0 && dir.get_char(n - 1) != '/' {
        proof {
            reveal_strlit("/");
            assert("/"@ =~= seq!['/']);
        }
        r.append("/");
    }
    r.append(name);
    r
}

/// Whether `path` is one of `files`.
pub fn is_listed(files: &Vec<String>, path: &str) -> (r: bool)
    ensures
        r == file_set(files@).contains(path@),
{
    let mut i: usize = 0;
    while i < files.len()
        invariant
            i <= files.len(),
            forall|k: int| 0 <= k < i ==> files@[k]@ != path@,
        decreases files.len() - i,
    {
        if same_text(files[i].as_str(), path) {
            return true;
        }
        i += 1;
    }
    false
}

/// The paths that a search for `name` asks about, in the order in which it
/// asks: the caller finds out which of them are regular files and hands those
/// to `search_path`.
pub fn candidate_paths(name: &str, search: Option<&str>) -> (r: Vec<String>)
    ensures
        texts(r@) == probe_spec(name@, search.deep_view()),
{
    let mut out: Vec<String> = Vec::new();
    match search {
        None => {
            assert(texts(out@) =~= Seq::<Seq<char>>::empty());
        },
        Some(value) => {
            let dirs = split(value, ':');
            let ghost all = candidates(name@, directories(value@));
            let mut k: usize = 0;
            while k < dirs.len()
                invariant
                    k <= dirs.len(),
                    views(dirs@) == directories(value@),
                    all == candidates(name@, directories(value@)),
                    all.len() == dirs.len(),
                    out.len() == k,
                    texts(out@) == all.take(k as int),
                decreases dirs.len() - k,
            {
                let path = join_path(dirs[k], name);
                proof {
                    assert(views(dirs@)[k as int] == dirs@[k as int]@);
                    assert(all[k as int] == path@);
                    assert forall|i: int| 0 <= i < k implies texts(out@.push(path))[i] == all[i] by {
                        assert(texts(out@)[i] == all.take(k as int)[i]);
                    }
                    assert(texts(out@.push(path)) =~= all.take(k + 1));
                }
                out.push(path);
                k += 1;
            }
            assert(all.take(dirs.len() as int) =~= all);
        },
    }
    out
}

/// Looks `cmd` up in the directories of the search path `search`, in their
/// order, and returns the path of the first that holds a regular file of that
/// name. `files` lists the paths that are regular files.
pub fn search_path(cmd: &str, search: Option<&str>, files: &Vec<String>) -> (r: Option<String>)
    ensures
        r.deep_view() == search_spec(cmd@, search.deep_view(), file_set(files@)),
{
    match search {
        None => None,
        Some(value) => {
            let dirs = split(value, ':');
            let ghost all = candidates(cmd@, directories(value@));
            let mut k: usize = 0;
            assert(all.skip(0) =~= all);
            while k < dirs.len()
                invariant
                    k <= dirs.len(),
                    search.deep_view() == Some(value@),
                    all.len() == dirs.len(),
                    views(dirs@) == directories(value@),
                    all == candidates(cmd@, directories(value@)),
                    first_present(all.skip(k as int), file_set(files@)) == first_present(
                        all,
                        file_set(files@),
                    ),
                decreases dirs.len() - k,
            {
                let path = join_path(dirs[k], cmd);
                proof {
                    assert(views(dirs@)[k as int] == dirs@[k as int]@);
                    assert(all.skip(k as int)[0] == path@);
                    assert(all.skip(k as int).drop_first() =~= all.skip(k + 1));
                }
                if is_listed(files, path.as_str()) {
                    assert(first_present(all.skip(k as int), file_set(files@)) == Some(path@));
                    return Some(path);
                }
                k += 1;
            }
            None
        },
    }
}

/// What a search returns is the first candidate that is a regular file: it is
/// one, and no candidate before it is. A search returns nothing exactly when
/// no candidate is a regular file.
pub proof fn lemma_first_present(paths: Seq<Seq<char>>, files: Set<Seq<char>>)
    ensures
        match first_present(paths, files) {
            Some(p) => exists|i: int|
                0 <= i < paths.len() && #[trigger] paths[i] == p && files.contains(p) && forall|
                    j: int,
                | 0 <= j < i ==> !files.contains(#[trigger] paths[j]),
            None => forall|i: int| 0 <= i < paths.len() ==> !files.contains(#[trigger] paths[i]),
        },
    decreases paths.len(),
{
    if paths.len() == 0 {
    } else if files.contains(paths[0]) {
    } else {
        let rest = paths.drop_first();
        lemma_first_present(rest, files);
        match first_present(rest, files) {
            Some(p) => {
                let i = choose|i: int|
                    0 <= i < rest.len() && #[trigger] rest[i] == p && files.contains(p) && forall|
                        j: int,
                    | 0 <= j < i ==> !files.contains(#[trigger] rest[j]);
                assert(paths[i + 1] == rest[i]);
                assert forall|j: int| 0 <= j < i + 1 implies !files.contains(
                    #[trigger] paths[j],
                ) by {
                    if j > 0 {
                        assert(paths[j] == rest[j - 1]);
                    }
                }
            },
            None => {
                assert forall|i: int| 0 <= i < paths.len() implies !files.contains(
                    #[trigger] paths[i],
                ) by {
                    if i > 0 {
                        assert(paths[i] == rest[i - 1]);
                    }
                }
            },
        }
    }
}

/// Earlier directories shadow later ones: where the candidate of one
/// directory is a regular file and that of no directory before it is, the
/// search returns that candidate, whatever the later directories hold.
pub proof fn lemma_earlier_directory_wins(
    name: Seq<char>,
    search: Seq<char>,
    files: Set<Seq<char>>,
    i: int,
)
    requires
        0 <= i < directories(search).len(),
        files.contains(join(directories(search)[i], name)),
        forall|j: int| 0 <= j < i ==> !files.contains(join(#[trigger] directories(search)[j], name)),
    ensures
        search_spec(name, Some(search), files) == Some(join(directories(search)[i], name)),
{
    let paths = candidates(name, directories(search));
    lemma_first_at(paths, files, i);
}

/// The first of `paths` among `files` is the one at index `i` where that one
/// is among them and none before it is.
pub proof fn lemma_first_at(paths: Seq<Seq<char>>, files: Set<Seq<char>>, i: int)
    requires
        0 <= i < paths.len(),
        files.contains(paths[i]),
        forall|j: int| 0 <= j < i ==> !files.contains(#[trigger] paths[j]),
    ensures
        first_present(paths, files) == Some(paths[i]),
    decreases i,
{
    if i > 0 {
        let rest = paths.drop_first();
        assert(!files.contains(paths[0]));
        assert forall|j: int| 0 <= j < i - 1 implies !files.contains(#[trigger] rest[j]) by {
            assert(rest[j] == paths[j + 1]);
        }
        assert(rest[i - 1] == paths[i]);
        lemma_first_at(rest, files, i - 1);
    }
}

/// A search depends on the files only through the candidates: two sets of
/// files that agree on every candidate give the same result.
pub proof fn lemma_search_reads_candidates(
    name: Seq<char>,
    search: Option<Seq<char>>,
    files: Set<Seq<char>>,
    other: Set<Seq<char>>,
)
    requires
        forall|i: int|
            0 <= i < probe_spec(name, search).len() ==> (files.contains(
                #[trigger] probe_spec(name, search)[i],
            ) <==> other.contains(probe_spec(name, search)[i])),
    ensures
        search_spec(name, search, files) == search_spec(name, search, other),
{
    if let Some(value) = search {
        let paths = candidates(name, directories(value));
        assert forall|i: int| 0 <= i < paths.len() implies (files.contains(#[trigger] paths[i])
            <==> other.contains(paths[i])) by {
            assert(paths[i] == probe_spec(name, search)[i]);
        }
        lemma_first_agrees(paths, files, other);
    }
}

/// Two sets of files that agree on every one of `paths` have the same first
/// of them.
pub proof fn lemma_first_agrees(paths: Seq<Seq<char>>, files: Set<Seq<char>>, other: Set<Seq<char>>)
    requires
        forall|i: int|
            0 <= i < paths.len() ==> (files.contains(#[trigger] paths[i]) <==> other.contains(
                paths[i],
            )),
    ensures
        first_present(paths, files) == first_present(paths, other),
    decreases paths.len(),
{
    if paths.len() > 0 {
        assert(files.contains(paths[0]) <==> other.contains(paths[0]));
        let rest = paths.drop_first();
        assert forall|i: int| 0 <= i < rest.len() implies (files.contains(#[trigger] rest[i])
            <==> other.contains(rest[i])) by {
            assert(rest[i] == paths[i + 1]);
        }
        lemma_first_agrees(rest, files, other);
    }
}

} // verus!
