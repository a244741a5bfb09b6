//! The path normalizer: a path as typed becomes a canonical absolute path.
//!
//! The work is lexical. Nothing here looks at a file system: the home
//! directory and the working directory come in as values.

use vstd::prelude::*;
use vstd::string::StringExecFns;
use crate::text::{
    lemma_find_is, lemma_segments_concat, lemma_segments_hold_no_separator, lemma_segments_of_piece,
    same_text, segments, split, views,
};

verus! {

/// Why a path could not be resolved.
#[derive(Debug, Clone, Copy, PartialEq, Eq, Structural)]
pub enum ResolveError {
    /// The path starts with `~` and no home directory is known.
    NoHomeDirectory,
    /// The path is relative and no working directory is known.
    NoWorkingDirectory,
}

/// The component that stands for the directory itself.
pub open spec fn dot() -> Seq<char> {
    seq!['.']
}

/// The component that stands for the parent directory.
pub open spec fn dot_dot() -> Seq<char> {
    seq!['.', '.']
}

/// The components of a rebuilt path after one more component of the path
/// that is walked: `..` removes the last one, and has nothing to remove at
/// the root; `.` and the empty component change nothing; any other component
/// is added.
pub open spec fn step(stack: Seq<Seq<char>>, component: Seq<char>) -> Seq<Seq<char>> {
    if component == dot_dot() {
        if stack.len() > 0 {
            stack.drop_last()
        } else {
            stack
        }
    } else if component.len() == 0 || component == dot() {
        stack
    } else {
        stack.push(component)
    }
}

/// The components of a rebuilt path after all of `components`, in order.
pub open spec fn walk(stack: Seq<Seq<char>>, components: Seq<Seq<char>>) -> Seq<Seq<char>>
    decreases components.len(),
{
    if components.len() == 0 {
        stack
    } else {
        walk(step(stack, components[0]), components.drop_first())
    }
}

/// Each component with a `/` before it, one after the other.
pub open spec fn join_all(stack: Seq<Seq<char>>) -> Seq<char>
    decreases stack.len(),
{
    if stack.len() == 0 {
        Seq::empty()
    } else {
        join_all(stack.drop_last()) + seq!['/'] + stack.last()
    }
}

/// The absolute path with the given components: `/` alone for none.
pub open spec fn render(stack: Seq<Seq<char>>) -> Seq<char> {
    if stack.len() == 0 {
        seq!['/']
    } else {
        join_all(stack)
    }
}

/// The canonical form of a path, read from the root.
pub open spec fn normalize(path: Seq<char>) -> Seq<char> {
    render(walk(Seq::empty(), segments(path, '/')))
}

/// Whether a path starts at the root.
pub open spec fn is_absolute(path: Seq<char>) -> bool {
    path.len() > 0 && path[0] == '/'
}

/// The path with a leading `~` replaced by the home directory; nothing where
/// that is asked for and no home directory is known.
pub open spec fn expand_home(path: Seq<char>, home: Option<Seq<char>>) -> Option<Seq<char>> {
    if path.len() > 0 && path[0] == '~' {
        match home {
            Some(h) => Some(h + path.skip(1)),
            None => None,
        }
    } else {
        Some(path)
    }
}

/// The path itself where it is absolute, else the path below the working
/// directory; nothing where that is asked for and no working directory is
/// known.
pub open spec fn anchor(path: Seq<char>, cwd: Option<Seq<char>>) -> Option<Seq<char>> {
    if is_absolute(path) {
        Some(path)
    } else {
        match cwd {
            Some(c) => Some(c + seq!['/'] + path),
            None => None,
        }
    }
}

/// The canonical absolute path that `path` names for a user with the home
/// directory `home`, in the working directory `cwd`.
pub open spec fn resolve_spec(
    path: Seq<char>,
    home: Option<Seq<char>>,
    cwd: Option<Seq<char>>,
) -> Result<Seq<char>, ResolveError> {
    match expand_home(path, home) {
        None => Err(ResolveError::NoHomeDirectory),
        Some(expanded) => match anchor(expanded, cwd) {
            None => Err(ResolveError::NoWorkingDirectory),
            Some(anchored) => Ok(normalize(anchored)),
        },
    }
}

/// The result of `resolve_path` with the path as a sequence of characters.
pub open spec fn resolved(r: Result<String, ResolveError>) -> Result<Seq<char>, ResolveError> {
    match r {
        Ok(p) => Ok(p@),
        Err(e) => Err(e),
    }
}

/// A component that `step` adds to the rebuilt path.
pub open spec fn plain(component: Seq<char>) -> bool {
    component.len() > 0 && component != dot() && component != dot_dot() && !component.contains('/')
}

/// Whether a path is in canonical form: `/`, or `/` and a plain component,
/// any number of times.
pub open spec fn is_normal(path: Seq<char>) -> bool {
    exists|stack: Seq<Seq<char>>|
        path == render(stack) && forall|k: int| 0 <= k < stack.len() ==> plain(#[trigger] stack[k])
}

/// Rewrites a path to its canonical absolute form.
///
/// A leading `~` stands for `home`. A path that is then not absolute is read
/// below `cwd`. The components `.` and `..` and empty components are
/// resolved, and `..` at the root stays at the root.
pub fn resolve_path(path: &str, home: Option<&str>, cwd: Option<&str>) -> (r: Result<
    String,
    ResolveError,
>)
    ensures
        resolved(r) == resolve_spec(path@, home.deep_view(), cwd.deep_view()),
        r matches Ok(p) ==> is_normal(p@),
{
    let expanded: String = if !path.is_empty() && path.get_char(0) == '~' {
        match home {
            None => {
                return Err(ResolveError::NoHomeDirectory);
            },
            Some(h) => {
                let mut e = String::from_str(h);
                e.append(path.substring_char(1, path.unicode_len()));
                assert(path@.subrange(1, path@.len() as int) =~= path@.skip(1));
                e
            },
        }
    } else {
        String::from_str(path)
    };
    assert(Some(expanded@) == expand_home(path@, home.deep_view()));
    let anchored: String = if !expanded.as_str().is_empty() && expanded.as_str().get_char(0)
        == '/' {
        expanded
    } else {
        match cwd {
            None => {
                return Err(ResolveError::NoWorkingDirectory);
            },
            Some(c) => {
                let mut a = String::from_str(c);
                a.append("/");
                a.append(expanded.as_str());
                proof {
                    reveal_strlit("/");
                    assert("/"@ =~= seq!['/']);
                }
                a
            },
        }
    };
    assert(Some(anchored@) == anchor(expanded@, cwd.deep_view()));
    proof {
        lemma_normalize_is_normal(anchored@);
    }
    Ok(normalize_path(anchored.as_str()))
}

/// Rebuilds a path from the root, component by component.
pub fn normalize_path(path: &str) -> (r: String)
    ensures
        r@ == normalize(path@),
        is_normal(r@),
{
    proof {
        lemma_normalize_is_normal(path@);
    }
    let components = split(path, '/');
    let mut stack: Vec<&str> = Vec::new();
    let mut k: usize = 0;
    proof {
        reveal_strlit(".");
        reveal_strlit("..");
        assert("."@ =~= dot());
        assert(".."@ =~= dot_dot());
        assert(views(stack@) =~= Seq::<Seq<char>>::empty());
        assert(views(components@).skip(0) =~= views(components@));
    }
    while k < components.len()
        invariant
            k <= components.len(),
            "."@ == dot(),
            ".."@ == dot_dot(),
            views(components@) == segments(path@, '/'),
            walk(views(stack@), views(components@).skip(k as int)) == walk(
                Seq::empty(),
                segments(path@, '/'),
            ),
        decreases components.len() - k,
    {
        let component: &str = components[k];
        let ghost before = views(stack@);
        let ghost rest = views(components@).skip(k as int);
        proof {
            assert(rest[0] == component@);
            assert(rest.drop_first() =~= views(components@).skip(k + 1));
        }
        if same_text(component, "..") {
            if stack.len() > 0 {
                stack.pop();
                assert(views(stack@) =~= before.drop_last());
            }
        } else if component.is_empty() || same_text(component, ".") {
        } else {
            stack.push(component);
            assert(views(stack@) =~= before.push(component@));
        }
        assert(views(stack@) == step(before, component@));
        k += 1;
    }
    if stack.len() == 0 {
        proof {
            reveal_strlit("/");
            assert("/"@ =~= seq!['/']);
        }
        return String::from_str("/");
    }
    let mut out = String::new();
    let mut j: usize = 0;
    proof {
        assert(views(stack@).take(0) =~= Seq::<Seq<char>>::empty());
    }
    while j < stack.len()
        invariant
            j <= stack.len(),
            out@ == join_all(views(stack@).take(j as int)),
        decreases stack.len() - j,
    {
        proof {
            reveal_strlit("/");
            assert("/"@ =~= seq!['/']);
            let next = views(stack@).take(j + 1);
            assert(next.drop_last() =~= views(stack@).take(j as int));
            assert(next.last() == stack@[j as int]@);
        }
        out.append("/");
        out.append(stack[j]);
        j += 1;
    }
    assert(views(stack@).take(stack.len() as int) =~= views(stack@));
    out
}

/// Walking components that hold no `/` leaves only plain components.
pub proof fn lemma_walk_keeps_plain(stack: Seq<Seq<char>>, components: Seq<Seq<char>>)
    requires
        forall|k: int| 0 <= k < stack.len() ==> plain(#[trigger] stack[k]),
        forall|k: int| 0 <= k < components.len() ==> !(#[trigger] components[k]).contains('/'),
    ensures
        forall|k: int|
            0 <= k < walk(stack, components).len() ==> plain(#[trigger] walk(stack, components)[k]),
    decreases components.len(),
{
    if components.len() > 0 {
        let next = step(stack, components[0]);
        assert(!components[0].contains('/'));
        assert forall|k: int| 0 <= k < next.len() implies plain(#[trigger] next[k]) by {
            if k < stack.len() {
                assert(next[k] == stack[k]);
            }
        }
        let rest = components.drop_first();
        assert forall|k: int| 0 <= k < rest.len() implies !(#[trigger] rest[k]).contains('/') by {
            assert(rest[k] == components[k + 1]);
        }
        lemma_walk_keeps_plain(next, rest);
        assert(walk(stack, components) == walk(next, rest));
    }
}

/// Walking plain components adds each of them.
pub proof fn lemma_walk_of_plain(stack: Seq<Seq<char>>, components: Seq<Seq<char>>)
    requires
        forall|k: int| 0 <= k < components.len() ==> plain(#[trigger] components[k]),
    ensures
        walk(stack, components) == stack + components,
    decreases components.len(),
{
    if components.len() == 0 {
        assert(stack + components =~= stack);
    } else {
        assert(plain(components[0]));
        let rest = components.drop_first();
        assert forall|k: int| 0 <= k < rest.len() implies plain(#[trigger] rest[k]) by {
            assert(rest[k] == components[k + 1]);
        }
        lemma_walk_of_plain(stack.push(components[0]), rest);
        assert(stack.push(components[0]) + rest =~= stack + components);
    }
}

/// The pieces of a path written from plain components are an empty piece,
/// for what stands before the first `/`, and then those components.
pub proof fn lemma_segments_of_join(stack: Seq<Seq<char>>)
    requires
        forall|k: int| 0 <= k < stack.len() ==> plain(#[trigger] stack[k]),
    ensures
        segments(join_all(stack), '/') == seq![Seq::<char>::empty()] + stack,
    decreases stack.len(),
{
    if stack.len() == 0 {
        assert(segments(join_all(stack), '/') =~= seq![Seq::<char>::empty()] + stack);
    } else {
        let init = stack.drop_last();
        assert forall|k: int| 0 <= k < init.len() implies plain(#[trigger] init[k]) by {
            assert(init[k] == stack[k]);
        }
        lemma_segments_of_join(init);
        assert(plain(stack.last()));
        lemma_segments_concat(join_all(init), stack.last(), '/');
        lemma_segments_of_piece(stack.last(), '/');
        assert(seq![Seq::<char>::empty()] + init + seq![stack.last()] =~= seq![
            Seq::<char>::empty(),
        ] + stack);
    }
}

/// A canonical path is absolute, and normalizing it changes nothing.
pub proof fn lemma_normal_is_fixed(path: Seq<char>)
    requires
        is_normal(path),
    ensures
        is_absolute(path),
        normalize(path) == path,
{
    let stack = choose|stack: Seq<Seq<char>>|
        path == render(stack) && forall|k: int| 0 <= k < stack.len() ==> plain(#[trigger] stack[k]);
    let nothing = Seq::<char>::empty();
    let root = Seq::<Seq<char>>::empty();
    if stack.len() == 0 {
        let s = seq!['/'];
        lemma_find_is(s, '/', 0);
        assert(s.take(0) =~= nothing);
        assert(s.skip(1) =~= nothing);
        assert(segments(nothing, '/') =~= seq![nothing]);
        let pieces = seq![nothing] + seq![nothing];
        assert(segments(s, '/') == pieces);
        assert(pieces.drop_first() =~= seq![nothing]);
        assert(seq![nothing].drop_first() =~= Seq::<Seq<char>>::empty());
        assert(dot_dot().len() == 2);
        assert(step(root, nothing) == root);
        assert(walk(root, Seq::<Seq<char>>::empty()) == root);
        assert(walk(root, seq![nothing]) == root);
        assert(walk(root, pieces) == root);
    } else {
        lemma_segments_of_join(stack);
        let pieces = seq![nothing] + stack;
        assert(pieces.drop_first() =~= stack);
        lemma_walk_of_plain(root, stack);
        assert(root + stack =~= stack);
        assert(walk(root, pieces) == stack);
        lemma_join_starts_at_root(stack);
    }
}

/// A path written from at least one component starts with `/`.
pub proof fn lemma_join_starts_at_root(stack: Seq<Seq<char>>)
    requires
        stack.len() > 0,
    ensures
        is_absolute(join_all(stack)),
    decreases stack.len(),
{
    let init = stack.drop_last();
    if init.len() > 0 {
        lemma_join_starts_at_root(init);
        assert(join_all(stack)[0] == join_all(init)[0]);
    } else {
        assert(join_all(init).len() == 0);
        assert(join_all(stack)[0] == '/');
    }
}

/// What the normalizer returns is canonical.
pub proof fn lemma_normalize_is_normal(path: Seq<char>)
    ensures
        is_normal(normalize(path)),
{
    let pieces = segments(path, '/');
    lemma_segments_hold_no_separator(path, '/');
    lemma_walk_keeps_plain(Seq::empty(), pieces);
    let stack = walk(Seq::empty(), pieces);
    assert(normalize(path) == render(stack));
}

/// Normalizing twice is normalizing once.
pub proof fn lemma_normalize_idempotent(path: Seq<char>)
    ensures
        normalize(normalize(path)) == normalize(path),
{
    lemma_normalize_is_normal(path);
    lemma_normal_is_fixed(normalize(path));
}

/// A canonical path resolves to itself, whatever the home directory and the
/// working directory are.
pub proof fn lemma_resolve_normal(
    path: Seq<char>,
    home: Option<Seq<char>>,
    cwd: Option<Seq<char>>,
)
    requires
        is_normal(path),
    ensures
        resolve_spec(path, home, cwd) == Ok::<Seq<char>, ResolveError>(path),
{
    lemma_normal_is_fixed(path);
}

/// Resolving a path that was resolved returns it unchanged, whatever the home
/// directory and the working directory are by then.
pub proof fn lemma_resolve_idempotent(
    path: Seq<char>,
    home: Option<Seq<char>>,
    cwd: Option<Seq<char>>,
    later_home: Option<Seq<char>>,
    later_cwd: Option<Seq<char>>,
)
    ensures
        resolve_spec(path, home, cwd) matches Ok(p) ==> is_normal(p) && resolve_spec(
            p,
            later_home,
            later_cwd,
        ) == Ok::<Seq<char>, ResolveError>(p),
{
    if let Ok(p) = resolve_spec(path, home, cwd) {
        let anchored = anchor(expand_home(path, home).unwrap(), cwd).unwrap();
        lemma_normalize_is_normal(anchored);
        lemma_resolve_normal(p, later_home, later_cwd);
    }
}

/// A path is resolved unless it asks for a home directory or a working
/// directory that is not known.
pub proof fn lemma_resolve_errors(path: Seq<char>, home: Option<Seq<char>>, cwd: Option<Seq<char>>)
    ensures
        resolve_spec(path, home, cwd) == Err::<Seq<char>, ResolveError>(
            ResolveError::NoHomeDirectory,
        ) <==> path.len() > 0 && path[0] == '~' && home is None,
        is_absolute(path) ==> resolve_spec(path, home, cwd) == Ok::<Seq<char>, ResolveError>(
            normalize(path),
        ),
        home is Some && cwd is Some ==> resolve_spec(path, home, cwd) is Ok,
{
}

} // verus!
