//! The command parser: a raw input line becomes a command name and one
//! argument string.

use vstd::prelude::*;
use crate::text::{
    chars_of, find, find_in, is_blank, is_space, lemma_find, lemma_find_is, lemma_trim,
    lemma_trim_is, lemma_trim_within, trim, trim_range,
};

verus! {

/// The command name and the argument string of a line.
///
/// The line is trimmed. A blank line has neither. Otherwise the line is cut
/// at its first space: what stands before it, trimmed, is the name, and what
/// stands after it, trimmed, is the argument. A line without a space is all
/// name.
pub open spec fn parse_spec(line: Seq<char>) -> (Option<Seq<char>>, Option<Seq<char>>) {
    let t = trim(line);
    if t.len() == 0 {
        (None, None)
    } else {
        let i = find(t, ' ');
        if i < t.len() {
            (Some(trim(t.take(i))), Some(trim(t.skip(i + 1))))
        } else {
            (Some(t), None)
        }
    }
}

/// Splits an input line into the command name and the argument string.
///
/// Only the first space splits: the argument is one string, however many
/// words it holds.
pub fn parse_command<'a>(s: &'a str) -> (r: (Option<&'a str>, Option<&'a str>))
    ensures
        r.0.deep_view() == parse_spec(s@).0,
        r.1.deep_view() == parse_spec(s@).1,
{
    let v = chars_of(s);
    let kept: (usize, usize) = trim_range(&v, 0, v.len());
    let a: usize = kept.0;
    let b: usize = kept.1;
    assert(v@.subrange(0, v.len() as int) =~= s@);
    let ghost t = trim(s@);
    if a == b {
        return (None, None);
    }
    let i: usize = find_in(&v, a, b, ' ');
    if i < b {
        let name: (usize, usize) = trim_range(&v, a, i);
        let rest: (usize, usize) = trim_range(&v, i + 1, b);
        proof {
            assert(t.take(i - a) =~= v@.subrange(a as int, i as int));
            assert(t.skip(i - a + 1) =~= v@.subrange(i + 1, b as int));
        }
        (Some(s.substring_char(name.0, name.1)), Some(s.substring_char(rest.0, rest.1)))
    } else {
        (Some(s.substring_char(a, b)), None)
    }
}

/// A line has no command name exactly when it is blank.
pub proof fn lemma_parse_blank(line: Seq<char>)
    ensures
        parse_spec(line).0 is None <==> is_blank(line),
        parse_spec(line).0 is None ==> parse_spec(line).1 is None,
{
    lemma_trim(line);
}

/// A command name is never empty and holds no space; an argument string, where
/// there is one, is not empty and neither starts nor ends with white space.
pub proof fn lemma_parse_shape(line: Seq<char>)
    ensures
        parse_spec(line).0 matches Some(name) ==> name.len() > 0 && !is_space(name[0])
            && !is_space(name.last()) && !name.contains(' '),
        parse_spec(line).1 matches Some(arg) ==> parse_spec(line).0 is Some && arg.len() > 0
            && !is_space(arg[0]) && !is_space(arg.last()),
{
    let t = trim(line);
    lemma_trim(line);
    if t.len() > 0 {
        let i = find(t, ' ');
        lemma_find(t, ' ');
        if i < t.len() {
            let head = t.take(i);
            let tail = t.skip(i + 1);
            lemma_trim(head);
            lemma_trim(tail);
            // The trimmed line starts and ends with something other than white
            // space, so neither side of the space is blank.
            assert(head[0] == t[0]);
            assert(tail.last() == t.last());
            assert(!is_blank(head));
            assert(!is_blank(tail));
            lemma_trim_within(head);
            let name = trim(head);
            assert forall|k: int| 0 <= k < name.len() implies name[k] != ' ' by {
                let j = choose|j: int| 0 <= j < head.len() && head[j] == name[k];
                assert(head[j] == t[j]);
            }
        } else {
            assert forall|k: int| 0 <= k < t.len() implies t[k] != ' ' by {}
        }
    }
}

/// A name and an argument, written with one space between them and with any
/// white space before the name, before the argument and after it, parse back
/// to that name and that argument.
pub proof fn lemma_parse_round_trip(
    name: Seq<char>,
    arg: Seq<char>,
    before: Seq<char>,
    between: Seq<char>,
    after: Seq<char>,
)
    requires
        name.len() > 0,
        forall|i: int| 0 <= i < name.len() ==> !is_space(name[i]),
        arg.len() > 0,
        !is_space(arg[0]),
        !is_space(arg.last()),
        is_blank(before),
        is_blank(between),
        is_blank(after),
    ensures
        parse_spec(before + name + seq![' '] + between + arg + after) == (Some(name), Some(arg)),
{
    let line = before + name + seq![' '] + between + arg + after;
    let core = name + seq![' '] + between + arg;
    let a = before.len() as int;
    let b = a + core.len();
    assert(line.subrange(a, b) =~= core);
    assert forall|i: int| 0 <= i < a implies is_space(line[i]) by {
        assert(line[i] == before[i]);
    }
    assert forall|i: int| b <= i < line.len() implies is_space(line[i]) by {
        assert(line[i] == after[i - b]);
    }
    assert(line[a] == name[0]);
    assert(line[b - 1] == arg.last());
    lemma_trim_is(line, a, b);
    let n = name.len() as int;
    assert(is_space(' '));
    assert forall|i: int| 0 <= i < n implies core[i] != ' ' by {
        assert(core[i] == name[i]);
    }
    assert(core[n] == ' ');
    lemma_find_is(core, ' ', n);
    assert(core.take(n) =~= name);
    lemma_trim_is(name, 0, n);
    assert(name.subrange(0, n) =~= name);
    let tail = core.skip(n + 1);
    assert(tail =~= between + arg);
    let m = between.len() as int;
    assert forall|i: int| 0 <= i < m implies is_space(tail[i]) by {
        assert(tail[i] == between[i]);
    }
    assert(tail[m] == arg[0]);
    assert(tail[tail.len() - 1] == arg.last());
    lemma_trim_is(tail, m, tail.len() as int);
    assert(tail.subrange(m, tail.len() as int) =~= arg);
}

/// A name alone, with any white space around it, parses to that name and no
/// argument.
pub proof fn lemma_parse_name_only(name: Seq<char>, before: Seq<char>, after: Seq<char>)
    requires
        name.len() > 0,
        forall|i: int| 0 <= i < name.len() ==> !is_space(name[i]),
        is_blank(before),
        is_blank(after),
    ensures
        parse_spec(before + name + after) == (Some(name), None::<Seq<char>>),
{
    let line = before + name + after;
    let a = before.len() as int;
    let b = a + name.len();
    assert(line.subrange(a, b) =~= name);
    assert forall|i: int| 0 <= i < a implies is_space(line[i]) by {
        assert(line[i] == before[i]);
    }
    assert forall|i: int| b <= i < line.len() implies is_space(line[i]) by {
        assert(line[i] == after[i - b]);
    }
    assert(line[a] == name[0]);
    assert(line[b - 1] == name.last());
    lemma_trim_is(line, a, b);
    assert(is_space(' '));
    lemma_find_is(name, ' ', name.len() as int);
}

} // verus!
