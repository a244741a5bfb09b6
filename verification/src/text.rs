//! Characters and character sequences: white space, trimming, finding and
//! cutting at a separator.
//!
//! Every executable function here is stated against a specification over
//! `Seq<char>`, the view of `str` and `String`.

use vstd::prelude::*;

verus! {

/// Whether `c` has the Unicode property `White_Space`.
pub open spec fn is_space(c: char) -> bool {
    let n = c as u32;
    ||| 0x09 <= n <= 0x0D
    ||| n == 0x20
    ||| n == 0x85
    ||| n == 0xA0
    ||| n == 0x1680
    ||| 0x2000 <= n <= 0x200A
    ||| n == 0x2028
    ||| n == 0x2029
    ||| n == 0x202F
    ||| n == 0x205F
    ||| n == 0x3000
}

/// `s` without its leading white space.
pub open spec fn trim_start(s: Seq<char>) -> Seq<char>
    decreases s.len(),
{
    if s.len() > 0 && is_space(s[0]) {
        trim_start(s.drop_first())
    } else {
        s
    }
}

/// `s` without its trailing white space.
pub open spec fn trim_end(s: Seq<char>) -> Seq<char>
    decreases s.len(),
{
    if s.len() > 0 && is_space(s.last()) {
        trim_end(s.drop_last())
    } else {
        s
    }
}

/// `s` without its leading and trailing white space.
pub open spec fn trim(s: Seq<char>) -> Seq<char> {
    trim_end(trim_start(s))
}

/// Whether `s` holds nothing but white space.
pub open spec fn is_blank(s: Seq<char>) -> bool {
    forall|i: int| 0 <= i < s.len() ==> is_space(#[trigger] s[i])
}

/// The index of the first `c` in `s`, or `s.len()` where `s` holds none.
pub open spec fn find(s: Seq<char>, c: char) -> int
    decreases s.len(),
{
    if s.len() == 0 || s[0] == c {
        0
    } else {
        1 + find(s.drop_first(), c)
    }
}

/// The pieces of `s` between its separators `sep`, in order. A sequence with
/// `k` separators has `k + 1` pieces, some of which may be empty.
pub open spec fn segments(s: Seq<char>, sep: char) -> Seq<Seq<char>>
    decreases s.len(),
{
    let i = find(s, sep);
    if 0 <= i < s.len() {
        seq![s.take(i)] + segments(s.skip(i + 1), sep)
    } else {
        seq![s]
    }
}

/// The number of white-space characters that `s` starts with.
pub open spec fn leading(s: Seq<char>) -> int
    decreases s.len(),
{
    if s.len() > 0 && is_space(s[0]) {
        1 + leading(s.drop_first())
    } else {
        0
    }
}

/// The number of white-space characters that `s` ends with.
pub open spec fn trailing(s: Seq<char>) -> int
    decreases s.len(),
{
    if s.len() > 0 && is_space(s.last()) {
        1 + trailing(s.drop_last())
    } else {
        0
    }
}

/// The pieces with `sep` between each two of them.
pub open spec fn rejoin(pieces: Seq<Seq<char>>, sep: char) -> Seq<char>
    decreases pieces.len(),
{
    if pieces.len() == 0 {
        Seq::empty()
    } else if pieces.len() == 1 {
        pieces[0]
    } else {
        pieces[0] + seq![sep] + rejoin(pieces.drop_first(), sep)
    }
}

/// The views of a vector of string slices.
pub open spec fn views(v: Seq<&str>) -> Seq<Seq<char>> {
    Seq::new(v.len(), |i: int| v[i]@)
}

/// The views of a vector of strings.
pub open spec fn texts(v: Seq<String>) -> Seq<Seq<char>> {
    Seq::new(v.len(), |i: int| v[i]@)
}

/// `find` returns the first index at which `c` stands, and the length of `s`
/// exactly when `c` does not occur.
pub proof fn lemma_find(s: Seq<char>, c: char)
    ensures
        0 <= find(s, c) <= s.len(),
        find(s, c) < s.len() ==> s[find(s, c)] == c,
        forall|i: int| 0 <= i < find(s, c) ==> s[i] != c,
    decreases s.len(),
{
    if s.len() == 0 || s[0] == c {
    } else {
        let t = s.drop_first();
        lemma_find(t, c);
        assert forall|i: int| 0 <= i < find(s, c) implies s[i] != c by {
            if i > 0 {
                assert(s[i] == t[i - 1]);
            }
        }
    }
}

/// An index before which `c` does not occur, and at which `s` ends or `c`
/// stands, is the one that `find` returns.
pub proof fn lemma_find_is(s: Seq<char>, c: char, n: int)
    requires
        0 <= n <= s.len(),
        forall|i: int| 0 <= i < n ==> s[i] != c,
        n == s.len() || s[n] == c,
    ensures
        find(s, c) == n,
    decreases s.len(),
{
    if n > 0 {
        let t = s.drop_first();
        assert forall|i: int| 0 <= i < n - 1 implies t[i] != c by {
            assert(t[i] == s[i + 1]);
        }
        lemma_find_is(t, c, n - 1);
    }
}

/// Leading white space of length `n`, followed by the end or by another
/// character, is what `trim_start` removes.
pub proof fn lemma_trim_start_is(s: Seq<char>, n: int)
    requires
        0 <= n <= s.len(),
        forall|i: int| 0 <= i < n ==> is_space(s[i]),
        n == s.len() || !is_space(s[n]),
    ensures
        trim_start(s) == s.skip(n),
    decreases s.len(),
{
    if n == 0 {
        assert(s.skip(0) =~= s);
    } else {
        let t = s.drop_first();
        assert forall|i: int| 0 <= i < n - 1 implies is_space(t[i]) by {
            assert(t[i] == s[i + 1]);
        }
        lemma_trim_start_is(t, n - 1);
        assert(t.skip(n - 1) =~= s.skip(n));
    }
}

/// Trailing white space from index `n` on, preceded by the start or by
/// another character, is what `trim_end` removes.
pub proof fn lemma_trim_end_is(s: Seq<char>, n: int)
    requires
        0 <= n <= s.len(),
        forall|i: int| n <= i < s.len() ==> is_space(s[i]),
        n == 0 || !is_space(s[n - 1]),
    ensures
        trim_end(s) == s.take(n),
    decreases s.len(),
{
    if n == s.len() {
        assert(s.take(n) =~= s);
    } else {
        let t = s.drop_last();
        lemma_trim_end_is(t, n);
        assert(t.take(n) =~= s.take(n));
    }
}

/// White space before index `a` and from index `b` on, around a part that is
/// empty or neither starts nor ends with white space: `trim` keeps that part.
pub proof fn lemma_trim_is(s: Seq<char>, a: int, b: int)
    requires
        0 <= a <= b <= s.len(),
        forall|i: int| 0 <= i < a ==> is_space(s[i]),
        forall|i: int| b <= i < s.len() ==> is_space(s[i]),
        a < b ==> !is_space(s[a]) && !is_space(s[b - 1]),
    ensures
        trim(s) == s.subrange(a, b),
{
    if a < b {
        lemma_trim_start_is(s, a);
        let t = s.skip(a);
        assert forall|i: int| b - a <= i < t.len() implies is_space(t[i]) by {
            assert(t[i] == s[i + a]);
        }
        lemma_trim_end_is(t, b - a);
        assert(t.take(b - a) =~= s.subrange(a, b));
    } else {
        lemma_trim_start_is(s, s.len() as int);
        let t = s.skip(s.len() as int);
        lemma_trim_end_is(t, 0);
        assert(t.take(0) =~= s.subrange(a, b));
    }
}

/// `leading` counts exactly the white space before the first other character.
pub proof fn lemma_leading(s: Seq<char>)
    ensures
        0 <= leading(s) <= s.len(),
        forall|i: int| 0 <= i < leading(s) ==> is_space(s[i]),
        leading(s) == s.len() || !is_space(s[leading(s)]),
    decreases s.len(),
{
    if s.len() > 0 && is_space(s[0]) {
        let t = s.drop_first();
        lemma_leading(t);
        assert forall|i: int| 0 <= i < leading(s) implies is_space(s[i]) by {
            if i > 0 {
                assert(s[i] == t[i - 1]);
            }
        }
    }
}

/// `trailing` counts exactly the white space after the last other character.
pub proof fn lemma_trailing(s: Seq<char>)
    ensures
        0 <= trailing(s) <= s.len(),
        forall|i: int| s.len() - trailing(s) <= i < s.len() ==> is_space(s[i]),
        trailing(s) == s.len() || !is_space(s[s.len() - trailing(s) - 1]),
    decreases s.len(),
{
    if s.len() > 0 && is_space(s.last()) {
        let t = s.drop_last();
        lemma_trailing(t);
        assert forall|i: int| s.len() - trailing(s) <= i < s.len() implies is_space(s[i]) by {
            if i < s.len() - 1 {
                assert(s[i] == t[i]);
            }
        }
    }
}

/// A trimmed sequence neither starts nor ends with white space, and it is
/// empty exactly when the sequence was blank.
pub proof fn lemma_trim(s: Seq<char>)
    ensures
        trim(s).len() > 0 ==> !is_space(trim(s)[0]) && !is_space(trim(s).last()),
        trim(s).len() == 0 <==> is_blank(s),
        trim(s).len() <= s.len(),
{
    let a = leading(s);
    lemma_leading(s);
    lemma_trim_start_is(s, a);
    let t = s.skip(a);
    let b = t.len() - trailing(t);
    lemma_trailing(t);
    lemma_trim_end_is(t, b);
    assert(trim(s) == t.take(b));
    if trim(s).len() == 0 {
        assert forall|i: int| 0 <= i < s.len() implies is_space(#[trigger] s[i]) by {
            if i >= a {
                assert(t[i - a] == s[i]);
            }
        }
    }
    if is_blank(s) && trim(s).len() > 0 {
        assert(t.take(b)[0] == s[a]);
    }
}

/// Every character of a trimmed sequence stands in the sequence.
pub proof fn lemma_trim_within(s: Seq<char>)
    ensures
        forall|k: int|
            0 <= k < trim(s).len() ==> exists|j: int|
                0 <= j < s.len() && s[j] == #[trigger] trim(s)[k],
{
    let a = leading(s);
    lemma_leading(s);
    lemma_trim_start_is(s, a);
    let u = s.skip(a);
    let b = u.len() - trailing(u);
    lemma_trailing(u);
    lemma_trim_end_is(u, b);
    assert forall|k: int| 0 <= k < trim(s).len() implies exists|j: int|
        0 <= j < s.len() && s[j] == #[trigger] trim(s)[k] by {
        assert(s[k + a] == trim(s)[k]);
    }
}

/// No piece between separators holds a separator, and there is always at
/// least one piece.
pub proof fn lemma_segments_hold_no_separator(s: Seq<char>, sep: char)
    ensures
        segments(s, sep).len() > 0,
        forall|k: int| 0 <= k < segments(s, sep).len() ==> !(#[trigger] segments(s, sep)[k]).contains(sep),
    decreases s.len(),
{
    let i = find(s, sep);
    lemma_find(s, sep);
    if 0 <= i < s.len() {
        let rest = s.skip(i + 1);
        lemma_segments_hold_no_separator(rest, sep);
        assert forall|k: int| 0 <= k < segments(s, sep).len() implies !(#[trigger] segments(
            s,
            sep,
        )[k]).contains(sep) by {
            if k > 0 {
                assert(segments(s, sep)[k] == segments(rest, sep)[k - 1]);
            }
        }
    }
}

/// A sequence without a separator is its own single piece.
pub proof fn lemma_segments_of_piece(s: Seq<char>, sep: char)
    requires
        !s.contains(sep),
    ensures
        segments(s, sep) == seq![s],
{
    lemma_find_is(s, sep, s.len() as int);
}

/// The pieces of two sequences joined by a separator are the pieces of the
/// first, then those of the second.
pub proof fn lemma_segments_concat(a: Seq<char>, b: Seq<char>, sep: char)
    ensures
        segments(a + seq![sep] + b, sep) == segments(a, sep) + segments(b, sep),
    decreases a.len(),
{
    let whole = a + seq![sep] + b;
    let i = find(a, sep);
    lemma_find(a, sep);
    assert forall|k: int| 0 <= k < i implies whole[k] != sep by {
        assert(whole[k] == a[k]);
    }
    if i < a.len() {
        assert(whole[i] == a[i]);
        lemma_find_is(whole, sep, i);
        assert(whole.take(i) =~= a.take(i));
        assert(whole.skip(i + 1) =~= a.skip(i + 1) + seq![sep] + b);
        lemma_segments_concat(a.skip(i + 1), b, sep);
        assert(segments(whole, sep) =~= segments(a, sep) + segments(b, sep));
    } else {
        assert(whole[i] == sep);
        lemma_find_is(whole, sep, i);
        assert(whole.take(i) =~= a);
        assert(whole.skip(i + 1) =~= b);
    }
}

/// Cutting loses nothing: the pieces of a sequence, with the separator put
/// back between them, are the sequence.
pub proof fn lemma_segments_rejoin(s: Seq<char>, sep: char)
    ensures
        rejoin(segments(s, sep), sep) == s,
    decreases s.len(),
{
    let i = find(s, sep);
    lemma_find(s, sep);
    if 0 <= i < s.len() {
        let rest = s.skip(i + 1);
        lemma_segments_rejoin(rest, sep);
        lemma_segments_hold_no_separator(rest, sep);
        let pieces = segments(s, sep);
        assert(pieces.drop_first() =~= segments(rest, sep));
        assert(pieces[0] == s.take(i));
        assert(s.take(i) + seq![sep] + rest =~= s);
    }
}

/// Whether `c` is a white-space character.
pub fn is_space_char(c: char) -> (b: bool)
    ensures
        b == is_space(c),
{
    let n: u32 = c as u32;
    (0x09 <= n && n <= 0x0D) || n == 0x20 || n == 0x85 || n == 0xA0 || n == 0x1680 || (0x2000 <= n
        && n <= 0x200A) || n == 0x2028 || n == 0x2029 || n == 0x202F || n == 0x205F || n == 0x3000
}

/// The characters of `s`, one element per character.
pub fn chars_of(s: &str) -> (v: Vec<char>)
    ensures
        v@ == s@,
{
    let mut v: Vec<char> = Vec::new();
    for c in it: s.chars()
        invariant
            it.seq() == s@,
            v@ == s@.take(it.index()),
    {
        v.push(c);
        assert(s@.take(it.index() + 1) =~= s@.take(it.index()).push(c));
    }
    assert(s@.take(s@.len() as int) =~= s@);
    v
}

/// Whether two string slices hold the same characters.
pub fn same_text(a: &str, b: &str) -> (r: bool)
    ensures
        r == (a@ == b@),
{
    let x = chars_of(a);
    let y = chars_of(b);
    if x.len() != y.len() {
        return false;
    }
    let mut i: usize = 0;
    while i < x.len()
        invariant
            x@ == a@,
            y@ == b@,
            x.len() == y.len(),
            i <= x.len(),
            forall|k: int| 0 <= k < i ==> x@[k] == y@[k],
        decreases x.len() - i,
    {
        if x[i] != y[i] {
            return false;
        }
        i += 1;
    }
    assert(x@ =~= y@);
    true
}

/// The bounds of what `trim` keeps of `v[lo..hi]`.
pub fn trim_range(v: &Vec<char>, lo: usize, hi: usize) -> (r: (usize, usize))
    requires
        lo <= hi <= v.len(),
    ensures
        lo <= r.0 <= r.1 <= hi,
        v@.subrange(r.0 as int, r.1 as int) == trim(v@.subrange(lo as int, hi as int)),
{
    let ghost s = v@.subrange(lo as int, hi as int);
    let mut a: usize = lo;
    while a < hi && is_space_char(v[a])
        invariant
            lo <= a <= hi <= v.len(),
            forall|k: int| lo <= k < a ==> is_space(v@[k]),
        decreases hi - a,
    {
        a += 1;
    }
    let mut b: usize = hi;
    while b > a && is_space_char(v[b - 1])
        invariant
            lo <= a <= b <= hi <= v.len(),
            forall|k: int| b <= k < hi ==> is_space(v@[k]),
        decreases b,
    {
        b -= 1;
    }
    proof {
        lemma_trim_start_is(s, a - lo);
        let t = s.skip(a - lo);
        lemma_trim_end_is(t, b - a);
        assert(t.take(b - a) =~= v@.subrange(a as int, b as int));
    }
    (a, b)
}

/// The index of the first `c` in `v[lo..hi]`, or `hi` where there is none.
pub fn find_in(v: &Vec<char>, lo: usize, hi: usize, c: char) -> (i: usize)
    requires
        lo <= hi <= v.len(),
    ensures
        lo <= i <= hi,
        i - lo == find(v@.subrange(lo as int, hi as int), c),
{
    let mut i: usize = lo;
    while i < hi && v[i] != c
        invariant
            lo <= i <= hi <= v.len(),
            forall|k: int| lo <= k < i ==> v@[k] != c,
        decreases hi - i,
    {
        i += 1;
    }
    proof {
        lemma_find_is(v@.subrange(lo as int, hi as int), c, i - lo);
    }
    i
}

/// Cuts `s` at every `sep`.
pub fn split<'a>(s: &'a str, sep: char) -> (pieces: Vec<&'a str>)
    ensures
        views(pieces@) == segments(s@, sep),
{
    let v = chars_of(s);
    let n = v.len();
    let mut pieces: Vec<&'a str> = Vec::new();
    let mut start: usize = 0;
    let mut i: usize = 0;
    proof {
        assert(s@.skip(0) =~= s@);
        assert(views(pieces@) + segments(s@, sep) =~= segments(s@, sep));
    }
    while i < n
        invariant
            v@ == s@,
            n == v.len(),
            start <= i <= n,
            forall|k: int| start <= k < i ==> v@[k] != sep,
            views(pieces@) + segments(s@.skip(start as int), sep) == segments(s@, sep),
        decreases n - i,
    {
        if v[i] == sep {
            let piece = s.substring_char(start, i);
            proof {
                let rest = s@.skip(start as int);
                lemma_find_is(rest, sep, i - start);
                assert(rest.take(i - start) =~= s@.subrange(start as int, i as int));
                assert(rest.skip(i - start + 1) =~= s@.skip(i + 1));
                assert(views(pieces@.push(piece)) =~= views(pieces@) + seq![piece@]);
            }
            pieces.push(piece);
            start = i + 1;
        }
        i += 1;
    }
    let piece = s.substring_char(start, n);
    proof {
        let rest = s@.skip(start as int);
        lemma_find_is(rest, sep, n - start);
        assert(rest =~= s@.subrange(start as int, n as int));
        assert(views(pieces@.push(piece)) =~= views(pieces@) + seq![piece@]);
    }
    pieces.push(piece);
    pieces
}

} // verus!
