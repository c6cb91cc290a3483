//! Text as sequences of characters: whitespace, trimming, splitting on a
//! separator, and comparison with literals.
//!
//! Every function here works on `Vec<char>`, whose view is the `Seq<char>`
//! that the contracts speak of. `chars_of` and `text_of` carry text between
//! that form and `str` / `String`.

use vstd::prelude::*;

verus! {

/// `String::push` of the standard library appends one character to the end
/// of the string and leaves what came before it as it was.
pub assume_specification[ std::string::String::push ](s: &mut std::string::String, c: char)
    ensures
        final(s)@ == old(s)@.push(c),
;

/// Whether `c` has the Unicode property `White_Space`: the characters that
/// trimming removes.
pub open spec fn is_space(c: char) -> bool {
    ||| '\u{9}' <= c <= '\u{d}'
    ||| c == ' '
    ||| c == '\u{85}'
    ||| c == '\u{a0}'
    ||| c == '\u{1680}'
    ||| '\u{2000}' <= c <= '\u{200a}'
    ||| c == '\u{2028}'
    ||| c == '\u{2029}'
    ||| c == '\u{202f}'
    ||| c == '\u{205f}'
    ||| c == '\u{3000}'
}

/// `s` without its leading whitespace.
pub open spec fn trim_start(s: Seq<char>) -> Seq<char>
    decreases s.len(),
{
    if s.len() > 0 && is_space(s.first()) {
        trim_start(s.drop_first())
    } else {
        s
    }
}

/// `s` without its trailing whitespace.
pub open spec fn trim_end(s: Seq<char>) -> Seq<char>
    decreases s.len(),
{
    if s.len() > 0 && is_space(s.last()) {
        trim_end(s.drop_last())
    } else {
        s
    }
}

/// `s` without leading and trailing whitespace.
pub open spec fn trim(s: Seq<char>) -> Seq<char> {
    trim_end(trim_start(s))
}

/// The index of the first `sep` in `s` at or after `from`; the length of `s`
/// where there is none.
pub open spec fn next_sep(s: Seq<char>, sep: char, from: int) -> int
    decreases s.len() - from,
{
    if from < 0 || from >= s.len() {
        s.len() as int
    } else if s[from] == sep {
        from
    } else {
        next_sep(s, sep, from + 1)
    }
}

/// The pieces of `s` from index `from` on that lie between occurrences of
/// `sep`. There is always at least one piece; it may be empty.
pub open spec fn split_from(s: Seq<char>, sep: char, from: int) -> Seq<Seq<char>>
    decreases s.len() - from,
{
    let end = next_sep(s, sep, from);
    if 0 <= from <= end < s.len() {
        seq![s.subrange(from, end)] + split_from(s, sep, end + 1)
    } else if 0 <= from <= s.len() {
        seq![s.subrange(from, s.len() as int)]
    } else {
        seq![Seq::empty()]
    }
}

/// The pieces of `s` between occurrences of `sep`: one more piece than there
/// are separators.
pub open spec fn split(s: Seq<char>, sep: char) -> Seq<Seq<char>> {
    split_from(s, sep, 0)
}

/// `next_sep` stays within the text, and what it finds is the first
/// separator from `from` on.
pub proof fn lemma_next_sep(s: Seq<char>, sep: char, from: int)
    requires
        0 <= from <= s.len(),
    ensures
        from <= next_sep(s, sep, from) <= s.len(),
        next_sep(s, sep, from) < s.len() ==> s[next_sep(s, sep, from)] == sep,
        forall|i: int| from <= i < next_sep(s, sep, from) ==> s[i] != sep,
    decreases s.len() - from,
{
    if from < s.len() && s[from] != sep {
        lemma_next_sep(s, sep, from + 1);
    }
}

/// Where no separator stands in `from..end`, and one stands at `end` or
/// the text ends there, `end` is what `next_sep` finds from `from`.
pub proof fn lemma_next_sep_is(s: Seq<char>, sep: char, from: int, end: int)
    requires
        0 <= from <= end <= s.len(),
        forall|i: int| from <= i < end ==> s[i] != sep,
        end == s.len() || s[end] == sep,
    ensures
        next_sep(s, sep, from) == end,
    decreases end - from,
{
    if from < end {
        lemma_next_sep_is(s, sep, from + 1, end);
    }
}

/// Where whitespace alone stands before index `a` and from index `b` on,
/// and none at `a` and just before `b`, trimming leaves the stretch from `a`
/// to `b`.
pub proof fn lemma_trim_is(s: Seq<char>, a: int, b: int)
    requires
        0 <= a <= b <= s.len(),
        forall|i: int| 0 <= i < a ==> is_space(s[i]),
        forall|i: int| b <= i < s.len() ==> is_space(s[i]),
        a < b ==> !is_space(s[a]) && !is_space(s[b - 1]),
        a == b ==> a == s.len(),
    ensures
        trim(s) == s.subrange(a, b),
{
    lemma_trim_start_is(s, a);
    lemma_trim_end_is(s.skip(a), b - a);
    assert(s.skip(a).take(b - a) =~= s.subrange(a, b));
}

proof fn lemma_trim_start_is(s: Seq<char>, a: int)
    requires
        0 <= a <= s.len(),
        forall|i: int| 0 <= i < a ==> is_space(s[i]),
        a < s.len() ==> !is_space(s[a]),
    ensures
        trim_start(s) == s.skip(a),
    decreases a,
{
    if a > 0 {
        lemma_trim_start_is(s.drop_first(), a - 1);
        assert(s.drop_first().skip(a - 1) =~= s.skip(a));
    } else {
        assert(s.skip(0) =~= s);
    }
}

proof fn lemma_trim_end_is(s: Seq<char>, b: int)
    requires
        0 <= b <= s.len(),
        forall|i: int| b <= i < s.len() ==> is_space(s[i]),
        b > 0 ==> !is_space(s[b - 1]),
    ensures
        trim_end(s) == s.take(b),
    decreases s.len() - b,
{
    if b < s.len() {
        lemma_trim_end_is(s.drop_last(), b);
        assert(s.drop_last().take(b) =~= s.take(b));
    } else {
        assert(s.take(b) =~= s);
    }
}

/// A stretch of `s` that begins where `s` begins or just after a separator,
/// and ends before the next separator, is one of the pieces of `s`.
pub proof fn lemma_piece_of_split(s: Seq<char>, sep: char, from: int) -> (k: int)
    requires
        0 <= from <= s.len(),
        from == 0 || s[from - 1] == sep,
    ensures
        0 <= k < split(s, sep).len(),
        split(s, sep)[k] == s.subrange(from, next_sep(s, sep, from)),
{
    lemma_piece_from(s, sep, 0, from)
}

proof fn lemma_piece_from(s: Seq<char>, sep: char, start: int, from: int) -> (k: int)
    requires
        0 <= start <= from <= s.len(),
        from == start || s[from - 1] == sep,
    ensures
        0 <= k < split_from(s, sep, start).len(),
        split_from(s, sep, start)[k] == s.subrange(from, next_sep(s, sep, from)),
    decreases from - start,
{
    lemma_next_sep(s, sep, start);
    let end = next_sep(s, sep, start);
    if start == from {
        0
    } else {
        let k = lemma_piece_from(s, sep, end + 1, from);
        k + 1
    }
}

/// Every piece of `s` is a stretch of `s` that holds no separator.
pub proof fn lemma_piece_is_stretch(s: Seq<char>, sep: char, k: int) -> (bounds: (int, int))
    requires
        0 <= k < split(s, sep).len(),
    ensures
        0 <= bounds.0 <= bounds.1 <= s.len(),
        split(s, sep)[k] == s.subrange(bounds.0, bounds.1),
        forall|i: int| bounds.0 <= i < bounds.1 ==> s[i] != sep,
{
    lemma_piece_from_is_stretch(s, sep, 0, k)
}

proof fn lemma_piece_from_is_stretch(s: Seq<char>, sep: char, from: int, k: int) -> (bounds: (
    int,
    int,
))
    requires
        0 <= from <= s.len(),
        0 <= k < split_from(s, sep, from).len(),
    ensures
        from <= bounds.0 <= bounds.1 <= s.len(),
        split_from(s, sep, from)[k] == s.subrange(bounds.0, bounds.1),
        forall|i: int| bounds.0 <= i < bounds.1 ==> s[i] != sep,
    decreases s.len() - from,
{
    lemma_next_sep(s, sep, from);
    let end = next_sep(s, sep, from);
    if k == 0 {
        (from, end)
    } else {
        lemma_piece_from_is_stretch(s, sep, end + 1, k - 1)
    }
}

/// Trimming leaves a stretch of the text.
pub proof fn lemma_trim_is_stretch(s: Seq<char>) -> (bounds: (int, int))
    ensures
        0 <= bounds.0 <= bounds.1 <= s.len(),
        trim(s) == s.subrange(bounds.0, bounds.1),
{
    let a = lemma_trim_start_is_skip(s);
    let t = s.skip(a);
    let b = lemma_trim_end_is_take(t);
    assert(t.take(b) =~= s.subrange(a, a + b));
    (a, a + b)
}

proof fn lemma_trim_start_is_skip(s: Seq<char>) -> (a: int)
    ensures
        0 <= a <= s.len(),
        trim_start(s) == s.skip(a),
    decreases s.len(),
{
    if s.len() > 0 && is_space(s.first()) {
        let a = lemma_trim_start_is_skip(s.drop_first());
        assert(s.drop_first().skip(a) =~= s.skip(a + 1));
        a + 1
    } else {
        assert(s.skip(0) =~= s);
        0
    }
}

proof fn lemma_trim_end_is_take(s: Seq<char>) -> (b: int)
    ensures
        0 <= b <= s.len(),
        trim_end(s) == s.take(b),
    decreases s.len(),
{
    if s.len() > 0 && is_space(s.last()) {
        let b = lemma_trim_end_is_take(s.drop_last());
        assert(s.drop_last().take(b) =~= s.take(b));
        b
    } else {
        assert(s.take(s.len() as int) =~= s);
        s.len() as int
    }
}

/// Whether `c` is whitespace.
pub fn is_whitespace(c: char) -> (r: bool)
    ensures
        r == is_space(c),
{
    ('\u{9}' <= c && c <= '\u{d}') || c == ' ' || c == '\u{85}' || c == '\u{a0}' || c
        == '\u{1680}' || ('\u{2000}' <= c && c <= '\u{200a}') || c == '\u{2028}' || c
        == '\u{2029}' || c == '\u{202f}' || c == '\u{205f}' || c == '\u{3000}'
}

/// The characters of `s`, in order.
pub fn chars_of(s: &str) -> (v: Vec<char>)
    ensures
        v@ == s@,
{
    let mut v: Vec<char> = Vec::new();
    for c in it: s.chars()
        invariant
            it.seq() == s@,
            v@ == s@.take(it.index() as int),
    {
        v.push(c);
        assert(v@ =~= s@.take(it.index() + 1));
    }
    assert(s@.take(s@.len() as int) =~= s@);
    v
}

/// The text that the characters of `v` spell.
pub fn text_of(v: &Vec<char>) -> (s: String)
    ensures
        s@ == v@,
{
    let mut s = String::new();
    let mut i: usize = 0;
    while i < v.len()
        invariant
            i <= v.len(),
            s@ == v@.take(i as int),
        decreases v.len() - i,
    {
        s.push(v[i]);
        i += 1;
        assert(s@ =~= v@.take(i as int));
    }
    assert(v@.take(v.len() as int) =~= v@);
    s
}

/// The characters of `v` from index `from` up to, not including, `to`.
pub fn slice_of(v: &Vec<char>, from: usize, to: usize) -> (r: Vec<char>)
    requires
        from <= to <= v.len(),
    ensures
        r@ == v@.subrange(from as int, to as int),
{
    let mut r: Vec<char> = Vec::new();
    let mut i: usize = from;
    while i < to
        invariant
            from <= i <= to <= v.len(),
            r@ == v@.subrange(from as int, i as int),
        decreases to - i,
    {
        r.push(v[i]);
        i += 1;
        assert(r@ =~= v@.subrange(from as int, i as int));
    }
    r
}

/// Whether `v` spells exactly the text `lit`.
pub fn spells(v: &Vec<char>, lit: &str) -> (r: bool)
    ensures
        r == (v@ == lit@),
{
    let w = chars_of(lit);
    if v.len() != w.len() {
        return false;
    }
    let mut i: usize = 0;
    while i < v.len()
        invariant
            i <= v.len(),
            v.len() == w.len(),
            w@ == lit@,
            v@.take(i as int) == w@.take(i as int),
        decreases v.len() - i,
    {
        if v[i] != w[i] {
            assert(v@[i as int] != w@[i as int]);
            return false;
        }
        i += 1;
        assert(v@.take(i as int) =~= v@.take(i - 1).push(v@[i - 1]));
        assert(w@.take(i as int) =~= w@.take(i - 1).push(w@[i - 1]));
    }
    assert(v@.take(v.len() as int) =~= v@);
    assert(w@.take(w.len() as int) =~= w@);
    true
}

/// `v` without leading and trailing whitespace.
pub fn trimmed(v: &Vec<char>) -> (r: Vec<char>)
    ensures
        r@ == trim(v@),
{
    let n = v.len();
    let mut a: usize = 0;
    assert(v@.skip(0) =~= v@);
    while a < n && is_whitespace(v[a])
        invariant
            n == v.len(),
            a <= n,
            trim_start(v@) == trim_start(v@.skip(a as int)),
        decreases n - a,
    {
        assert(v@.skip(a as int).drop_first() =~= v@.skip(a + 1));
        a += 1;
    }
    assert(trim_start(v@) == v@.skip(a as int));
    let mut b: usize = n;
    while b > a && is_whitespace(v[b - 1])
        invariant
            n == v.len(),
            a <= b <= n,
            trim(v@) == trim_end(v@.subrange(a as int, b as int)),
        decreases b,
    {
        assert(v@.subrange(a as int, b as int).drop_last() =~= v@.subrange(a as int, b - 1));
        b -= 1;
    }
    slice_of(v, a, b)
}

/// The index of the first `sep` in `v` at or after `from`, or the length of
/// `v`.
pub fn find_sep(v: &Vec<char>, sep: char, from: usize) -> (r: usize)
    requires
        from <= v.len(),
    ensures
        r == next_sep(v@, sep, from as int),
        from <= r <= v.len(),
{
    let mut i: usize = from;
    while i < v.len() && v[i] != sep
        invariant
            from <= i <= v.len(),
            next_sep(v@, sep, from as int) == next_sep(v@, sep, i as int),
        decreases v.len() - i,
    {
        i += 1;
    }
    i
}

/// The pieces of `v` between occurrences of `sep`.
pub fn split_on(v: &Vec<char>, sep: char) -> (r: Vec<Vec<char>>)
    ensures
        r@.len() == split(v@, sep).len(),
        forall|i: int| 0 <= i < r@.len() ==> (#[trigger] r@[i])@ == split(v@, sep)[i],
{
    let mut r: Vec<Vec<char>> = Vec::new();
    let mut from: usize = 0;
    let ghost mut done: Seq<Seq<char>> = Seq::empty();
    loop
        invariant_except_break
            from <= v.len(),
            split(v@, sep) == done + split_from(v@, sep, from as int),
        invariant
            r@.len() == done.len(),
            forall|i: int| 0 <= i < r@.len() ==> (#[trigger] r@[i])@ == done[i],
        ensures
            done == split(v@, sep),
        decreases v.len() - from,
    {
        let end = find_sep(v, sep, from);
        r.push(slice_of(v, from, end));
        proof {
            done = done.push(v@.subrange(from as int, end as int));
        }
        if end >= v.len() {
            assert(done =~= split(v@, sep));
            break ;
        }
        assert(split(v@, sep) =~= done + split_from(v@, sep, end + 1));
        from = end + 1;
    }
    r
}

} // verus!
