//! Character-sequence utilities shared by every converter: substring
//! search, trimming, line splitting and joining.  The executable side
//! works on `Vec<char>`; every function is specified against a
//! mathematical counterpart over `Seq<char>`.

use vstd::prelude::*;

use crate::is_space;

verus! {

/// Index of the first occurrence of `c` in `s` at or after `from`.
pub open spec fn find_char_from(s: Seq<char>, c: char, from: int) -> Option<int>
    decreases s.len() - from,
{
    if from < 0 || from >= s.len() {
        None
    } else if s[from] == c {
        Some(from)
    } else {
        find_char_from(s, c, from + 1)
    }
}

pub proof fn lemma_find_char_props(s: Seq<char>, c: char, from: int)
    requires
        0 <= from,
    ensures
        match find_char_from(s, c, from) {
            Some(i) => from <= i < s.len() && s[i] == c && forall|k: int|
                from <= k < i ==> s[k] != c,
            None => forall|k: int| from <= k < s.len() ==> s[k] != c,
        },
    decreases s.len() - from,
{
    if from < s.len() && s[from] != c {
        lemma_find_char_props(s, c, from + 1);
    }
}

/// `pat` occurs in `s` starting exactly at position `i`.
pub open spec fn is_match_at(s: Seq<char>, pat: Seq<char>, i: int) -> bool {
    &&& 0 <= i
    &&& i + pat.len() <= s.len()
    &&& forall|k: int| 0 <= k < pat.len() ==> s[i + k] == pat[k]
}

/// Position of the first occurrence of `pat` in `s` at or after `from`.
pub open spec fn find_sub_from(s: Seq<char>, pat: Seq<char>, from: int) -> Option<int>
    decreases s.len() - from,
{
    if from < 0 || from + pat.len() > s.len() {
        None
    } else if is_match_at(s, pat, from) {
        Some(from)
    } else {
        find_sub_from(s, pat, from + 1)
    }
}

pub proof fn lemma_find_sub_props(s: Seq<char>, pat: Seq<char>, from: int)
    requires
        0 <= from,
    ensures
        match find_sub_from(s, pat, from) {
            Some(i) => from <= i && i + pat.len() <= s.len() && is_match_at(s, pat, i)
                && forall|k: int| from <= k < i ==> !is_match_at(s, pat, k),
            None => forall|k: int| from <= k ==> !is_match_at(s, pat, k),
        },
    decreases s.len() - from,
{
    if from + pat.len() <= s.len() && !is_match_at(s, pat, from) {
        lemma_find_sub_props(s, pat, from + 1);
    }
}

/// `s` contains `pat` somewhere.
pub open spec fn contains_sub(s: Seq<char>, pat: Seq<char>) -> bool {
    find_sub_from(s, pat, 0) is Some
}

/// `s` begins with `pat`.
pub open spec fn starts_with(s: Seq<char>, pat: Seq<char>) -> bool {
    is_match_at(s, pat, 0)
}

/// First index at or after `i` holding a non-whitespace character.
pub open spec fn first_non_space(s: Seq<char>, i: int) -> int
    decreases s.len() - i,
{
    if i < 0 || i >= s.len() {
        s.len() as int
    } else if is_space(s[i]) {
        first_non_space(s, i + 1)
    } else {
        i
    }
}

/// Index just after the last non-whitespace character at or before `j - 1`.
pub open spec fn last_non_space_end(s: Seq<char>, j: int) -> int
    decreases j,
{
    if j <= 0 || j > s.len() {
        0
    } else if is_space(s[j - 1]) {
        last_non_space_end(s, j - 1)
    } else {
        j
    }
}

/// `s` with leading and trailing whitespace removed.
pub open spec fn trim_spec(s: Seq<char>) -> Seq<char> {
    let a = first_non_space(s, 0);
    let b = last_non_space_end(s, s.len() as int);
    if a <= b {
        s.subrange(a, b)
    } else {
        Seq::empty()
    }
}

/// The segments of `s` between occurrences of `c`, from position `from` on.
/// A trailing separator produces no final empty segment, matching the line
/// conventions of the converters.
pub open spec fn split_from(s: Seq<char>, c: char, from: int) -> Seq<Seq<char>>
    decreases s.len() - from when 0 <= from via split_from_decreases
{
    if from >= s.len() {
        Seq::empty()
    } else {
        match find_char_from(s, c, from) {
            None => seq![s.subrange(from, s.len() as int)],
            Some(i) => seq![s.subrange(from, i)] + split_from(s, c, i + 1),
        }
    }
}

#[via_fn]
proof fn split_from_decreases(s: Seq<char>, c: char, from: int) {
    if 0 <= from < s.len() {
        lemma_find_char_props(s, c, from);
    }
}

/// The lines of `s`: segments between newline characters, with no final
/// empty line when `s` ends in a newline.
pub open spec fn lines_of(s: Seq<char>) -> Seq<Seq<char>> {
    split_from(s, '\n', 0)
}

/// The elements of `parts` from index `i` on, joined with `sep` between
/// neighbours.
pub open spec fn join_from(parts: Seq<Seq<char>>, sep: Seq<char>, i: int) -> Seq<char>
    decreases parts.len() - i,
{
    if i < 0 || i >= parts.len() {
        Seq::empty()
    } else if i == parts.len() - 1 {
        parts[i]
    } else {
        parts[i] + sep + join_from(parts, sep, i + 1)
    }
}

/// All of `parts` joined with `sep`.
pub open spec fn join_with(parts: Seq<Seq<char>>, sep: Seq<char>) -> Seq<char> {
    join_from(parts, sep, 0)
}

/// The tail of a join: separator, element, separator, element, and so on
/// from index `i`.
pub open spec fn join_tail(parts: Seq<Seq<char>>, sep: Seq<char>, i: int) -> Seq<char>
    decreases parts.len() - i,
{
    if i < 0 || i >= parts.len() {
        Seq::empty()
    } else {
        sep + parts[i] + join_tail(parts, sep, i + 1)
    }
}

pub proof fn lemma_join_from_tail(parts: Seq<Seq<char>>, sep: Seq<char>, i: int)
    requires
        0 <= i < parts.len(),
    ensures
        join_from(parts, sep, i) == parts[i] + join_tail(parts, sep, i + 1),
    decreases parts.len() - i,
{
    if i == parts.len() - 1 {
        assert(join_from(parts, sep, i) =~= parts[i] + join_tail(parts, sep, i + 1));
    } else {
        lemma_join_from_tail(parts, sep, i + 1);
        assert(join_from(parts, sep, i) =~= parts[i] + join_tail(parts, sep, i + 1));
    }
}

/// Concatenation of all of `parts`, from index `i` on.
pub open spec fn concat_from(parts: Seq<Seq<char>>, i: int) -> Seq<char>
    decreases parts.len() - i,
{
    if i < 0 || i >= parts.len() {
        Seq::empty()
    } else {
        parts[i] + concat_from(parts, i + 1)
    }
}

// ---------------------------------------------------------------------
// Executable counterparts.
// ---------------------------------------------------------------------

/// First occurrence of `c` in `v` at or after `from`.
pub fn v_find_char(v: &Vec<char>, c: char, from: usize) -> (r: Option<usize>)
    ensures
        match r {
            Some(i) => find_char_from(v@, c, from as int) == Some(i as int),
            None => find_char_from(v@, c, from as int) is None,
        },
{
    let mut i: usize = from;
    while i < v.len()
        invariant
            from <= i,
            find_char_from(v@, c, from as int) == find_char_from(v@, c, i as int),
        decreases v.len() - i,
    {
        if v[i] == c {
            return Some(i);
        }
        i = i + 1;
    }
    None
}

/// Whether `pat` occurs in `v` starting at `i`.
pub fn v_match_at(v: &Vec<char>, pat: &Vec<char>, i: usize) -> (r: bool)
    requires
        i + pat@.len() <= v@.len(),
    ensures
        r == is_match_at(v@, pat@, i as int),
{
    let n: usize = v.len();
    let mut k: usize = 0;
    while k < pat.len()
        invariant
            k <= pat@.len(),
            i + pat@.len() <= v@.len(),
            v@.len() == n,
            forall|m: int| 0 <= m < k ==> v@[i + m] == pat@[m],
        decreases pat.len() - k,
    {
        if v[i + k] != pat[k] {
            assert(!is_match_at(v@, pat@, i as int));
            return false;
        }
        k = k + 1;
    }
    true
}

/// First occurrence of `pat` in `v` at or after `from`.
pub fn v_find_sub(v: &Vec<char>, pat: &Vec<char>, from: usize) -> (r: Option<usize>)
    ensures
        match r {
            Some(i) => find_sub_from(v@, pat@, from as int) == Some(i as int),
            None => find_sub_from(v@, pat@, from as int) is None,
        },
{
    if pat.len() > v.len() || from > v.len() - pat.len() {
        return None;
    }
    let last: usize = v.len() - pat.len();
    let mut i: usize = from;
    loop
        invariant
            from <= i <= last,
            last == v@.len() - pat@.len(),
            find_sub_from(v@, pat@, from as int) == find_sub_from(v@, pat@, i as int),
        decreases last - i,
    {
        if v_match_at(v, pat, i) {
            return Some(i);
        }
        if i == last {
            assert(find_sub_from(v@, pat@, last + 1) is None);
            return None;
        }
        i = i + 1;
    }
}

/// Whether `v` contains `pat`.
pub fn v_contains_sub(v: &Vec<char>, pat: &Vec<char>) -> (r: bool)
    ensures
        r == contains_sub(v@, pat@),
{
    v_find_sub(v, pat, 0).is_some()
}

/// Whether `v` begins with `pat`.
pub fn v_starts_with(v: &Vec<char>, pat: &Vec<char>) -> (r: bool)
    ensures
        r == starts_with(v@, pat@),
{
    if pat.len() > v.len() {
        return false;
    }
    v_match_at(v, pat, 0)
}

/// A copy of `v[a..b]`.
pub fn v_subrange(v: &Vec<char>, a: usize, b: usize) -> (r: Vec<char>)
    requires
        a <= b <= v@.len(),
    ensures
        r@ == v@.subrange(a as int, b as int),
{
    let mut r: Vec<char> = Vec::new();
    let mut i: usize = a;
    while i < b
        invariant
            a <= i <= b <= v@.len(),
            r@ == v@.subrange(a as int, i as int),
        decreases b - i,
    {
        r.push(v[i]);
        assert(r@ =~= v@.subrange(a as int, i + 1));
        i = i + 1;
    }
    r
}

/// Appends all of `src` to `dst`.
pub fn v_append(dst: &mut Vec<char>, src: &Vec<char>)
    ensures
        final(dst)@ == old(dst)@ + src@,
{
    let mut i: usize = 0;
    while i < src.len()
        invariant
            i <= src@.len(),
            dst@ == old(dst)@ + src@.subrange(0, i as int),
        decreases src.len() - i,
    {
        dst.push(src[i]);
        assert(dst@ =~= old(dst)@ + src@.subrange(0, i + 1));
        i = i + 1;
    }
    assert(dst@ =~= old(dst)@ + src@);
}

/// `v` with leading and trailing whitespace removed.
pub fn v_trim(v: &Vec<char>) -> (r: Vec<char>)
    ensures
        r@ == trim_spec(v@),
{
    let mut a: usize = 0;
    while a < v.len() && is_space_exec(v[a])
        invariant
            a <= v@.len(),
            first_non_space(v@, 0) == first_non_space(v@, a as int),
        decreases v.len() - a,
    {
        a = a + 1;
    }
    let mut b: usize = v.len();
    while b > 0 && is_space_exec(v[b - 1])
        invariant
            b <= v@.len(),
            last_non_space_end(v@, v@.len() as int) == last_non_space_end(v@, b as int),
        decreases b,
    {
        b = b - 1;
    }
    if a <= b {
        v_subrange(v, a, b)
    } else {
        Vec::new()
    }
}

/// Executable test for the whitespace set of the specification.
pub fn is_space_exec(c: char) -> (r: bool)
    ensures
        r == is_space(c),
{
    c == ' ' || c == '\t' || c == '\n' || c == '\r' || c == '\u{b}' || c == '\u{c}'
}

/// The lines of `v`, as `lines_of` describes them.
pub fn v_lines(v: &Vec<char>) -> (r: Vec<Vec<char>>)
    ensures
        r.deep_view() == lines_of(v@),
{
    let mut r: Vec<Vec<char>> = Vec::new();
    let mut pos: usize = 0;
    while pos < v.len()
        invariant
            pos <= v@.len(),
            lines_of(v@) == r.deep_view() + split_from(v@, '\n', pos as int),
        decreases v.len() - pos,
    {
        let ghost prev = r.deep_view();
        match v_find_char(v, '\n', pos) {
            Some(i) => {
                proof {
                    lemma_find_char_props(v@, '\n', pos as int);
                }
                r.push(v_subrange(v, pos, i));
                assert(r.deep_view() =~~= prev + seq![v@.subrange(pos as int, i as int)]);
                assert(r.deep_view() + split_from(v@, '\n', i + 1) =~= prev + split_from(
                    v@,
                    '\n',
                    pos as int,
                ));
                pos = i + 1;
            },
            None => {
                r.push(v_subrange(v, pos, v.len()));
                assert(r.deep_view() =~~= prev + seq![v@.subrange(pos as int, v@.len() as int)]);
                assert(r.deep_view() + split_from(v@, '\n', v@.len() as int) =~= prev + split_from(
                    v@,
                    '\n',
                    pos as int,
                ));
                pos = v.len();
            },
        }
    }
    assert(split_from(v@, '\n', pos as int) =~= Seq::<Seq<char>>::empty());
    assert(r.deep_view() =~~= lines_of(v@));
    r
}

/// All of `parts` joined with `sep`, as `join_with` states.
pub fn v_join(parts: &Vec<Vec<char>>, sep: &Vec<char>) -> (r: Vec<char>)
    ensures
        r@ == join_with(parts.deep_view(), sep@),
{
    let ghost ps = parts.deep_view();
    let mut r: Vec<char> = Vec::new();
    if parts.len() == 0 {
        assert(r@ =~= join_with(ps, sep@));
        return r;
    }
    v_append(&mut r, &parts[0]);
    proof {
        lemma_join_from_tail(ps, sep@, 0);
    }
    let mut i: usize = 1;
    while i < parts.len()
        invariant
            1 <= i <= parts@.len(),
            ps == parts.deep_view(),
            ps.len() == parts@.len(),
            join_with(ps, sep@) == r@ + join_tail(ps, sep@, i as int),
        decreases parts.len() - i,
    {
        v_append(&mut r, sep);
        v_append(&mut r, &parts[i]);
        i = i + 1;
    }
    assert(join_tail(ps, sep@, parts@.len() as int) =~= Seq::<char>::empty());
    assert(r@ =~= join_with(ps, sep@));
    r
}


pub proof fn lemma_first_non_space_props(s: Seq<char>, i: int)
    requires
        0 <= i <= s.len(),
    ensures
        i <= first_non_space(s, i) <= s.len(),
        first_non_space(s, i) < s.len() ==> !is_space(s[first_non_space(s, i)]),
        forall|k: int| i <= k < first_non_space(s, i) ==> is_space(s[k]),
    decreases s.len() - i,
{
    if i < s.len() && is_space(s[i]) {
        lemma_first_non_space_props(s, i + 1);
    }
}

/// Whether two character vectors hold the same characters.
pub fn v_eq(a: &Vec<char>, b: &Vec<char>) -> (r: bool)
    ensures
        r == (a@ == b@),
{
    if a.len() != b.len() {
        assert(a@ != b@) by {
            if a@ == b@ {
                assert(a@.len() == b@.len());
            }
        }
        return false;
    }
    let mut i: usize = 0;
    while i < a.len()
        invariant
            i <= a@.len(),
            a@.len() == b@.len(),
            forall|k: int| 0 <= k < i ==> a@[k] == b@[k],
        decreases a.len() - i,
    {
        if a[i] != b[i] {
            return false;
        }
        i = i + 1;
    }
    assert(a@ =~= b@);
    true
}


/// First index at or after `i` holding whitespace.
pub open spec fn first_space(s: Seq<char>, i: int) -> int
    decreases s.len() - i,
{
    if i < 0 || i >= s.len() {
        s.len() as int
    } else if !is_space(s[i]) {
        first_space(s, i + 1)
    } else {
        i
    }
}

pub proof fn lemma_first_space_props(s: Seq<char>, i: int)
    requires
        0 <= i <= s.len(),
    ensures
        i <= first_space(s, i) <= s.len(),
    decreases s.len() - i,
{
    if i < s.len() && !is_space(s[i]) {
        lemma_first_space_props(s, i + 1);
    }
}

/// First non-whitespace index, as `first_non_space` states.
pub fn v_skip_spaces(v: &Vec<char>, i0: usize) -> (r: usize)
    requires
        i0 <= v@.len(),
    ensures
        r == first_non_space(v@, i0 as int),
        i0 <= r <= v@.len(),
        r < v@.len() ==> !is_space(v@[r as int]),
{
    let n: usize = v.len();
    let mut i: usize = i0;
    while i < n
        invariant
            i0 <= i <= n,
            n == v@.len(),
            first_non_space(v@, i0 as int) == first_non_space(v@, i as int),
        decreases n - i,
    {
        if !is_space_exec(v[i]) {
            return i;
        }
        i = i + 1;
    }
    i
}

/// First whitespace index, as `first_space` states.
pub fn v_first_space(v: &Vec<char>, i0: usize) -> (r: usize)
    requires
        i0 <= v@.len(),
    ensures
        r == first_space(v@, i0 as int),
        i0 <= r <= v@.len(),
{
    let n: usize = v.len();
    let mut i: usize = i0;
    while i < n
        invariant
            i0 <= i <= n,
            n == v@.len(),
            first_space(v@, i0 as int) == first_space(v@, i as int),
        decreases n - i,
    {
        if is_space_exec(v[i]) {
            return i;
        }
        i = i + 1;
    }
    i
}

} // verus!
