//! Entity extractor: removes tag-shaped substrings, decodes the one
//! entity the converters care about, and collapses whitespace: the
//! remaining text's whitespace-separated words are rejoined with single
//! spaces.
//!
//! The tag rule mirrors a non-greedy `<...>` pattern: at a `<`, everything
//! through the next `>` is dropped; a `<` with no later `>` is kept
//! verbatim.  Only the entity `&#39;` is decoded, to `'`; other entities
//! are deliberately left alone.

use vstd::prelude::*;

use crate::is_space;
use crate::conv::{chars_to_string, str_to_chars};
use crate::text::{
    find_char_from, find_sub_from, first_non_space, first_space, join_with,
    lemma_find_char_props, lemma_find_sub_props, lemma_first_non_space_props,
    lemma_first_space_props, v_append, v_find_char, v_find_sub, v_first_space, v_skip_spaces,
    v_subrange,
};

verus! {

/// The one entity sequence that is decoded: `&#39;`.
pub open spec fn apos_entity() -> Seq<char> {
    seq!['&', '#', '3', '9', ';']
}

/// `s` from position `i` on, with every complete `<...>` tag removed.
pub open spec fn remove_tags_from(s: Seq<char>, i: int) -> Seq<char>
    decreases s.len() - i when 0 <= i via remove_tags_from_decreases
{
    if i >= s.len() {
        Seq::empty()
    } else if s[i] == '<' {
        match find_char_from(s, '>', i + 1) {
            None => s.subrange(i, s.len() as int),
            Some(j) => remove_tags_from(s, j + 1),
        }
    } else {
        seq![s[i]] + remove_tags_from(s, i + 1)
    }
}

#[via_fn]
proof fn remove_tags_from_decreases(s: Seq<char>, i: int) {
    if 0 <= i < s.len() && s[i] == '<' {
        lemma_find_char_props(s, '>', i + 1);
    }
}

/// `s` with every complete tag removed.
pub open spec fn remove_tags(s: Seq<char>) -> Seq<char> {
    remove_tags_from(s, 0)
}

/// `s` from position `i` on, with every occurrence of `&#39;` replaced by
/// `'`, left to right and without overlap.
pub open spec fn decode_apos_from(s: Seq<char>, i: int) -> Seq<char>
    decreases s.len() - i when 0 <= i via decode_apos_from_decreases
{
    if i >= s.len() {
        Seq::empty()
    } else {
        match find_sub_from(s, apos_entity(), i) {
            None => s.subrange(i, s.len() as int),
            Some(j) => s.subrange(i, j) + seq!['\''] + decode_apos_from(s, j + 5),
        }
    }
}

#[via_fn]
proof fn decode_apos_from_decreases(s: Seq<char>, i: int) {
    if 0 <= i < s.len() {
        lemma_find_sub_props(s, apos_entity(), i);
    }
}

/// `s` with every `&#39;` decoded.
pub open spec fn decode_apos(s: Seq<char>) -> Seq<char> {
    decode_apos_from(s, 0)
}

/// The whitespace-separated words of `s` from position `i` on.
pub open spec fn words_from(s: Seq<char>, i: int) -> Seq<Seq<char>>
    decreases s.len() - i when 0 <= i <= s.len() via words_from_decreases
{
    let j = first_non_space(s, i);
    if j >= s.len() {
        Seq::empty()
    } else {
        let e = first_space(s, j);
        seq![s.subrange(j, e)] + words_from(s, e)
    }
}

#[via_fn]
proof fn words_from_decreases(s: Seq<char>, i: int) {
    lemma_first_non_space_props(s, i);
    let j = first_non_space(s, i);
    if j < s.len() {
        assert(!is_space(s[j]));
        assert(first_space(s, j) == first_space(s, j + 1));
        lemma_first_space_props(s, j + 1);
    }
}

/// What stripping returns: tags removed, `&#39;` decoded, and the
/// remaining words rejoined with single spaces.
pub open spec fn strip_spec(s: Seq<char>) -> Seq<char> {
    join_with(words_from(decode_apos(remove_tags(s)), 0), seq![' '])
}

/// Tag removal over `Vec<char>`.
pub fn v_remove_tags(v: &Vec<char>) -> (r: Vec<char>)
    ensures
        r@ == remove_tags(v@),
{
    let mut r: Vec<char> = Vec::new();
    let mut i: usize = 0;
    while i < v.len()
        invariant
            i <= v@.len(),
            remove_tags(v@) == r@ + remove_tags_from(v@, i as int),
        decreases v.len() - i,
    {
        if v[i] == '<' {
            match v_find_char(v, '>', i + 1) {
                Some(j) => {
                    proof {
                        lemma_find_char_props(v@, '>', i + 1);
                    }
                    i = j + 1;
                },
                None => {
                    let rest = v_subrange(v, i, v.len());
                    v_append(&mut r, &rest);
                    i = v.len();
                },
            }
        } else {
            r.push(v[i]);
            assert(r@ =~= (r@.drop_last() + seq![v@[i as int]]));
            i = i + 1;
        }
    }
    assert(remove_tags_from(v@, v@.len() as int) =~= Seq::<char>::empty());
    assert(r@ =~= remove_tags(v@));
    r
}

/// Entity decoding over `Vec<char>`.
pub fn v_decode_apos(v: &Vec<char>) -> (r: Vec<char>)
    ensures
        r@ == decode_apos(v@),
{
    let pat: Vec<char> = entity_pattern();
    let mut r: Vec<char> = Vec::new();
    let mut i: usize = 0;
    while i < v.len()
        invariant
            i <= v@.len(),
            pat@ == apos_entity(),
            decode_apos(v@) == r@ + decode_apos_from(v@, i as int),
        decreases v.len() - i,
    {
        match v_find_sub(v, &pat, i) {
            Some(j) => {
                proof {
                    lemma_find_sub_props(v@, apos_entity(), i as int);
                }
                let seg = v_subrange(v, i, j);
                v_append(&mut r, &seg);
                r.push('\'');
                assert(r@ =~= (r@.drop_last() + seq!['\'']));
                i = j + 5;
            },
            None => {
                let rest = v_subrange(v, i, v.len());
                v_append(&mut r, &rest);
                i = v.len();
            },
        }
    }
    assert(decode_apos_from(v@, v@.len() as int) =~= Seq::<char>::empty());
    assert(r@ =~= decode_apos(v@));
    r
}

/// The entity `&#39;` as a character vector.
fn entity_pattern() -> (p: Vec<char>)
    ensures
        p@ == apos_entity(),
{
    let mut p: Vec<char> = Vec::new();
    p.push('&');
    p.push('#');
    p.push('3');
    p.push('9');
    p.push(';');
    assert(p@ =~= apos_entity());
    p
}

/// The whitespace-separated words of `v`, as `words_from` states.
pub fn v_words(v: &Vec<char>) -> (r: Vec<Vec<char>>)
    ensures
        r.deep_view() == words_from(v@, 0),
{
    let n: usize = v.len();
    let mut r: Vec<Vec<char>> = Vec::new();
    let mut i: usize = 0;
    loop
        invariant
            i <= n,
            n == v@.len(),
            words_from(v@, 0) == r.deep_view() + words_from(v@, i as int),
        decreases n - i,
    {
        let ghost prev = r.deep_view();
        let j = v_skip_spaces(v, i);
        if j >= n {
            assert(words_from(v@, i as int) =~~= Seq::<Seq<char>>::empty());
            assert(r.deep_view() =~~= words_from(v@, 0));
            return r;
        }
        let e = v_first_space(v, j);
        proof {
            assert(!is_space(v@[j as int]));
            assert(first_space(v@, j as int) == first_space(v@, j + 1));
            lemma_first_space_props(v@, j + 1);
        }
        r.push(v_subrange(v, j, e));
        assert(r.deep_view() =~~= prev + seq![v@.subrange(j as int, e as int)]);
        assert(r.deep_view() + words_from(v@, e as int) =~~= prev + words_from(v@, i as int));
        i = e;
    }
}

/// Stripping over `Vec<char>`, as `strip_spec` states.
pub fn v_strip(v: &Vec<char>) -> (r: Vec<char>)
    ensures
        r@ == strip_spec(v@),
{
    let no_tags = v_remove_tags(v);
    let decoded = v_decode_apos(&no_tags);
    let words = v_words(&decoded);
    let mut sep: Vec<char> = Vec::new();
    sep.push(' ');
    assert(sep@ =~= seq![' ']);
    crate::text::v_join(&words, &sep)
}

/// Strips tags and entities from an HTML fragment and collapses its
/// whitespace, as `strip_spec` states.
pub fn strip_html_tags(html: &str) -> (r: String)
    ensures
        r@ == strip_spec(html@),
{
    let v = str_to_chars(html);
    chars_to_string(&v_strip(&v))
}

} // verus!
