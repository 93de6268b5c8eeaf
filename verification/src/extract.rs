//! Search-result extractor for a lite-HTML results page.
//!
//! The page is cut into `<tr>...</tr>` blocks in document order.  Each
//! block yields a result when it holds an anchor carrying the
//! result-link marker class; the anchor's inner text becomes the title,
//! its `href` is redirect-unwrapped into the URL, and a snippet cell or
//! a fallback over the block's `>text<` segments becomes the
//! description.  When no block yields a result, a fallback pass scans
//! the whole page for any anchor and keeps those whose title passes the
//! validity filter.  Results keep document order and are not
//! deduplicated.

use vstd::prelude::*;

use crate::conv::{chars_to_string, str_to_chars};
use crate::entity::{strip_spec, v_strip};
use crate::text::{
    contains_sub, find_char_from, find_sub_from, lemma_find_char_props, lemma_find_sub_props,
    trim_spec, v_append, v_contains_sub, v_find_char, v_find_sub, v_subrange, v_trim,
};
use crate::urlnorm::{duckduckgo_host, duckduckgo_host_vec, normalize_spec, v_normalize};

verus! {

/// One extracted search result.
#[derive(Debug, Clone)]
pub struct SearchResult {
    /// Result title, stripped of markup.
    pub title: String,
    /// Absolute, redirect-unwrapped URL.
    pub url: String,
    /// Snippet text, or the fixed sentinel when none was found.
    pub description: String,
}

/// The mathematical content of a result: title, URL and description.
pub open spec fn result_model(r: SearchResult) -> (Seq<char>, Seq<char>, Seq<char>) {
    (r.title@, r.url@, r.description@)
}

/// The models of a sequence of results, in order.
pub open spec fn result_models(rs: Seq<SearchResult>) -> Seq<(Seq<char>, Seq<char>, Seq<char>)> {
    Seq::new(rs.len(), |i: int| result_model(rs[i]))
}

proof fn lemma_models_push(rs: Seq<SearchResult>, x: SearchResult)
    ensures
        result_models(rs.push(x)) =~= result_models(rs).push(result_model(x)),
{
}

// ---------------------------------------------------------------------
// The fixed patterns the scanner looks for.
// ---------------------------------------------------------------------

pub open spec fn tr_open() -> Seq<char> {
    seq!['<', 't', 'r', '>']
}

pub open spec fn tr_close() -> Seq<char> {
    seq!['<', '/', 't', 'r', '>']
}

pub open spec fn anchor_open() -> Seq<char> {
    seq!['<', 'a']
}

pub open spec fn anchor_close() -> Seq<char> {
    seq!['<', '/', 'a', '>']
}

pub open spec fn href_key() -> Seq<char> {
    seq!['h', 'r', 'e', 'f', '=', '"']
}

pub open spec fn result_link_class() -> Seq<char> {
    seq!['c', 'l', 'a', 's', 's', '=', '\'', 'r', 'e', 's', 'u', 'l', 't', '-', 'l', 'i', 'n',
        'k', '\'']
}

pub open spec fn td_open() -> Seq<char> {
    seq!['<', 't', 'd']
}

pub open spec fn td_close() -> Seq<char> {
    seq!['<', '/', 't', 'd', '>']
}

pub open spec fn snippet_class() -> Seq<char> {
    seq!['c', 'l', 'a', 's', 's', '=', '"', 'r', 'e', 's', 'u', 'l', 't', '-', 's', 'n', 'i',
        'p', 'p', 'e', 't', '"']
}

/// The description used when no snippet text could be extracted.
pub open spec fn sentinel_description() -> Seq<char> {
    "No description available"@
}

pub open spec fn phrase_all_regions() -> Seq<char> {
    "All Regions"@
}

pub open spec fn phrase_any_time() -> Seq<char> {
    "Any Time"@
}

pub open spec fn phrase_feedback() -> Seq<char> {
    "Feedback"@
}

// ---------------------------------------------------------------------
// Specification of the scan.
// ---------------------------------------------------------------------

/// The `<tr>...</tr>` blocks of `s` from position `p` on, in document
/// order: each block runs from a `<tr>` to the earliest `</tr>` after it.
pub open spec fn tr_blocks_from(s: Seq<char>, p: int) -> Seq<Seq<char>>
    decreases s.len() - p when 0 <= p via tr_blocks_from_decreases
{
    match find_sub_from(s, tr_open(), p) {
        None => Seq::empty(),
        Some(i) => match find_sub_from(s, tr_close(), i + 4) {
            None => Seq::empty(),
            Some(j) => seq![s.subrange(i, j + 5)] + tr_blocks_from(s, j + 5),
        },
    }
}

#[via_fn]
proof fn tr_blocks_from_decreases(s: Seq<char>, p: int) {
    lemma_find_sub_props(s, tr_open(), p);
    if let Some(i) = find_sub_from(s, tr_open(), p) {
        lemma_find_sub_props(s, tr_close(), i + 4);
    }
}

/// The first usable anchor of `s` at or after `p`: an `<a` whose tag
/// head (up to the first `>`) carries the result-link class when
/// `need_class` is set and an `href="..."` value, and that is closed by
/// a later `</a>`.  Yields the `href` value, the inner markup, and the
/// position just after the closing tag.
pub open spec fn find_anchor(s: Seq<char>, p: int, need_class: bool) -> Option<
    (Seq<char>, Seq<char>, int),
>
    decreases s.len() - p when 0 <= p via find_anchor_decreases
{
    match find_sub_from(s, anchor_open(), p) {
        None => None,
        Some(i) => match find_char_from(s, '>', i + 2) {
            None => None,
            Some(e) => {
                let head = s.subrange(i, e);
                if need_class && !contains_sub(head, result_link_class()) {
                    find_anchor(s, i + 2, need_class)
                } else {
                    match find_sub_from(head, href_key(), 0) {
                        None => find_anchor(s, i + 2, need_class),
                        Some(h) => match find_char_from(head, '"', h + 6) {
                            None => find_anchor(s, i + 2, need_class),
                            Some(q) => match find_sub_from(s, anchor_close(), e + 1) {
                                None => None,
                                Some(c) => Some(
                                    (head.subrange(h + 6, q), s.subrange(e + 1, c), c + 4),
                                ),
                            },
                        },
                    }
                }
            },
        },
    }
}

#[via_fn]
proof fn find_anchor_decreases(s: Seq<char>, p: int, need_class: bool) {
    lemma_find_sub_props(s, anchor_open(), p);
}

/// The position after a found anchor lies past `p` and within `s`.
pub proof fn lemma_find_anchor_next(s: Seq<char>, p: int, need_class: bool)
    requires
        0 <= p,
    ensures
        match find_anchor(s, p, need_class) {
            Some(t) => p < t.2 <= s.len(),
            None => true,
        },
    decreases s.len() - p,
{
    lemma_find_sub_props(s, anchor_open(), p);
    if let Some(i) = find_sub_from(s, anchor_open(), p) {
        lemma_find_char_props(s, '>', i + 2);
        if let Some(e) = find_char_from(s, '>', i + 2) {
            lemma_find_sub_props(s, anchor_close(), e + 1);
            if s.len() - (i + 2) < s.len() - p {
                lemma_find_anchor_next(s, i + 2, need_class);
            }
        }
    }
}

/// The inner markup of the first snippet cell of `b`: a `<td` whose tag
/// head carries the snippet class, up to the earliest `</td>` after it.
pub open spec fn find_snippet(b: Seq<char>, p: int) -> Option<Seq<char>>
    decreases b.len() - p when 0 <= p via find_snippet_decreases
{
    match find_sub_from(b, td_open(), p) {
        None => None,
        Some(i) => match find_char_from(b, '>', i + 3) {
            None => None,
            Some(e) => {
                if contains_sub(b.subrange(i, e), snippet_class()) {
                    match find_sub_from(b, td_close(), e + 1) {
                        None => None,
                        Some(c) => Some(b.subrange(e + 1, c)),
                    }
                } else {
                    find_snippet(b, i + 3)
                }
            },
        },
    }
}

#[via_fn]
proof fn find_snippet_decreases(b: Seq<char>, p: int) {
    lemma_find_sub_props(b, td_open(), p);
}

/// The `>text<` segments of `b` from position `p` on: each maximal run
/// between a `>` and the next `<`.
pub open spec fn raw_segments(b: Seq<char>, p: int) -> Seq<Seq<char>>
    decreases b.len() - p when 0 <= p via raw_segments_decreases
{
    match find_char_from(b, '>', p) {
        None => Seq::empty(),
        Some(g) => match find_char_from(b, '<', g + 1) {
            None => Seq::empty(),
            Some(h) => seq![b.subrange(g + 1, h)] + raw_segments(b, h),
        },
    }
}

#[via_fn]
proof fn raw_segments_decreases(b: Seq<char>, p: int) {
    lemma_find_char_props(b, '>', p);
    if let Some(g) = find_char_from(b, '>', p) {
        lemma_find_char_props(b, '<', g + 1);
    }
}

/// The segments from index `i` on whose trimmed length exceeds ten
/// characters, trimmed.
pub open spec fn long_segments_from(parts: Seq<Seq<char>>, i: int) -> Seq<Seq<char>>
    decreases parts.len() - i,
{
    if i < 0 || i >= parts.len() {
        Seq::empty()
    } else {
        let t = trim_spec(parts[i]);
        if t.len() > 10 {
            seq![t] + long_segments_from(parts, i + 1)
        } else {
            long_segments_from(parts, i + 1)
        }
    }
}

/// The fallback description of a block: its long `>text<` segments
/// joined with spaces and cut to two hundred characters, or the sentinel
/// when there are none.
pub open spec fn fallback_description_spec(b: Seq<char>) -> Seq<char> {
    let parts = long_segments_from(raw_segments(b, 0), 0);
    if parts.len() == 0 {
        sentinel_description()
    } else {
        let joined = crate::text::join_with(parts, seq![' ']);
        if joined.len() > 200 {
            joined.subrange(0, 200)
        } else {
            joined
        }
    }
}

/// The description of a block: the stripped snippet cell when one is
/// present, else the fallback.
pub open spec fn description_spec(b: Seq<char>) -> Seq<char> {
    match find_snippet(b, 0) {
        Some(inner) => strip_spec(inner),
        None => fallback_description_spec(b),
    }
}

/// The validity filter of the fallback pass: a title longer than three
/// characters that names none of the fixed interface phrases.
pub open spec fn is_valid_title(t: Seq<char>) -> bool {
    &&& t.len() > 3
    &&& !contains_sub(t, phrase_all_regions())
    &&& !contains_sub(t, phrase_any_time())
    &&& !contains_sub(t, phrase_feedback())
}

/// The result a block yields, when its marked anchor produces a title
/// longer than three characters and a non-empty URL.
pub open spec fn block_result(b: Seq<char>) -> Option<(Seq<char>, Seq<char>, Seq<char>)> {
    match find_anchor(b, 0, true) {
        None => None,
        Some(t) => {
            let title = strip_spec(t.1);
            let url = normalize_spec(t.0, duckduckgo_host());
            if title.len() > 3 && url.len() > 0 {
                Some((title, url, description_spec(b)))
            } else {
                None
            }
        },
    }
}

/// The results of the primary pass over `blocks`, from index `i` on.
pub open spec fn primary_results_from(blocks: Seq<Seq<char>>, i: int) -> Seq<
    (Seq<char>, Seq<char>, Seq<char>),
>
    decreases blocks.len() - i,
{
    if i < 0 || i >= blocks.len() {
        Seq::empty()
    } else {
        match block_result(blocks[i]) {
            None => primary_results_from(blocks, i + 1),
            Some(m) => seq![m] + primary_results_from(blocks, i + 1),
        }
    }
}

/// The results of the fallback pass over the whole page from position
/// `p` on: every anchor whose stripped title passes the validity filter,
/// with the title trimmed and the sentinel description.
pub open spec fn alt_results_from(s: Seq<char>, p: int) -> Seq<(Seq<char>, Seq<char>, Seq<char>)>
    decreases s.len() - p when 0 <= p via alt_results_from_decreases
{
    match find_anchor(s, p, false) {
        None => Seq::empty(),
        Some(t) => {
            let title = strip_spec(t.1);
            let kept = if is_valid_title(title) {
                seq![
                    (
                        trim_spec(title),
                        normalize_spec(t.0, duckduckgo_host()),
                        sentinel_description(),
                    ),
                ]
            } else {
                Seq::empty()
            };
            kept + alt_results_from(s, t.2)
        },
    }
}

#[via_fn]
proof fn alt_results_from_decreases(s: Seq<char>, p: int) {
    lemma_find_anchor_next(s, p, false);
}

/// What extraction returns: the primary pass, or the fallback pass when
/// the primary pass yields nothing.
pub open spec fn search_results_spec(s: Seq<char>) -> Seq<(Seq<char>, Seq<char>, Seq<char>)> {
    let prim = primary_results_from(tr_blocks_from(s, 0), 0);
    if prim.len() == 0 {
        alt_results_from(s, 0)
    } else {
        prim
    }
}


// ---------------------------------------------------------------------
// Executable scan.
// ---------------------------------------------------------------------

fn lit_chars(s: &str) -> (v: Vec<char>)
    ensures
        v@ == s@,
{
    str_to_chars(s)
}

fn tr_open_vec() -> (p: Vec<char>)
    ensures
        p@ == tr_open(),
{
    let v = lit_chars("<tr>");
    proof {
        reveal_strlit("<tr>");
    }
    assert(v@ =~= tr_open());
    v
}

fn tr_close_vec() -> (p: Vec<char>)
    ensures
        p@ == tr_close(),
{
    let v = lit_chars("</tr>");
    proof {
        reveal_strlit("</tr>");
    }
    assert(v@ =~= tr_close());
    v
}

fn anchor_open_vec() -> (p: Vec<char>)
    ensures
        p@ == anchor_open(),
{
    let v = lit_chars("<a");
    proof {
        reveal_strlit("<a");
    }
    assert(v@ =~= anchor_open());
    v
}

fn anchor_close_vec() -> (p: Vec<char>)
    ensures
        p@ == anchor_close(),
{
    let v = lit_chars("</a>");
    proof {
        reveal_strlit("</a>");
    }
    assert(v@ =~= anchor_close());
    v
}

fn href_key_vec() -> (p: Vec<char>)
    ensures
        p@ == href_key(),
{
    let v = lit_chars("href=\"");
    proof {
        reveal_strlit("href=\"");
    }
    assert(v@ =~= href_key());
    v
}

fn result_link_class_vec() -> (p: Vec<char>)
    ensures
        p@ == result_link_class(),
{
    let v = lit_chars("class='result-link'");
    proof {
        reveal_strlit("class='result-link'");
    }
    assert(v@ =~= result_link_class());
    v
}

fn td_open_vec() -> (p: Vec<char>)
    ensures
        p@ == td_open(),
{
    let v = lit_chars("<td");
    proof {
        reveal_strlit("<td");
    }
    assert(v@ =~= td_open());
    v
}

fn td_close_vec() -> (p: Vec<char>)
    ensures
        p@ == td_close(),
{
    let v = lit_chars("</td>");
    proof {
        reveal_strlit("</td>");
    }
    assert(v@ =~= td_close());
    v
}

fn snippet_class_vec() -> (p: Vec<char>)
    ensures
        p@ == snippet_class(),
{
    let v = lit_chars("class=\"result-snippet\"");
    proof {
        reveal_strlit("class=\"result-snippet\"");
    }
    assert(v@ =~= snippet_class());
    v
}

/// The `<tr>...</tr>` blocks of `v`, as `tr_blocks_from` states.
pub fn v_tr_blocks(v: &Vec<char>) -> (r: Vec<Vec<char>>)
    ensures
        r.deep_view() == tr_blocks_from(v@, 0),
{
    let open = tr_open_vec();
    let close = tr_close_vec();
    let mut r: Vec<Vec<char>> = Vec::new();
    let n: usize = v.len();
    let mut p: usize = 0;
    loop
        invariant
            p <= v@.len(),
            n == v@.len(),
            open@ == tr_open(),
            close@ == tr_close(),
            tr_blocks_from(v@, 0) == r.deep_view() + tr_blocks_from(v@, p as int),
        decreases v@.len() - p,
    {
        let ghost prev = r.deep_view();
        match v_find_sub(v, &open, p) {
            None => {
                assert(tr_blocks_from(v@, p as int) =~~= Seq::<Seq<char>>::empty());
                assert(r.deep_view() =~~= tr_blocks_from(v@, 0));
                return r;
            },
            Some(i) => {
                proof {
                    lemma_find_sub_props(v@, tr_open(), p as int);
                }
                match v_find_sub(v, &close, i + 4) {
                    None => {
                        assert(tr_blocks_from(v@, p as int) =~~= Seq::<Seq<char>>::empty());
                        assert(r.deep_view() =~~= tr_blocks_from(v@, 0));
                        return r;
                    },
                    Some(j) => {
                        proof {
                            lemma_find_sub_props(v@, tr_close(), i + 4);
                        }
                        r.push(v_subrange(v, i, j + 5));
                        assert(r.deep_view() =~~= prev + seq![
                            v@.subrange(i as int, j + 5),
                        ]);
                        assert(r.deep_view() + tr_blocks_from(v@, j + 5) =~~= prev
                            + tr_blocks_from(v@, p as int));
                        p = j + 5;
                    },
                }
            },
        }
    }
}

/// The first usable anchor of `v` at or after `p0`, as `find_anchor`
/// states.
pub fn v_find_anchor(v: &Vec<char>, p0: usize, need_class: bool) -> (r: Option<
    (Vec<char>, Vec<char>, usize),
>)
    requires
        p0 <= v@.len(),
    ensures
        match r {
            Some(t) => find_anchor(v@, p0 as int, need_class) == Some(
                (t.0@, t.1@, t.2 as int),
            ) && p0 < t.2 <= v@.len(),
            None => find_anchor(v@, p0 as int, need_class) is None,
        },
{
    let a_open = anchor_open_vec();
    let a_close = anchor_close_vec();
    let href_pat = href_key_vec();
    let class_pat = result_link_class_vec();
    let n: usize = v.len();
    let mut p: usize = p0;
    loop
        invariant
            p0 <= p <= v@.len(),
            n == v@.len(),
            a_open@ == anchor_open(),
            a_close@ == anchor_close(),
            href_pat@ == href_key(),
            class_pat@ == result_link_class(),
            find_anchor(v@, p0 as int, need_class) == find_anchor(v@, p as int, need_class),
        decreases v@.len() - p,
    {
        match v_find_sub(v, &a_open, p) {
            None => {
                return None;
            },
            Some(i) => {
                proof {
                    lemma_find_sub_props(v@, anchor_open(), p as int);
                }
                match v_find_char(v, '>', i + 2) {
                    None => {
                        return None;
                    },
                    Some(e) => {
                        proof {
                            lemma_find_char_props(v@, '>', i + 2);
                        }
                        let head = v_subrange(v, i, e);
                        let class_ok = if need_class {
                            v_contains_sub(&head, &class_pat)
                        } else {
                            true
                        };
                        if !class_ok {
                            p = i + 2;
                        } else {
                            match v_find_sub(&head, &href_pat, 0) {
                                None => {
                                    p = i + 2;
                                },
                                Some(h) => {
                                    proof {
                                        lemma_find_sub_props(head@, href_key(), 0);
                                    }
                                    match v_find_char(&head, '"', h + 6) {
                                        None => {
                                            p = i + 2;
                                        },
                                        Some(q) => {
                                            proof {
                                                lemma_find_char_props(head@, '"', h + 6);
                                            }
                                            match v_find_sub(v, &a_close, e + 1) {
                                                None => {
                                                    return None;
                                                },
                                                Some(c) => {
                                                    proof {
                                                        lemma_find_sub_props(
                                                            v@,
                                                            anchor_close(),
                                                            e + 1,
                                                        );
                                                    }
                                                    let href = v_subrange(&head, h + 6, q);
                                                    let inner = v_subrange(v, e + 1, c);
                                                    return Some((href, inner, c + 4));
                                                },
                                            }
                                        },
                                    }
                                },
                            }
                        }
                    },
                }
            },
        }
    }
}

/// The inner markup of the first snippet cell, as `find_snippet` states.
fn v_find_snippet(b: &Vec<char>) -> (r: Option<Vec<char>>)
    ensures
        match r {
            Some(inner) => find_snippet(b@, 0) == Some(inner@),
            None => find_snippet(b@, 0) is None,
        },
{
    let t_open = td_open_vec();
    let t_close = td_close_vec();
    let class_pat = snippet_class_vec();
    let n: usize = b.len();
    let mut p: usize = 0;
    loop
        invariant
            p <= b@.len(),
            n == b@.len(),
            t_open@ == td_open(),
            t_close@ == td_close(),
            class_pat@ == snippet_class(),
            find_snippet(b@, 0) == find_snippet(b@, p as int),
        decreases b@.len() - p,
    {
        match v_find_sub(b, &t_open, p) {
            None => {
                return None;
            },
            Some(i) => {
                proof {
                    lemma_find_sub_props(b@, td_open(), p as int);
                }
                match v_find_char(b, '>', i + 3) {
                    None => {
                        return None;
                    },
                    Some(e) => {
                        proof {
                            lemma_find_char_props(b@, '>', i + 3);
                        }
                        let head = v_subrange(b, i, e);
                        if v_contains_sub(&head, &class_pat) {
                            match v_find_sub(b, &t_close, e + 1) {
                                None => {
                                    return None;
                                },
                                Some(c) => {
                                    proof {
                                        lemma_find_sub_props(b@, td_close(), e + 1);
                                    }
                                    return Some(v_subrange(b, e + 1, c));
                                },
                            }
                        } else {
                            p = i + 3;
                        }
                    },
                }
            },
        }
    }
}


/// The `>text<` segments of `b`, as `raw_segments` states.
fn v_raw_segments(b: &Vec<char>) -> (r: Vec<Vec<char>>)
    ensures
        r.deep_view() == raw_segments(b@, 0),
{
    let n: usize = b.len();
    let mut r: Vec<Vec<char>> = Vec::new();
    let mut p: usize = 0;
    loop
        invariant
            p <= b@.len(),
            n == b@.len(),
            raw_segments(b@, 0) == r.deep_view() + raw_segments(b@, p as int),
        decreases b@.len() - p,
    {
        let ghost prev = r.deep_view();
        match v_find_char(b, '>', p) {
            None => {
                assert(raw_segments(b@, p as int) =~~= Seq::<Seq<char>>::empty());
                assert(r.deep_view() =~~= raw_segments(b@, 0));
                return r;
            },
            Some(g) => {
                proof {
                    lemma_find_char_props(b@, '>', p as int);
                }
                match v_find_char(b, '<', g + 1) {
                    None => {
                        assert(raw_segments(b@, p as int) =~~= Seq::<Seq<char>>::empty());
                        assert(r.deep_view() =~~= raw_segments(b@, 0));
                        return r;
                    },
                    Some(h) => {
                        proof {
                            lemma_find_char_props(b@, '<', g + 1);
                        }
                        r.push(v_subrange(b, g + 1, h));
                        assert(r.deep_view() =~~= prev + seq![b@.subrange(g + 1, h as int)]);
                        assert(r.deep_view() + raw_segments(b@, h as int) =~~= prev
                            + raw_segments(b@, p as int));
                        p = h;
                    },
                }
            },
        }
    }
}

/// The trimmed segments longer than ten characters, as
/// `long_segments_from` states.
fn v_long_segments(parts: &Vec<Vec<char>>) -> (r: Vec<Vec<char>>)
    ensures
        r.deep_view() == long_segments_from(parts.deep_view(), 0),
{
    let mut r: Vec<Vec<char>> = Vec::new();
    let mut i: usize = 0;
    while i < parts.len()
        invariant
            i <= parts@.len(),
            parts.deep_view().len() == parts@.len(),
            long_segments_from(parts.deep_view(), 0) == r.deep_view() + long_segments_from(
                parts.deep_view(),
                i as int,
            ),
        decreases parts.len() - i,
    {
        let ghost prev = r.deep_view();
        let t = v_trim(&parts[i]);
        assert(parts.deep_view()[i as int] =~= parts@[i as int]@);
        assert(t@ == trim_spec(parts.deep_view()[i as int]));
        if t.len() > 10 {
            r.push(t);
            assert(r.deep_view() =~~= prev + seq![trim_spec(parts.deep_view()[i as int])]);
        }
        i = i + 1;
    }
    assert(long_segments_from(parts.deep_view(), parts@.len() as int) =~~= Seq::<
        Seq<char>,
    >::empty());
    assert(r.deep_view() =~~= long_segments_from(parts.deep_view(), 0));
    r
}

/// The fallback description over `Vec<char>`, as
/// `fallback_description_spec` states.
fn v_fallback_description(b: &Vec<char>) -> (r: Vec<char>)
    ensures
        r@ == fallback_description_spec(b@),
{
    let segs = v_raw_segments(b);
    let parts = v_long_segments(&segs);
    assert(parts.deep_view() == long_segments_from(raw_segments(b@, 0), 0));
    if parts.len() == 0 {
        assert(parts.deep_view().len() == 0);
        lit_chars("No description available")
    } else {
        let mut sp: Vec<char> = Vec::new();
        sp.push(' ');
        assert(sp@ =~= seq![' ']);
        let joined = crate::text::v_join(&parts, &sp);
        if joined.len() > 200 {
            v_subrange(&joined, 0, 200)
        } else {
            joined
        }
    }
}

/// The description of a block, as `description_spec` states.
fn v_description(b: &Vec<char>) -> (r: Vec<char>)
    ensures
        r@ == description_spec(b@),
{
    match v_find_snippet(b) {
        Some(inner) => v_strip(&inner),
        None => v_fallback_description(b),
    }
}

/// The snippet-or-fallback description of a result block.
pub fn extract_description(html: &str) -> (r: String)
    ensures
        r@ == description_spec(html@),
{
    let v = str_to_chars(html);
    chars_to_string(&v_description(&v))
}

/// The fallback description of a result block alone.
pub fn extract_fallback_description(html: &str) -> (r: String)
    ensures
        r@ == fallback_description_spec(html@),
{
    let v = str_to_chars(html);
    chars_to_string(&v_fallback_description(&v))
}

/// The validity filter over `Vec<char>`.
fn v_is_valid_title(t: &Vec<char>) -> (r: bool)
    ensures
        r == is_valid_title(t@),
{
    t.len() > 3 && !v_contains_sub(t, &lit_chars("All Regions")) && !v_contains_sub(
        t,
        &lit_chars("Any Time"),
    ) && !v_contains_sub(t, &lit_chars("Feedback"))
}

/// Whether a fallback title passes the validity filter.
pub fn is_valid_result(title: &str) -> (r: bool)
    ensures
        r == is_valid_title(title@),
{
    let t = str_to_chars(title);
    v_is_valid_title(&t)
}

/// The primary pass over the page's blocks, as `primary_results_from`
/// states.
fn v_primary_results(blocks: &Vec<Vec<char>>) -> (r: Vec<SearchResult>)
    ensures
        result_models(r@) == primary_results_from(blocks.deep_view(), 0),
{
    let host = duckduckgo_host_vec();
    let mut out: Vec<SearchResult> = Vec::new();
    let mut i: usize = 0;
    while i < blocks.len()
        invariant
            i <= blocks@.len(),
            host@ == duckduckgo_host(),
            blocks.deep_view().len() == blocks@.len(),
            primary_results_from(blocks.deep_view(), 0) == result_models(out@)
                + primary_results_from(blocks.deep_view(), i as int),
        decreases blocks.len() - i,
    {
        let ghost bs = blocks.deep_view();
        let ghost prev = out@;
        assert(bs[i as int] =~= blocks@[i as int]@);
        let b = &blocks[i];
        match v_find_anchor(b, 0, true) {
            None => {
                assert(block_result(bs[i as int]) is None);
            },
            Some((href, inner, _np)) => {
                let title = v_strip(&inner);
                let url = v_normalize(&href, &host);
                if title.len() > 3 && url.len() > 0 {
                    let desc = v_description(b);
                    let res = SearchResult {
                        title: chars_to_string(&title),
                        url: chars_to_string(&url),
                        description: chars_to_string(&desc),
                    };
                    let ghost gres = res;
                    out.push(res);
                    proof {
                        lemma_models_push(prev, gres);
                        assert(block_result(bs[i as int]) == Some(result_model(gres)));
                        assert(result_models(out@) + primary_results_from(bs, i + 1)
                            =~~= result_models(prev) + primary_results_from(bs, i as int));
                    }
                } else {
                    assert(block_result(bs[i as int]) is None);
                }
            },
        }
        i = i + 1;
    }
    assert(primary_results_from(blocks.deep_view(), blocks@.len() as int) =~~= Seq::<
        (Seq<char>, Seq<char>, Seq<char>),
    >::empty());
    assert(result_models(out@) =~~= primary_results_from(blocks.deep_view(), 0));
    out
}

/// The fallback pass over the whole page, as `alt_results_from` states.
fn v_alt_results(v: &Vec<char>) -> (r: Vec<SearchResult>)
    ensures
        result_models(r@) == alt_results_from(v@, 0),
{
    let host = duckduckgo_host_vec();
    let mut out: Vec<SearchResult> = Vec::new();
    let mut p: usize = 0;
    loop
        invariant
            p <= v@.len(),
            host@ == duckduckgo_host(),
            alt_results_from(v@, 0) == result_models(out@) + alt_results_from(v@, p as int),
        decreases v@.len() - p,
    {
        let ghost prev = out@;
        match v_find_anchor(v, p, false) {
            None => {
                assert(alt_results_from(v@, p as int) =~~= Seq::<
                    (Seq<char>, Seq<char>, Seq<char>),
                >::empty());
                assert(result_models(out@) =~~= alt_results_from(v@, 0));
                return out;
            },
            Some((href, inner, np)) => {
                let title = v_strip(&inner);
                if v_is_valid_title(&title) {
                    let tt = v_trim(&title);
                    let url = v_normalize(&href, &host);
                    let res = SearchResult {
                        title: chars_to_string(&tt),
                        url: chars_to_string(&url),
                        description: chars_to_string(&lit_chars("No description available")),
                    };
                    let ghost gres = res;
                    out.push(res);
                    proof {
                        lemma_models_push(prev, gres);
                        assert(result_models(out@) + alt_results_from(v@, np as int)
                            =~~= result_models(prev) + alt_results_from(v@, p as int));
                    }
                } else {
                    assert(result_models(out@) + alt_results_from(v@, np as int)
                        =~~= result_models(prev) + alt_results_from(v@, p as int));
                }
                p = np;
            },
        }
    }
}

/// Extracts the page's results: the primary pass, or the fallback pass
/// when the primary pass yields nothing.  Never fails.
pub fn parse_duckduckgo_results(html: &str) -> (r: Result<Vec<SearchResult>, String>)
    ensures
        match r {
            Ok(list) => result_models(list@) == search_results_spec(html@),
            Err(_) => false,
        },
{
    let v = str_to_chars(html);
    let blocks = v_tr_blocks(&v);
    let prim = v_primary_results(&blocks);
    if prim.len() == 0 {
        assert(result_models(prim@).len() == 0);
        Ok(v_alt_results(&v))
    } else {
        Ok(prim)
    }
}

/// The fallback pass alone, over the whole page.  Never fails.
pub fn parse_alternative_results(html: &str) -> (r: Result<Vec<SearchResult>, String>)
    ensures
        match r {
            Ok(list) => result_models(list@) == alt_results_from(html@, 0),
            Err(_) => false,
        },
{
    let v = str_to_chars(html);
    Ok(v_alt_results(&v))
}


// ---------------------------------------------------------------------
// Markdown rendering of a result list.
// ---------------------------------------------------------------------

/// The decimal digit `d` as a character.
pub open spec fn digit_char(d: nat) -> char {
    if d == 0 {
        '0'
    } else if d == 1 {
        '1'
    } else if d == 2 {
        '2'
    } else if d == 3 {
        '3'
    } else if d == 4 {
        '4'
    } else if d == 5 {
        '5'
    } else if d == 6 {
        '6'
    } else if d == 7 {
        '7'
    } else if d == 8 {
        '8'
    } else {
        '9'
    }
}

/// The decimal representation of `n`, most significant digit first.
pub open spec fn dec_str(n: nat) -> Seq<char>
    decreases n,
{
    if n < 10 {
        seq![digit_char(n)]
    } else {
        dec_str(n / 10) + seq![digit_char(n % 10)]
    }
}

fn digit_char_exec(d: usize) -> (c: char)
    requires
        d < 10,
    ensures
        c == digit_char(d as nat),
{
    if d == 0 {
        '0'
    } else if d == 1 {
        '1'
    } else if d == 2 {
        '2'
    } else if d == 3 {
        '3'
    } else if d == 4 {
        '4'
    } else if d == 5 {
        '5'
    } else if d == 6 {
        '6'
    } else if d == 7 {
        '7'
    } else if d == 8 {
        '8'
    } else {
        '9'
    }
}

/// The decimal representation of `n`, as `dec_str` states.
fn v_dec(n: usize) -> (r: Vec<char>)
    ensures
        r@ == dec_str(n as nat),
    decreases n,
{
    if n < 10 {
        let mut r: Vec<char> = Vec::new();
        r.push(digit_char_exec(n));
        assert(r@ =~= dec_str(n as nat));
        r
    } else {
        let mut r = v_dec(n / 10);
        r.push(digit_char_exec(n % 10));
        assert(r@ =~= dec_str(n as nat));
        r
    }
}

/// The decimal representation of `n`, as `dec_str` states.
pub fn v_dec_u64(n: u64) -> (r: Vec<char>)
    ensures
        r@ == dec_str(n as nat),
    decreases n,
{
    if n < 10 {
        let mut r: Vec<char> = Vec::new();
        r.push(digit_char_exec((n % 10) as usize));
        assert(r@ =~= dec_str(n as nat));
        r
    } else {
        let mut r = v_dec_u64(n / 10);
        r.push(digit_char_exec((n % 10) as usize));
        assert(r@ =~= dec_str(n as nat));
        r
    }
}

/// One numbered entry of the Markdown listing: the title, the URL, and
/// the description when it is neither empty nor the sentinel.
pub open spec fn result_entry_md(m: (Seq<char>, Seq<char>, Seq<char>), idx: nat) -> Seq<char> {
    dec_str(idx) + ". "@ + m.0 + "\n"@ + "   **URL:** "@ + m.1 + "\n"@ + (if m.2.len() > 0
        && m.2 != sentinel_description() {
        "   **Description:** "@ + m.2 + "\n"@
    } else {
        Seq::empty()
    }) + "\n"@
}

/// The entries of the listing from index `i` on, numbered from one.
pub open spec fn results_md_from(
    ms: Seq<(Seq<char>, Seq<char>, Seq<char>)>,
    i: int,
) -> Seq<char>
    decreases ms.len() - i,
{
    if i < 0 || i >= ms.len() {
        Seq::empty()
    } else {
        result_entry_md(ms[i], (i + 1) as nat) + results_md_from(ms, i + 1)
    }
}

/// The whole Markdown listing: a query header, then the entries, or a
/// fixed line when there are none.
pub open spec fn results_markdown_spec(
    ms: Seq<(Seq<char>, Seq<char>, Seq<char>)>,
    query: Seq<char>,
) -> Seq<char> {
    "# Results for \""@ + query + "\"\n\n"@ + (if ms.len() == 0 {
        "No results found.\n"@
    } else {
        results_md_from(ms, 0)
    })
}

fn show_description(d: &String) -> (r: bool)
    ensures
        r == (d@.len() > 0 && d@ != sentinel_description()),
{
    let sent = chars_to_string(&lit_chars("No description available"));
    if d.as_str().is_empty() {
        false
    } else {
        !(d.eq(&sent))
    }
}

/// Renders a result list to Markdown, as `results_markdown_spec` states.
pub fn convert_results_to_markdown(results: &Vec<SearchResult>, query: &str) -> (r: String)
    ensures
        r@ == results_markdown_spec(result_models(results@), query@),
{
    let ghost ms = result_models(results@);
    let mut out: Vec<char> = Vec::new();
    v_append(&mut out, &lit_chars("# Results for \""));
    v_append(&mut out, &str_to_chars(query));
    v_append(&mut out, &lit_chars("\"\n\n"));
    let n: usize = results.len();
    if n == 0 {
        v_append(&mut out, &lit_chars("No results found.\n"));
        assert(out@ =~= results_markdown_spec(ms, query@));
        return chars_to_string(&out);
    }
    let ghost base = out@;
    let mut i: usize = 0;
    while i < n
        invariant
            i <= n,
            n == results@.len(),
            n > 0,
            ms == result_models(results@),
            ms.len() == n,
            base + results_md_from(ms, 0) == out@ + results_md_from(ms, i as int),
        decreases n - i,
    {
        let ghost prev = out@;
        assert(ms[i as int] == result_model(results@[i as int]));
        let nl = lit_chars("\n");
        let dvec = v_dec(i + 1);
        v_append(&mut out, &dvec);
        assert(out@ =~= prev + dec_str((i + 1) as nat));
        let dot = lit_chars(". ");
        v_append(&mut out, &dot);
        assert(out@ =~= prev + dec_str((i + 1) as nat) + ". "@);
        let title_cs = str_to_chars(results[i].title.as_str());
        assert(title_cs@ == ms[i as int].0);
        v_append(&mut out, &title_cs);
        v_append(&mut out, &nl);
        assert(out@ =~= prev + dec_str((i + 1) as nat) + ". "@ + ms[i as int].0 + "\n"@);
        let url_tag = lit_chars("   **URL:** ");
        v_append(&mut out, &url_tag);
        let url_cs = str_to_chars(results[i].url.as_str());
        v_append(&mut out, &url_cs);
        v_append(&mut out, &nl);
        let ghost mid = prev + dec_str((i + 1) as nat) + ". "@ + ms[i as int].0 + "\n"@
            + "   **URL:** "@ + ms[i as int].1 + "\n"@;
        assert(out@ =~= mid);
        if show_description(&results[i].description) {
            v_append(&mut out, &lit_chars("   **Description:** "));
            v_append(&mut out, &str_to_chars(results[i].description.as_str()));
            v_append(&mut out, &nl);
            assert(out@ =~= mid + ("   **Description:** "@ + ms[i as int].2 + "\n"@));
        }
        v_append(&mut out, &nl);
        proof {
            assert(out@ =~= prev + result_entry_md(ms[i as int], (i + 1) as nat));
            assert(base + results_md_from(ms, 0) =~= out@ + results_md_from(ms, i + 1));
        }
        i = i + 1;
    }
    assert(results_md_from(ms, n as int) =~= Seq::<char>::empty());
    assert(out@ =~= base + results_md_from(ms, 0));
    assert(out@ =~= results_markdown_spec(ms, query@));
    chars_to_string(&out)
}

/// Extracts the results of a lite-HTML search page and renders the
/// Markdown listing for them, both as the extraction and rendering
/// specifications state.
pub fn extract_search_results(lite_html: &str, query: &str) -> (r: (Vec<SearchResult>, String))
    ensures
        result_models(r.0@) == search_results_spec(lite_html@),
        r.1@ == results_markdown_spec(search_results_spec(lite_html@), query@),
{
    let results = match parse_duckduckgo_results(lite_html) {
        Ok(rs) => rs,
        Err(_) => {
            proof {
                assert(false);
            }
            Vec::new()
        },
    };
    let md = convert_results_to_markdown(&results, query);
    (results, md)
}

} // verus!
