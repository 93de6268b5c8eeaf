//! URL normalizer: unwraps redirect-style links and resolves relative
//! paths against a site host.
//!
//! A raw link that begins with the redirect path `/l/` and carries a
//! `uddg=` query parameter is replaced by that parameter's
//! percent-decoded value; decoding failure yields an empty string so the
//! caller can discard the result.  The redirect check comes first because
//! redirect paths are also root-relative.

use vstd::prelude::*;

use crate::conv::{chars_to_string, str_to_chars};
use crate::text::{
    contains_sub, find_char_from, find_sub_from, lemma_find_char_props, lemma_find_sub_props,
    starts_with, v_append, v_find_char, v_find_sub, v_starts_with, v_subrange,
};

verus! {

/// What `urlencoding::decode` returns for a given input: `None` when the
/// decoded bytes are not valid UTF-8, otherwise the decoded characters.
/// The result depends on the input characters alone.
pub uninterp spec fn percent_decoded(s: Seq<char>) -> Option<Seq<char>>;

/// Relies on `urlencoding::decode`: percent-decodes its input, failing
/// exactly when the decoded byte sequence is not valid UTF-8.
#[verifier::external_body]
fn percent_decode(s: &str) -> (r: Option<String>)
    ensures
        match r {
            Some(t) => percent_decoded(s@) == Some(t@),
            None => percent_decoded(s@) is None,
        },
{
    match urlencoding::decode(s) {
        Ok(c) => Some(c.into_owned()),
        Err(_) => None,
    }
}

/// The redirect path prefix `/l/`.
pub open spec fn redirect_prefix() -> Seq<char> {
    seq!['/', 'l', '/']
}

/// The query key `uddg=` that carries the true destination.
pub open spec fn uddg_key() -> Seq<char> {
    seq!['u', 'd', 'd', 'g', '=']
}

/// The scheme prefix `http`.
pub open spec fn http_prefix() -> Seq<char> {
    seq!['h', 't', 't', 'p']
}

/// The prefix `https://` put before a host.
pub open spec fn https_scheme() -> Seq<char> {
    seq!['h', 't', 't', 'p', 's', ':', '/', '/']
}

/// The host search results are resolved against.
pub open spec fn duckduckgo_host() -> Seq<char> {
    seq!['d', 'u', 'c', 'k', 'd', 'u', 'c', 'k', 'g', 'o', '.', 'c', 'o', 'm']
}

/// The value of the first `uddg=` parameter: the characters after the key
/// up to the next `&`, or to the end when no `&` follows.
pub open spec fn uddg_value(url: Seq<char>) -> Seq<char>
    recommends
        contains_sub(url, uddg_key()),
{
    let j = find_sub_from(url, uddg_key(), 0)->Some_0;
    let end = match find_char_from(url, '&', j + 5) {
        None => url.len() as int,
        Some(k) => k,
    };
    url.subrange(j + 5, end)
}

/// What normalization returns, in the order the rules are tried:
/// redirect unwrapping, absolute URLs kept, root-relative and bare paths
/// prefixed with the host.
pub open spec fn normalize_spec(url: Seq<char>, host: Seq<char>) -> Seq<char> {
    if starts_with(url, redirect_prefix()) && contains_sub(url, uddg_key()) {
        match percent_decoded(uddg_value(url)) {
            Some(d) => d,
            None => Seq::empty(),
        }
    } else if starts_with(url, http_prefix()) {
        url
    } else if url.len() > 0 && url[0] == '/' {
        https_scheme() + host + url
    } else {
        https_scheme() + host + seq!['/'] + url
    }
}

fn redirect_prefix_vec() -> (p: Vec<char>)
    ensures
        p@ == redirect_prefix(),
{
    let mut p: Vec<char> = Vec::new();
    p.push('/');
    p.push('l');
    p.push('/');
    assert(p@ =~= redirect_prefix());
    p
}

fn uddg_key_vec() -> (p: Vec<char>)
    ensures
        p@ == uddg_key(),
{
    let mut p: Vec<char> = Vec::new();
    p.push('u');
    p.push('d');
    p.push('d');
    p.push('g');
    p.push('=');
    assert(p@ =~= uddg_key());
    p
}

fn http_prefix_vec() -> (p: Vec<char>)
    ensures
        p@ == http_prefix(),
{
    let mut p: Vec<char> = Vec::new();
    p.push('h');
    p.push('t');
    p.push('t');
    p.push('p');
    assert(p@ =~= http_prefix());
    p
}

fn https_scheme_vec() -> (p: Vec<char>)
    ensures
        p@ == https_scheme(),
{
    let mut p: Vec<char> = Vec::new();
    p.push('h');
    p.push('t');
    p.push('t');
    p.push('p');
    p.push('s');
    p.push(':');
    p.push('/');
    p.push('/');
    assert(p@ =~= https_scheme());
    p
}

/// Normalization over `Vec<char>`, as `normalize_spec` states.
pub fn v_normalize(url: &Vec<char>, host: &Vec<char>) -> (r: Vec<char>)
    ensures
        r@ == normalize_spec(url@, host@),
{
    let key = uddg_key_vec();
    if v_starts_with(&url, &redirect_prefix_vec()) {
        if let Some(j) = v_find_sub(&url, &key, 0) {
            proof {
                lemma_find_sub_props(url@, uddg_key(), 0);
            }
            let n: usize = url.len();
            assert(j + 5 <= n);
            let end: usize = match v_find_char(&url, '&', j + 5) {
                None => url.len(),
                Some(k) => {
                    proof {
                        lemma_find_char_props(url@, '&', j + 5);
                    }
                    k
                },
            };
            let enc = v_subrange(&url, j + 5, end);
            assert(enc@ == uddg_value(url@));
            let enc_str = chars_to_string(&enc);
            return match percent_decode(enc_str.as_str()) {
                Some(d) => str_to_chars(d.as_str()),
                None => Vec::new(),
            };
        }
    }
    if v_starts_with(&url, &http_prefix_vec()) {
        let mut out: Vec<char> = Vec::new();
        v_append(&mut out, url);
        assert(out@ =~= url@);
        return out;
    }
    let mut out = https_scheme_vec();
    v_append(&mut out, host);
    if url.len() > 0 && url[0] == '/' {
        v_append(&mut out, url);
        assert(out@ =~= https_scheme() + host@ + url@);
    } else {
        out.push('/');
        v_append(&mut out, url);
        assert(out@ =~= https_scheme() + host@ + seq!['/'] + url@);
    }
    out
}

/// Normalizes `raw_url` against `site_host`, as `normalize_spec` states.
pub fn normalize(raw_url: &str, site_host: &str) -> (r: String)
    ensures
        r@ == normalize_spec(raw_url@, site_host@),
{
    let url = str_to_chars(raw_url);
    let host = str_to_chars(site_host);
    chars_to_string(&v_normalize(&url, &host))
}

/// Normalizes a search-result link against the `duckduckgo.com` host.
pub fn clean_duckduckgo_url(url: &str) -> (r: String)
    ensures
        r@ == normalize_spec(url@, duckduckgo_host()),
{
    let u = str_to_chars(url);
    let host = duckduckgo_host_vec();
    chars_to_string(&v_normalize(&u, &host))
}

/// The host `duckduckgo.com` as a character vector.
pub fn duckduckgo_host_vec() -> (p: Vec<char>)
    ensures
        p@ == duckduckgo_host(),
{
    let mut p: Vec<char> = Vec::new();
    p.push('d');
    p.push('u');
    p.push('c');
    p.push('k');
    p.push('d');
    p.push('u');
    p.push('c');
    p.push('k');
    p.push('g');
    p.push('o');
    p.push('.');
    p.push('c');
    p.push('o');
    p.push('m');
    assert(p@ =~= duckduckgo_host());
    p
}

} // verus!
