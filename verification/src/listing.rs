//! Formatter for a library-search response: a JSON body is checked for
//! a `results` array and rendered as a text listing, one block per
//! library, with a fixed explanatory header.  Every failure mode
//! degrades to a message carrying the body, never to an error.

use vstd::prelude::*;

use crate::conv::{chars_to_string, str_to_chars};
use crate::html::is_digit;
use crate::json::{json_parsed, parse_json, JsonValue};
use crate::text::{contains_sub, v_append, v_contains_sub};

verus! {

/// The value of the first object field named `key`, from index `i` on.
pub open spec fn obj_get_from(
    fields: Seq<(String, JsonValue)>,
    key: Seq<char>,
    i: int,
) -> Option<JsonValue>
    decreases fields.len() - i,
{
    if i < 0 || i >= fields.len() {
        None
    } else if fields[i].0@ == key {
        Some(fields[i].1)
    } else {
        obj_get_from(fields, key, i + 1)
    }
}

/// The value of the field named `key` of an object; `None` on any other
/// value.
pub open spec fn obj_get(v: JsonValue, key: Seq<char>) -> Option<JsonValue> {
    match v {
        JsonValue::Object(fields) => obj_get_from(fields@, key, 0),
        _ => None,
    }
}

/// A field rendered as text: the string it holds, or `N/A`.
pub open spec fn str_or_na(o: Option<JsonValue>) -> Seq<char> {
    match o {
        Some(JsonValue::Str(s)) => s@,
        _ => "N/A"@,
    }
}

/// Ten to the `k`.
pub open spec fn pow10(k: nat) -> int
    decreases k,
{
    if k == 0 {
        1
    } else {
        10 * pow10((k - 1) as nat)
    }
}

/// The value of an unsigned decimal digit string.
pub open spec fn dec_value(s: Seq<char>) -> int
    decreases s.len(),
{
    if s.len() == 0 {
        0
    } else {
        dec_value(s.drop_last()) * 10 + digit_of(s.last())
    }
}

/// The numeric value of a digit character.
pub open spec fn digit_of(c: char) -> int {
    if c == '0' {
        0
    } else if c == '1' {
        1
    } else if c == '2' {
        2
    } else if c == '3' {
        3
    } else if c == '4' {
        4
    } else if c == '5' {
        5
    } else if c == '6' {
        6
    } else if c == '7' {
        7
    } else if c == '8' {
        8
    } else {
        9
    }
}

/// Every character of `s` is a decimal digit.
pub open spec fn all_digits(s: Seq<char>) -> bool {
    forall|k: int| 0 <= k < s.len() ==> is_digit(#[trigger] s[k])
}

/// A displayable count: the text is a plain unsigned integer of at most
/// nineteen digits whose value fits the signed sixty-four-bit range.
/// Longer texts, signs, fractions and exponents are not counts.
pub open spec fn counter_value(s: Seq<char>) -> Option<int> {
    if 0 < s.len() <= 19 && all_digits(s) && dec_value(s) <= 0x7fff_ffff_ffff_ffff {
        Some(dec_value(s))
    } else {
        None
    }
}

/// The count a field holds, when it is a number whose text is a count.
pub open spec fn item_count(o: Option<JsonValue>) -> Option<int> {
    match o {
        Some(JsonValue::Number(s)) => counter_value(s@),
        _ => None,
    }
}

proof fn lemma_dec_value_bound(s: Seq<char>)
    requires
        all_digits(s),
    ensures
        0 <= dec_value(s) < pow10(s.len()),
    decreases s.len(),
{
    if s.len() > 0 {
        assert(all_digits(s.drop_last())) by {
            assert(forall|k: int|
                0 <= k < s.len() - 1 ==> is_digit(#[trigger] s.drop_last()[k]) == is_digit(
                    s[k],
                ));
        }
        lemma_dec_value_bound(s.drop_last());
        assert(0 <= digit_of(s.last()) <= 9);
    }
}

/// One library's block of the listing.
pub open spec fn entry_spec(item: JsonValue) -> Seq<char> {
    "- Title: "@ + str_or_na(obj_get(item, "title"@))
        + "\n- Context7-compatible library ID: "@ + str_or_na(obj_get(item, "id"@))
        + "\n- Description: "@ + str_or_na(obj_get(item, "description"@)) + (match item_count(
        obj_get(item, "totalSnippets"@),
    ) {
        Some(n) => "\n- Code Snippets: "@ + crate::extract::dec_str(n as nat),
        None => Seq::empty(),
    }) + (match item_count(obj_get(item, "stars"@)) {
        Some(n) => "\n- GitHub Stars: "@ + crate::extract::dec_str(n as nat),
        None => Seq::empty(),
    })
}

/// The blocks of all items from index `i` on, separated by blank lines.
pub open spec fn entries_from(items: Seq<JsonValue>, i: int) -> Seq<char>
    decreases items.len() - i,
{
    if i < 0 || i >= items.len() {
        Seq::empty()
    } else {
        entry_spec(items[i]) + (if i + 1 < items.len() {
            "\n\n"@
        } else {
            Seq::empty()
        }) + entries_from(items, i + 1)
    }
}

/// The fixed header above the listing.
pub open spec fn listing_header() -> Seq<char> {
    "Available Libraries (top matches):\n\nEach result includes information like:\n- Title: Library or package name\n- Context7-compatible library ID: Identifier (format: /org/repo)\n- Description: Short summary\n- Code Snippets: Number of available code examples (if available)\n- GitHub Stars: Popularity indicator (if available)\n\nFor best results, select libraries based on name match, popularity (stars), snippet coverage, and relevance to your use case.\n\n---\n"@
}

/// What the listing formatter returns, case by case: a missing or
/// non-JSON content type, unparseable JSON, a missing or non-array
/// `results` field, an empty array, or the header with one block per
/// item.
pub open spec fn listing_spec(body: Seq<char>, ct: Option<Seq<char>>) -> Seq<char> {
    match ct {
        None => "Missing content type in response. Body: "@ + body,
        Some(c) => if !contains_sub(c, "application/json"@) {
            "Unexpected content type: "@ + c + ". Body: "@ + body
        } else {
            match json_parsed(body) {
                None => "Failed to parse API response JSON. Body: "@ + body,
                Some(v) => match obj_get(v, "results"@) {
                    None => "API response did not contain a 'results' field as expected. Body: "@
                        + body,
                    Some(rv) => match rv {
                        JsonValue::Array(items) => if items@.len() == 0 {
                            "No libraries found matching your query."@
                        } else {
                            listing_header() + entries_from(items@, 0)
                        },
                        _ => "API response 'results' field was not an array as expected. Body: "@
                            + body,
                    },
                },
            }
        },
    }
}

/// The field named `key`, as `obj_get` states.
fn v_obj_get<'a>(v: &'a JsonValue, key: &str) -> (r: Option<&'a JsonValue>)
    ensures
        match r {
            Some(x) => obj_get(*v, key@) == Some(*x),
            None => obj_get(*v, key@) is None,
        },
{
    match v {
        JsonValue::Object(fields) => {
            let key_s: String = key.to_owned();
            let mut i: usize = 0;
            while i < fields.len()
                invariant
                    *v == JsonValue::Object(*fields),
                    key_s@ == key@,
                    i <= fields@.len(),
                    obj_get_from(fields@, key@, 0) == obj_get_from(fields@, key@, i as int),
                decreases fields@.len() - i,
            {
                if fields[i].0.eq(&key_s) {
                    return Some(&fields[i].1);
                }
                i = i + 1;
            }
            None
        },
        _ => None,
    }
}

/// The count a number field holds, as `item_count` states.
fn v_item_count(o: Option<&JsonValue>) -> (r: Option<u64>)
    ensures
        match (r, o) {
            (Some(n), Some(x)) => item_count(Some(*x)) == Some(n as int),
            (None, Some(x)) => item_count(Some(*x)) is None,
            (None, None) => true,
            (Some(_), None) => false,
        },
{
    let x = match o {
        Some(x) => x,
        None => {
            return None;
        },
    };
    let s = match x {
        JsonValue::Number(s) => s,
        _ => {
            return None;
        },
    };
    let cs = str_to_chars(s.as_str());
    let n: usize = cs.len();
    if n == 0 || n > 19 {
        return None;
    }
    let mut acc: u64 = 0;
    proof {
        reveal_with_fuel(pow10, 21);
        assert(pow10(19) == 10_000_000_000_000_000_000);
        assert(pow10(0) == 1);
    }
    let mut k: usize = 0;
    while k < n
        invariant
            o == Some(x),
            *x == JsonValue::Number(*s),
            cs@ == s@,
            0 < n,
            k <= n <= 19,
            n == cs@.len(),
            all_digits(cs@.subrange(0, k as int)),
            acc as int == dec_value(cs@.subrange(0, k as int)),
            acc < pow10(k as nat),
            pow10(k as nat) <= pow10(19),
        decreases n - k,
    {
        proof {
            reveal_with_fuel(pow10, 21);
            assert(pow10(19) == 10_000_000_000_000_000_000);
        }
        let c = cs[k];
        let d: u64 = match c {
            '0' => 0,
            '1' => 1,
            '2' => 2,
            '3' => 3,
            '4' => 4,
            '5' => 5,
            '6' => 6,
            '7' => 7,
            '8' => 8,
            '9' => 9,
            _ => {
                assert(!is_digit(cs@[k as int]));
                assert(!all_digits(cs@)) by {
                    assert(cs@[k as int] == cs@.subrange(0, cs@.len() as int)[k as int]);
                    assert(cs@ =~= cs@.subrange(0, cs@.len() as int));
                }
                return None;
            },
        };
        assert(d as int == digit_of(cs@[k as int]) && is_digit(cs@[k as int]));
        proof {
            assert(cs@.subrange(0, k + 1).drop_last() =~= cs@.subrange(0, k as int));
            assert(cs@.subrange(0, k + 1).last() == cs@[k as int]);
        }
        acc = acc * 10 + d;
        assert(all_digits(cs@.subrange(0, k + 1)));
        k = k + 1;
    }
    assert(cs@.subrange(0, n as int) =~= cs@);
    if acc <= 0x7fff_ffff_ffff_ffff {
        Some(acc)
    } else {
        None
    }
}

fn push_str_or_na(out: &mut Vec<char>, o: Option<&JsonValue>)
    ensures
        final(out)@ == old(out)@ + (match o {
            Some(x) => str_or_na(Some(*x)),
            None => str_or_na(None),
        }),
{
    match o {
        Some(JsonValue::Str(s)) => {
            let cs = str_to_chars(s.as_str());
            v_append(out, &cs);
        },
        _ => {
            let cs = str_to_chars("N/A");
            v_append(out, &cs);
        },
    }
}

#[verifier::rlimit(60)]
fn v_entry(item: &JsonValue, out: &mut Vec<char>)
    ensures
        final(out)@ == old(out)@ + entry_spec(*item),
{
    v_append(out, &str_to_chars("- Title: "));
    push_str_or_na(out, v_obj_get(item, "title"));
    v_append(out, &str_to_chars("\n- Context7-compatible library ID: "));
    push_str_or_na(out, v_obj_get(item, "id"));
    v_append(out, &str_to_chars("\n- Description: "));
    push_str_or_na(out, v_obj_get(item, "description"));
    let ghost mid = out@;
    let snips = v_obj_get(item, "totalSnippets");
    match v_item_count(snips) {
        Some(n) => {
            v_append(out, &str_to_chars("\n- Code Snippets: "));
            v_append(out, &crate::extract::v_dec_u64(n));
        },
        None => {},
    }
    assert(out@ =~= mid + (match item_count(obj_get(*item, "totalSnippets"@)) {
        Some(n) => "\n- Code Snippets: "@ + crate::extract::dec_str(n as nat),
        None => Seq::<char>::empty(),
    }));
    let ghost mid2 = out@;
    let stars = v_obj_get(item, "stars");
    match v_item_count(stars) {
        Some(n) => {
            v_append(out, &str_to_chars("\n- GitHub Stars: "));
            v_append(out, &crate::extract::v_dec_u64(n));
        },
        None => {},
    }
    assert(out@ =~= mid2 + (match item_count(obj_get(*item, "stars"@)) {
        Some(n) => "\n- GitHub Stars: "@ + crate::extract::dec_str(n as nat),
        None => Seq::<char>::empty(),
    }));
    assert(out@ =~= old(out)@ + entry_spec(*item));
}

/// Formats a library-search response body, as `listing_spec` states:
/// check the content type, parse the body, find the `results` array, and
/// render one block per library under the fixed header.
pub fn resolve_library_listing(body: &str, content_type: Option<&str>) -> (r: String)
    ensures
        r@ == listing_spec(
            body@,
            match content_type {
                Some(c) => Some(c@),
                None => None,
            },
        ),
{
    let mut out: Vec<char> = Vec::new();
    let ct = match content_type {
        None => {
            v_append(&mut out, &str_to_chars("Missing content type in response. Body: "));
            v_append(&mut out, &str_to_chars(body));
            return chars_to_string(&out);
        },
        Some(c) => c,
    };
    let ct_chars = str_to_chars(ct);
    let json_pat = str_to_chars("application/json");
    if !v_contains_sub(&ct_chars, &json_pat) {
        v_append(&mut out, &str_to_chars("Unexpected content type: "));
        v_append(&mut out, &ct_chars);
        v_append(&mut out, &str_to_chars(". Body: "));
        v_append(&mut out, &str_to_chars(body));
        return chars_to_string(&out);
    }
    let parsed = match parse_json(body) {
        None => {
            v_append(&mut out, &str_to_chars("Failed to parse API response JSON. Body: "));
            v_append(&mut out, &str_to_chars(body));
            return chars_to_string(&out);
        },
        Some(v) => v,
    };
    let results = match v_obj_get(&parsed, "results") {
        None => {
            v_append(
                &mut out,
                &str_to_chars("API response did not contain a 'results' field as expected. Body: "),
            );
            v_append(&mut out, &str_to_chars(body));
            return chars_to_string(&out);
        },
        Some(rv) => rv,
    };
    let items = match results {
        JsonValue::Array(items) => items,
        _ => {
            v_append(
                &mut out,
                &str_to_chars("API response 'results' field was not an array as expected. Body: "),
            );
            v_append(&mut out, &str_to_chars(body));
            return chars_to_string(&out);
        },
    };
    if items.len() == 0 {
        v_append(&mut out, &str_to_chars("No libraries found matching your query."));
        return chars_to_string(&out);
    }
    let header = str_to_chars(
        "Available Libraries (top matches):\n\nEach result includes information like:\n- Title: Library or package name\n- Context7-compatible library ID: Identifier (format: /org/repo)\n- Description: Short summary\n- Code Snippets: Number of available code examples (if available)\n- GitHub Stars: Popularity indicator (if available)\n\nFor best results, select libraries based on name match, popularity (stars), snippet coverage, and relevance to your use case.\n\n---\n",
    );
    v_append(&mut out, &header);
    let ghost base = out@;
    let mut i: usize = 0;
    while i < items.len()
        invariant
            i <= items@.len(),
            base + entries_from(items@, 0) == out@ + entries_from(items@, i as int),
        decreases items@.len() - i,
    {
        v_entry(&items[i], &mut out);
        if i + 1 < items.len() {
            v_append(&mut out, &str_to_chars("\n\n"));
        }
        i = i + 1;
    }
    chars_to_string(&out)
}

} // verus!
