//! JSON-to-Markdown renderer: a pure recursive function over a JSON
//! value.
//!
//! Objects render each key as a `### {key}` header followed by the
//! rendered value; arrays render every element behind the literal marker
//! `1. ` — deliberately never incremented — with a blank line between
//! elements; leaves render as their text.  Parsing is done by
//! `serde_json`; unparseable input is treated as `null`.

use vstd::prelude::*;

use crate::conv::{chars_to_string, str_to_chars};
use crate::text::{is_match_at, v_append};

verus! {

/// A JSON value.  Numbers keep their decimal textual form; object fields
/// keep the order in which the parser yielded them.
#[derive(Debug)]
pub enum JsonValue {
    Null,
    Bool(bool),
    Number(String),
    Str(String),
    Array(Vec<JsonValue>),
    Object(Vec<(String, JsonValue)>),
}

/// The rendering of a whole value.
pub open spec fn render_spec(v: JsonValue) -> Seq<char>
    decreases v,
{
    match v {
        JsonValue::Null => seq!['n', 'u', 'l', 'l'],
        JsonValue::Bool(b) => if b {
            seq!['t', 'r', 'u', 'e']
        } else {
            seq!['f', 'a', 'l', 's', 'e']
        },
        JsonValue::Number(s) => s@,
        JsonValue::Str(s) => s@,
        JsonValue::Array(elems) => render_array(elems@, 0),
        JsonValue::Object(fields) => render_object(fields@, 0),
    }
}

/// The rendering of array elements from index `i` on: `1. `, the
/// element, a newline, and a blank line after every element but the last.
pub open spec fn render_array(elems: Seq<JsonValue>, i: int) -> Seq<char>
    decreases elems, elems.len() - i,
{
    if i < 0 || i >= elems.len() {
        Seq::empty()
    } else {
        seq!['1', '.', ' '] + render_spec(elems[i]) + seq!['\n'] + (if i + 1 < elems.len() {
            seq!['\n']
        } else {
            Seq::empty()
        }) + render_array(elems, i + 1)
    }
}

/// The rendering of object fields from index `i` on: a `### {key}`
/// header, a blank line, the value, a blank line.
pub open spec fn render_object(fields: Seq<(String, JsonValue)>, i: int) -> Seq<char>
    decreases fields, fields.len() - i,
{
    if i < 0 || i >= fields.len() {
        Seq::empty()
    } else {
        seq!['#', '#', '#', ' '] + fields[i].0@ + seq!['\n', '\n'] + render_spec(fields[i].1)
            + seq!['\n', '\n'] + render_object(fields, i + 1)
    }
}

/// A `### {key}` header followed by a blank line, as the object renderer
/// emits it.
pub open spec fn object_header(key: Seq<char>) -> Seq<char> {
    seq!['#', '#', '#', ' '] + key + seq!['\n', '\n']
}

/// Length of the rendering of object field `j` alone.
pub open spec fn object_entry_len(fields: Seq<(String, JsonValue)>, j: int) -> int {
    object_header(fields[j].0@).len() + render_spec(fields[j].1).len() + 2int
}

/// Offset of field `i`'s header within the rendering of an object.
pub open spec fn object_offset(fields: Seq<(String, JsonValue)>, i: int) -> int
    decreases i,
{
    if i <= 0 {
        0
    } else {
        object_offset(fields, i - 1) + object_entry_len(fields, i - 1)
    }
}

proof fn lemma_match_prefix(a: Seq<char>, rest: Seq<char>)
    ensures
        is_match_at(a + rest, a, 0),
{
}

proof fn lemma_match_shift(pre: Seq<char>, s: Seq<char>, pat: Seq<char>, q: int)
    requires
        is_match_at(s, pat, q),
    ensures
        is_match_at(pre + s, pat, q + pre.len()),
{
    assert forall|k: int| 0 <= k < pat.len() implies (pre + s)[q + pre.len() + k] == pat[k] by {
        assert((pre + s)[q + pre.len() + k] == s[q + k]);
    }
}

proof fn lemma_object_entry_split(fields: Seq<(String, JsonValue)>, j: int)
    requires
        0 <= j < fields.len(),
    ensures
        render_object(fields, j) =~= object_header(fields[j].0@) + render_spec(fields[j].1)
            + seq!['\n', '\n'] + render_object(fields, j + 1),
{
}

proof fn lemma_object_header_from(fields: Seq<(String, JsonValue)>, j: int, i: int)
    requires
        0 <= j <= i < fields.len(),
    ensures
        is_match_at(
            render_object(fields, j),
            object_header(fields[i].0@),
            object_offset(fields, i) - object_offset(fields, j),
        ),
    decreases i - j,
{
    lemma_object_entry_split(fields, j);
    let entry = object_header(fields[j].0@) + render_spec(fields[j].1) + seq!['\n', '\n'];
    if j == i {
        lemma_match_prefix(object_header(fields[i].0@), render_spec(fields[j].1)
            + seq!['\n', '\n'] + render_object(fields, j + 1));
        assert(render_object(fields, j) =~= object_header(fields[i].0@) + (render_spec(
            fields[j].1,
        ) + seq!['\n', '\n'] + render_object(fields, j + 1)));
    } else {
        lemma_object_header_from(fields, j + 1, i);
        lemma_match_shift(
            entry,
            render_object(fields, j + 1),
            object_header(fields[i].0@),
            object_offset(fields, i) - object_offset(fields, j + 1),
        );
        assert(render_object(fields, j) =~= entry + render_object(fields, j + 1));
        assert(entry.len() == object_entry_len(fields, j));
    }
}

/// Law: rendering an object places one `### {key}` header per field,
/// each at its entry's offset within the output.
pub proof fn lemma_object_header_present(fields: Vec<(String, JsonValue)>, i: int)
    requires
        0 <= i < fields@.len(),
    ensures
        is_match_at(
            render_spec(JsonValue::Object(fields)),
            object_header(fields@[i].0@),
            object_offset(fields@, i),
        ),
{
    lemma_object_header_from(fields@, 0, i);
}

/// Law: the header offsets grow with the field index, so the headers
/// appear in the mapping's iteration order.
pub proof fn lemma_object_offsets_increase(fields: Vec<(String, JsonValue)>, i: int, j: int)
    requires
        0 <= i < j <= fields@.len(),
    ensures
        object_offset(fields@, i) < object_offset(fields@, j),
    decreases j - i,
{
    if j == i + 1 {
        assert(object_entry_len(fields@, i) > 0);
    } else {
        lemma_object_offsets_increase(fields, i, j - 1);
        assert(object_entry_len(fields@, j - 1) > 0);
    }
}

/// Law: a two-element array renders as `1. {first}\n\n1. {second}\n`,
/// with the ordinal marker literally repeated rather than incremented.
pub proof fn lemma_render_array_two(elems: Vec<JsonValue>, a: JsonValue, b: JsonValue)
    requires
        elems@ == seq![a, b],
    ensures
        render_spec(JsonValue::Array(elems)) == seq!['1', '.', ' '] + render_spec(a)
            + seq!['\n', '\n', '1', '.', ' '] + render_spec(b) + seq!['\n'],
{
    assert(render_array(elems@, 2) =~= Seq::<char>::empty());
    assert(render_array(elems@, 1) =~= seq!['1', '.', ' '] + render_spec(b) + seq!['\n']);
    assert(render_array(elems@, 0) =~= seq!['1', '.', ' '] + render_spec(a)
        + seq!['\n', '\n', '1', '.', ' '] + render_spec(b) + seq!['\n']);
}

/// Renders `v` to Markdown, as `render_spec` states.
pub fn render(v: &JsonValue) -> (r: String)
    ensures
        r@ == render_spec(*v),
{
    let mut out: Vec<char> = Vec::new();
    render_into(v, &mut out);
    chars_to_string(&out)
}

fn render_into(v: &JsonValue, out: &mut Vec<char>)
    ensures
        final(out)@ == old(out)@ + render_spec(*v),
    decreases *v,
{
    match v {
        JsonValue::Null => {
            out.push('n');
            out.push('u');
            out.push('l');
            out.push('l');
            assert(out@ =~= old(out)@ + render_spec(*v));
        },
        JsonValue::Bool(b) => {
            if *b {
                out.push('t');
                out.push('r');
                out.push('u');
                out.push('e');
            } else {
                out.push('f');
                out.push('a');
                out.push('l');
                out.push('s');
                out.push('e');
            }
            assert(out@ =~= old(out)@ + render_spec(*v));
        },
        JsonValue::Number(s) => {
            let cs = str_to_chars(s.as_str());
            v_append(out, &cs);
        },
        JsonValue::Str(s) => {
            let cs = str_to_chars(s.as_str());
            v_append(out, &cs);
        },
        JsonValue::Array(elems) => {
            let ghost base = out@;
            let mut i: usize = 0;
            while i < elems.len()
                invariant
                    i <= elems@.len(),
                    *v == JsonValue::Array(*elems),
                    base + render_array(elems@, 0) == out@ + render_array(elems@, i as int),
                decreases elems@.len() - i,
            {
                proof {
                    assert(decreases_to!(*v => v->Array_0));
                    assert(v->Array_0 == *elems);
                    assert(decreases_to!(*v => *elems));
                    assert(decreases_to!(*elems => elems@[i as int]));
                }
                out.push('1');
                out.push('.');
                out.push(' ');
                render_into(&elems[i], out);
                out.push('\n');
                if i + 1 < elems.len() {
                    out.push('\n');
                }
                proof {
                    if i + 1 < elems@.len() {
                        assert(out@ =~= (base + render_array(elems@, 0)).subrange(
                            0,
                            out@.len() as int,
                        )) by {
                            assert(render_array(elems@, i as int) =~= seq!['1', '.', ' ']
                                + render_spec(elems@[i as int]) + seq!['\n'] + seq!['\n']
                                + render_array(elems@, i + 1));
                            assert(base + render_array(elems@, 0) =~= out@ + render_array(
                                elems@,
                                i + 1,
                            ));
                        }
                        assert(base + render_array(elems@, 0) =~= out@ + render_array(
                            elems@,
                            i + 1,
                        ));
                    } else {
                        assert(render_array(elems@, i as int) =~= seq!['1', '.', ' ']
                            + render_spec(elems@[i as int]) + seq!['\n'] + render_array(
                            elems@,
                            i + 1,
                        ));
                        assert(base + render_array(elems@, 0) =~= out@ + render_array(
                            elems@,
                            i + 1,
                        ));
                    }
                }
                i = i + 1;
            }
            assert(render_array(elems@, elems@.len() as int) =~= Seq::<char>::empty());
            assert(out@ =~= base + render_spec(*v));
        },
        JsonValue::Object(fields) => {
            let ghost base = out@;
            let mut i: usize = 0;
            while i < fields.len()
                invariant
                    i <= fields@.len(),
                    *v == JsonValue::Object(*fields),
                    base + render_object(fields@, 0) == out@ + render_object(fields@, i as int),
                decreases fields@.len() - i,
            {
                proof {
                    assert(decreases_to!(*v => v->Object_0));
                    assert(v->Object_0 == *fields);
                    assert(decreases_to!(*v => *fields));
                    assert(decreases_to!(*fields => fields@[i as int]));
                    assert(decreases_to!(fields@[i as int] => fields@[i as int].1));
                }
                out.push('#');
                out.push('#');
                out.push('#');
                out.push(' ');
                let key = str_to_chars(fields[i].0.as_str());
                v_append(out, &key);
                out.push('\n');
                out.push('\n');
                render_into(&fields[i].1, out);
                out.push('\n');
                out.push('\n');
                proof {
                    assert(render_object(fields@, i as int) =~= seq!['#', '#', '#', ' ']
                        + fields@[i as int].0@ + seq!['\n', '\n'] + render_spec(
                        fields@[i as int].1,
                    ) + seq!['\n', '\n'] + render_object(fields@, i + 1));
                    assert(base + render_object(fields@, 0) =~= out@ + render_object(
                        fields@,
                        i + 1,
                    ));
                }
                i = i + 1;
            }
            assert(render_object(fields@, fields@.len() as int) =~= Seq::<char>::empty());
            assert(out@ =~= base + render_spec(*v));
        },
    }
}


/// Declares `serde_json`'s value type so wrappers can hand it around.
#[verifier::external_type_specification]
#[verifier::external_body]
pub struct ExValue(serde_json::Value);

/// What parsing yields for a given text: a function of the characters
/// alone, since the parser and its field ordering are deterministic.
/// `None` reports text that is not valid JSON.
pub uninterp spec fn json_parsed(s: Seq<char>) -> Option<JsonValue>;

/// The parsed value, with malformed text degraded to `null`.
pub open spec fn parsed_or_null(s: Seq<char>) -> JsonValue {
    match json_parsed(s) {
        Some(v) => v,
        None => JsonValue::Null,
    }
}

/// Relies on `serde_json::from_str::<Value>`: parsing is deterministic in
/// the input text, and fails exactly on malformed JSON.
#[verifier::external_body]
pub fn parse_json(s: &str) -> (r: Option<JsonValue>)
    ensures
        r == json_parsed(s@),
{
    match serde_json::from_str::<serde_json::Value>(s) {
        Ok(v) => Some(value_to_json(v)),
        Err(_) => None,
    }
}

/// Relies on the shape of `serde_json::Value`: every variant is moved
/// into the matching variant of `JsonValue`, numbers through
/// `serde_json::Number`'s decimal rendering.
#[verifier::external_body]
fn value_to_json(v: serde_json::Value) -> JsonValue {
    match v {
        serde_json::Value::Null => JsonValue::Null,
        serde_json::Value::Bool(b) => JsonValue::Bool(b),
        serde_json::Value::Number(n) => JsonValue::Number(n.to_string()),
        serde_json::Value::String(s) => JsonValue::Str(s),
        serde_json::Value::Array(a) => JsonValue::Array(
            a.into_iter().map(value_to_json).collect(),
        ),
        serde_json::Value::Object(m) => JsonValue::Object(
            m.into_iter().map(|(k, val)| (k, value_to_json(val))).collect(),
        ),
    }
}

/// Converts a JSON text to Markdown; malformed input renders as `null`.
pub fn json_to_markdown(json: &str) -> (r: String)
    ensures
        r@ == render_spec(parsed_or_null(json@)),
{
    match parse_json(json) {
        Some(v) => render(&v),
        None => render(&JsonValue::Null),
    }
}

} // verus!
