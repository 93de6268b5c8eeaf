use webmark::json::JsonValue;
use webmark::{convert_best_effort, html_to_markdown, json_to_markdown};

#[test]
fn array_markers_never_increment() {
    assert_eq!(json_to_markdown("[\"x\", true]"), "1. x\n\n1. true\n");
}

#[test]
fn render_two_element_array() {
    let v = JsonValue::Array(vec![
        JsonValue::Str(String::from("a")),
        JsonValue::Str(String::from("b")),
    ]);
    assert_eq!(webmark::json::render(&v), "1. a\n\n1. b\n");
}

#[test]
fn object_renders_one_header_per_key() {
    let md = json_to_markdown("{\"alpha\": 1, \"beta\": \"two\"}");
    assert_eq!(md, "### alpha\n\n1\n\n### beta\n\ntwo\n\n");
}

#[test]
fn invalid_json_renders_null() {
    assert_eq!(json_to_markdown("not json at all"), "null");
}

#[test]
fn json_scalars_render_textually() {
    assert_eq!(json_to_markdown("true"), "true");
    assert_eq!(json_to_markdown("false"), "false");
    assert_eq!(json_to_markdown("null"), "null");
    assert_eq!(json_to_markdown("3.5"), "3.5");
    assert_eq!(json_to_markdown("\"hi\""), "hi");
}

#[test]
fn paragraph_and_unordered_list() {
    assert_eq!(
        html_to_markdown("<p>Hello</p><ul><li>A</li><li>B</li></ul>"),
        "Hello\n\n\n- A\n- B"
    );
}

#[test]
fn ordered_list_marker_needs_parent() {
    assert_eq!(html_to_markdown("<ol><li>X</li></ol>"), "1. X");
}

#[test]
fn table_gets_separator_row() {
    let md = html_to_markdown(
        "<table><tr><th>A</th><th>B</th></tr><tr><td>1</td><td>2</td></tr></table>",
    );
    let lines: Vec<&str> = md.lines().collect();
    assert_eq!(lines[1], "| --- | --- |");
    assert_eq!(md, "| A | B \n| --- | --- |\n| 1 | 2");
}

#[test]
fn headings_carry_their_level() {
    assert_eq!(html_to_markdown("<h1>T</h1>"), "# T");
    assert_eq!(html_to_markdown("<h2>Title</h2>"), "## Title");
    assert_eq!(html_to_markdown("<h6>Deep</h6>"), "###### Deep");
}

#[test]
fn anchor_renders_link() {
    assert_eq!(
        html_to_markdown("<p><a href=\"https://e.com\">link</a></p>"),
        "link\n\n[link](https://e.com)"
    );
}

#[test]
fn image_uses_alt_or_placeholder() {
    assert_eq!(html_to_markdown("<img src=\"i.png\" alt=\"pic\">"), "![pic](i.png)");
    assert_eq!(html_to_markdown("<img src=\"i.png\">"), "![image](i.png)");
}

#[test]
fn preformatted_text_is_fenced() {
    assert_eq!(html_to_markdown("<pre>let x = 1;</pre>"), "```\nlet x = 1;\n```");
}

#[test]
fn inline_code_gets_backticks() {
    assert_eq!(html_to_markdown("<p>use<code>foo</code></p>"), "use foo\n\n`foo`");
}

#[test]
fn blockquote_lines_get_markers() {
    assert_eq!(html_to_markdown("<blockquote>quoted</blockquote>"), "> quoted");
}

#[test]
fn empty_html_converts_to_empty() {
    assert_eq!(html_to_markdown(""), "");
}

#[test]
fn malformed_html_still_converts() {
    assert_eq!(html_to_markdown("<div><p>ok"), "ok\n\nok");
}

#[test]
fn tag_names_are_case_insensitive() {
    assert_eq!(html_to_markdown("<P>Hi</P>"), "Hi");
}

#[test]
fn dispatch_by_content_type() {
    assert_eq!(convert_best_effort("{\"a\": 1}", Some("application/json")), "### a\n\n1\n\n");
    assert_eq!(convert_best_effort("<p>x</p>", Some("text/html")), "x");
    assert_eq!(convert_best_effort("<p>x</p>", None), "x");
}

#[test]
fn dispatch_ignores_letter_case() {
    assert_eq!(
        convert_best_effort("{\"a\": 1}", Some("APPLICATION/JSON; charset=utf-8")),
        "### a\n\n1\n\n"
    );
}
