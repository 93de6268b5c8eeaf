use webmark::resolve_library_listing;

const HEADER: &str = "Available Libraries (top matches):\n\nEach result includes information like:\n- Title: Library or package name\n- Context7-compatible library ID: Identifier (format: /org/repo)\n- Description: Short summary\n- Code Snippets: Number of available code examples (if available)\n- GitHub Stars: Popularity indicator (if available)\n\nFor best results, select libraries based on name match, popularity (stars), snippet coverage, and relevance to your use case.\n\n---\n";

#[test]
fn listing_missing_content_type() {
    assert_eq!(
        resolve_library_listing("x", None),
        "Missing content type in response. Body: x"
    );
}

#[test]
fn listing_unexpected_content_type() {
    assert_eq!(
        resolve_library_listing("x", Some("text/html")),
        "Unexpected content type: text/html. Body: x"
    );
}

#[test]
fn listing_unparseable_body() {
    assert_eq!(
        resolve_library_listing("nope", Some("application/json")),
        "Failed to parse API response JSON. Body: nope"
    );
}

#[test]
fn listing_missing_results_field() {
    assert_eq!(
        resolve_library_listing("{}", Some("application/json")),
        "API response did not contain a 'results' field as expected. Body: {}"
    );
}

#[test]
fn listing_results_not_an_array() {
    assert_eq!(
        resolve_library_listing("{\"results\": 5}", Some("application/json")),
        "API response 'results' field was not an array as expected. Body: {\"results\": 5}"
    );
}

#[test]
fn listing_no_matches() {
    assert_eq!(
        resolve_library_listing("{\"results\": []}", Some("application/json")),
        "No libraries found matching your query."
    );
}

#[test]
fn listing_renders_items() {
    let body = "{\"results\": [\
        {\"title\": \"Verus\", \"id\": \"/verus/verus\", \"description\": \"A verifier\", \
         \"totalSnippets\": 42, \"stars\": 1000},\
        {\"title\": 7}\
    ]}";
    let mut expected = String::from(HEADER);
    expected.push_str(
        "- Title: Verus\n- Context7-compatible library ID: /verus/verus\n- Description: A verifier\n- Code Snippets: 42\n- GitHub Stars: 1000",
    );
    expected.push_str("\n\n");
    expected.push_str("- Title: N/A\n- Context7-compatible library ID: N/A\n- Description: N/A");
    assert_eq!(resolve_library_listing(body, Some("application/json")), expected);
}

#[test]
fn listing_hides_non_count_fields() {
    let body = "{\"results\": [\
        {\"title\": \"Alpha\", \"id\": \"/a/a\", \"description\": \"d\", \
         \"totalSnippets\": -3, \"stars\": 1.5}\
    ]}";
    let mut expected = String::from(HEADER);
    expected.push_str("- Title: Alpha\n- Context7-compatible library ID: /a/a\n- Description: d");
    assert_eq!(resolve_library_listing(body, Some("application/json")), expected);
}

#[test]
fn listing_drops_counts_beyond_range() {
    let body = "{\"results\": [\
        {\"title\": \"Alpha\", \"id\": \"/a/a\", \"description\": \"d\", \
         \"stars\": 9223372036854775808}\
    ]}";
    let mut expected = String::from(HEADER);
    expected.push_str("- Title: Alpha\n- Context7-compatible library ID: /a/a\n- Description: d");
    assert_eq!(resolve_library_listing(body, Some("application/json")), expected);
}
