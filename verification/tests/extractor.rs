use webmark::request::Component;
use webmark::{
    convert_results_to_markdown, extract_description, extract_fallback_description,
    extract_search_results, is_valid_result, parse_alternative_results, parse_duckduckgo_results,
    SearchResult,
};

fn result_row(title: &str, snippet: &str) -> String {
    let mut row = String::from("<tr><td><a class='result-link' href=\"/l/?uddg=https%3A%2F%2Fexample.com\">");
    row.push_str(title);
    row.push_str("</a></td><td class=\"result-snippet\">");
    row.push_str(snippet);
    row.push_str("</td></tr>");
    row
}

#[test]
fn primary_row_yields_result() {
    let page = result_row("Example Title", "A snippet here");
    let results = parse_duckduckgo_results(&page).unwrap();
    assert_eq!(results.len(), 1);
    assert_eq!(results[0].title, "Example Title");
    assert_eq!(results[0].url, "https://example.com");
    assert_eq!(results[0].description, "A snippet here");
}

#[test]
fn short_titles_are_dropped() {
    let page = result_row("ab", "A snippet here");
    let results = parse_duckduckgo_results(&page).unwrap();
    assert_eq!(results.len(), 0);
}

#[test]
fn fallback_finds_generic_anchor() {
    let page = "<html><body><p>nothing here</p>\
                <a href=\"https://example.com\">Example Site</a></body></html>";
    let results = parse_duckduckgo_results(page).unwrap();
    assert_eq!(results.len(), 1);
    assert_eq!(results[0].title, "Example Site");
    assert_eq!(results[0].url, "https://example.com");
    assert_eq!(results[0].description, "No description available");
}

#[test]
fn duplicate_rows_are_not_merged() {
    let row = result_row("Example Title", "A snippet here");
    let mut page = row.clone();
    page.push_str(&row);
    let results = parse_duckduckgo_results(&page).unwrap();
    assert_eq!(results.len(), 2);
    assert_eq!(results[0].title, results[1].title);
}

#[test]
fn alternative_results_filter_chrome() {
    let page = "<a href=\"/x\">All Regions</a>\
                <a href=\"/y\">Any Time</a>\
                <a href=\"/z\">Send Feedback</a>\
                <a href=\"https://example.com\">Example Site</a>";
    let results = parse_alternative_results(page).unwrap();
    assert_eq!(results.len(), 1);
    assert_eq!(results[0].title, "Example Site");
}

#[test]
fn validity_filter() {
    assert!(is_valid_result("Example Site"));
    assert!(!is_valid_result("abc"));
    assert!(!is_valid_result("All Regions filter"));
    assert!(!is_valid_result("Any Time"));
    assert!(!is_valid_result("xFeedbacky"));
}

#[test]
fn description_prefers_snippet() {
    let page = result_row("Example Title", "A snippet here");
    assert_eq!(extract_description(&page), "A snippet here");
}

#[test]
fn description_falls_back_to_long_segments() {
    let block = "<tr><td>this text is long enough</td><td>short</td></tr>";
    assert_eq!(extract_description(block), "this text is long enough");
}

#[test]
fn fallback_description_sentinel_when_empty() {
    assert_eq!(extract_fallback_description("<tr></tr>"), "No description available");
}

#[test]
fn fallback_description_caps_at_two_hundred() {
    let long = "x".repeat(150);
    let mut block = String::from("<td>");
    block.push_str(&long);
    block.push_str("</td><td>");
    block.push_str(&long);
    block.push_str("</td>");
    let desc = extract_fallback_description(&block);
    assert_eq!(desc.chars().count(), 200);
}

#[test]
fn markdown_listing_with_description() {
    let results = vec![SearchResult {
        title: String::from("Title"),
        url: String::from("https://e.com"),
        description: String::from("desc"),
    }];
    assert_eq!(
        convert_results_to_markdown(&results, "rust"),
        "# Results for \"rust\"\n\n1. Title\n   **URL:** https://e.com\n   **Description:** desc\n\n"
    );
}

#[test]
fn markdown_listing_hides_sentinel_description() {
    let results = vec![SearchResult {
        title: String::from("Title"),
        url: String::from("https://e.com"),
        description: String::from("No description available"),
    }];
    assert_eq!(
        convert_results_to_markdown(&results, "q"),
        "# Results for \"q\"\n\n1. Title\n   **URL:** https://e.com\n\n"
    );
}

#[test]
fn markdown_listing_counts_entries() {
    let one = SearchResult {
        title: String::from("One"),
        url: String::from("https://a.com"),
        description: String::from(""),
    };
    let two = SearchResult {
        title: String::from("Two"),
        url: String::from("https://b.com"),
        description: String::from(""),
    };
    let md = convert_results_to_markdown(&vec![one, two], "q");
    assert!(md.contains("1. One"));
    assert!(md.contains("2. Two"));
}

#[test]
fn markdown_listing_empty() {
    let results: Vec<SearchResult> = Vec::new();
    assert_eq!(convert_results_to_markdown(&results, "q"), "# Results for \"q\"\n\nNo results found.\n");
}

#[test]
fn extraction_returns_results_and_markdown() {
    let page = result_row("Example Title", "A snippet here");
    let (results, md) = extract_search_results(&page, "example");
    assert_eq!(results.len(), 1);
    assert_eq!(
        md,
        "# Results for \"example\"\n\n1. Example Title\n   **URL:** https://example.com\n   **Description:** A snippet here\n\n"
    );
}

#[test]
fn create_headers_pairs() {
    let headers = Component::create_headers("k123");
    assert_eq!(headers.len(), 2);
    assert_eq!(headers[0].0, "Authorization");
    assert_eq!(headers[0].1, "Bearer k123");
    assert_eq!(headers[1].0, "Content-Type");
    assert_eq!(headers[1].1, "application/json");
}

#[test]
fn web_item_becomes_search_result() {
    let item = webmark::records::WebItem {
        item_type: String::from("search_result"),
        age: None,
        cluster: None,
        cluster_type: None,
        description: String::from("a description"),
        family_friendly: true,
        is_live: false,
        is_source_both: false,
        is_source_local: false,
        language: String::from("en"),
        meta_url: webmark::records::MetaUrl {
            favicon: String::from(""),
            hostname: String::from("example.com"),
            netloc: String::from("example.com"),
            path: String::from("/"),
            scheme: String::from("https"),
        },
        page_age: None,
        profile: None,
        subtype: None,
        thumbnail: None,
        title: String::from("A Title"),
        url: String::from("https://example.com"),
    };
    let r = item.to_search_result();
    assert_eq!(r.title, "A Title");
    assert_eq!(r.url, "https://example.com");
    assert_eq!(r.description, "a description");
}
