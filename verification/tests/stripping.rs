use webmark::{clean_duckduckgo_url, normalize, strip_html_tags};

#[test]
fn strip_entity_and_tags() {
    assert_eq!(strip_html_tags("<b>It&#39;s</b>  <i>ok</i>"), "It's ok");
}

#[test]
fn strip_empty_input() {
    assert_eq!(strip_html_tags(""), "");
}

#[test]
fn strip_joins_lines() {
    assert_eq!(strip_html_tags("<div>\n a \n\n b\n</div>"), "a b");
}

#[test]
fn strip_keeps_unclosed_angle() {
    assert_eq!(strip_html_tags("a <b"), "a <b");
}

#[test]
fn strip_only_decodes_apostrophe() {
    assert_eq!(strip_html_tags("&amp; &#39;"), "&amp; '");
}

#[test]
fn redirect_url_unwraps() {
    assert_eq!(
        clean_duckduckgo_url("/l/?uddg=https%3A%2F%2Fexample.com&rut=xyz"),
        "https://example.com"
    );
}

#[test]
fn redirect_url_bad_encoding_discards() {
    assert_eq!(clean_duckduckgo_url("/l/?uddg=%FF"), "");
}

#[test]
fn absolute_url_unchanged() {
    assert_eq!(clean_duckduckgo_url("https://foo.bar/x"), "https://foo.bar/x");
    assert_eq!(clean_duckduckgo_url("http://foo.bar"), "http://foo.bar");
}

#[test]
fn root_relative_url_gets_host() {
    assert_eq!(clean_duckduckgo_url("/about"), "https://duckduckgo.com/about");
}

#[test]
fn bare_path_gets_host_and_slash() {
    assert_eq!(clean_duckduckgo_url("about"), "https://duckduckgo.com/about");
}

#[test]
fn normalize_takes_any_host() {
    assert_eq!(normalize("/x", "example.org"), "https://example.org/x");
    assert_eq!(normalize("y", "example.org"), "https://example.org/y");
}

#[test]
fn redirect_checked_before_scheme() {
    // A redirect path without the carrying parameter falls through to the
    // root-relative rule.
    assert_eq!(clean_duckduckgo_url("/l/plain"), "https://duckduckgo.com/l/plain");
}

#[test]
fn trace_yields_ip_line() {
    assert_eq!(
        webmark::ip_from_trace("fl=4f122\nip=203.0.113.7\nts=1700000000"),
        Ok(String::from("203.0.113.7"))
    );
}

#[test]
fn trace_without_ip_is_an_error() {
    assert_eq!(
        webmark::ip_from_trace("fl=4f122\nts=1700000000"),
        Err(String::from("Could not find IP address in response"))
    );
}
