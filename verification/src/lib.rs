//! Conversion of fetched web content into Markdown, and extraction of
//! search results from a lite-HTML results page.
//!
//! The crate has four cooperating parts: an entity stripper that removes
//! tags and tidies whitespace, a URL normalizer that unwraps redirect
//! links, a recursive JSON-to-Markdown renderer, and an HTML-to-Markdown
//! walker with a line-based table reconstructor.  A search-result
//! extractor composes the stripper and the normalizer.  Transport,
//! credential loading and request building are left to callers; the
//! converters take a body string and hand back Markdown or typed
//! records.

use vstd::prelude::*;

pub mod conv;
pub mod entity;
pub mod extract;
pub mod html;
pub mod json;
pub mod listing;
pub mod records;
pub mod request;
pub mod text;
pub mod trace;
pub mod urlnorm;

pub use entity::strip_html_tags;
pub use extract::{
    convert_results_to_markdown, extract_description, extract_fallback_description,
    extract_search_results, is_valid_result, parse_alternative_results, parse_duckduckgo_results,
    SearchResult,
};
pub use html::html_to_markdown;
pub use json::{json_to_markdown, JsonValue};
pub use listing::resolve_library_listing;
pub use trace::ip_from_trace;
pub use urlnorm::{clean_duckduckgo_url, normalize};

verus! {

/// Whitespace as the trimming and line rules understand it: the ASCII
/// whitespace characters.
pub open spec fn is_space(c: char) -> bool {
    c == ' ' || c == '\t' || c == '\n' || c == '\r' || c == '\u{b}' || c == '\u{c}'
}

/// Whether a content-type value asks for the JSON converter: it names
/// `application/json`, compared without regard to letter case.
pub open spec fn wants_json(ct: Option<Seq<char>>) -> bool {
    match ct {
        Some(s) => text::contains_sub(html::lower_seq(s), "application/json"@),
        None => false,
    }
}

/// What best-effort conversion returns: the JSON rendering when the
/// content type asks for it, else the HTML rendering.
pub open spec fn convert_choice_spec(body: Seq<char>, ct: Option<Seq<char>>) -> Seq<char> {
    if wants_json(ct) {
        json::render_spec(json::parsed_or_null(body))
    } else {
        html::html_markdown_spec(body)
    }
}

/// Converts a fetched body by its content type, as
/// `convert_choice_spec` states.
pub fn convert_best_effort(body: &str, content_type: Option<&str>) -> (r: String)
    ensures
        r@ == convert_choice_spec(
            body@,
            match content_type {
                Some(ct) => Some(ct@),
                None => None,
            },
        ),
{
    match content_type {
        Some(ct) => {
            let cs = conv::str_to_chars(ct);
            let lc = html::v_lower(&cs);
            let pat = conv::str_to_chars("application/json");
            if text::v_contains_sub(&lc, &pat) {
                json::json_to_markdown(body)
            } else {
                html::html_to_markdown(body)
            }
        },
        None => html::html_to_markdown(body),
    }
}

} // verus!
