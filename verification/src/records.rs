//! Typed records for a web-search provider's JSON response: the shapes
//! a caller deserializes a provider response into, and the conversion
//! of a web item into a plain search result.

use vstd::prelude::*;

use crate::extract::SearchResult;

verus! {

/// One entry of the mixed-result ordering.
#[derive(Debug, Clone)]
pub struct MainItem {
    pub all: bool,
    pub index: Option<u32>,
    pub item_type: String,
}

/// Echo of the query and the provider's reading of it.
#[derive(Debug, Clone)]
pub struct QueryInfo {
    pub bad_results: bool,
    pub city: String,
    pub country: String,
    pub header_country: String,
    pub is_navigational: bool,
    pub is_news_breaking: bool,
    pub more_results_available: bool,
    pub original: String,
    pub postal_code: String,
    pub should_fallback: bool,
    pub show_strict_warning: bool,
    pub spellcheck_off: bool,
    pub state: String,
}

/// The video result section.
#[derive(Debug, Clone)]
pub struct VideoResults {
    pub results_type: String,
    pub mutated_by_goggles: bool,
    pub results: Vec<VideoItem>,
}

/// One video result.
#[derive(Debug, Clone)]
pub struct VideoItem {
    pub item_type: String,
    pub age: String,
    pub description: String,
    pub fetched_content_timestamp: u64,
    pub meta_url: MetaUrl,
    pub page_age: String,
    pub thumbnail: Thumbnail,
    pub title: String,
    pub url: String,
    pub video: VideoDetails,
}

/// Creator and publisher of a video result.
#[derive(Debug, Clone)]
pub struct VideoDetails {
    pub creator: String,
    pub duration: String,
    pub publisher: String,
}

/// The web result section.
#[derive(Debug, Clone)]
pub struct WebResults {
    pub results_type: String,
    pub family_friendly: bool,
    pub results: Vec<WebItem>,
}

/// One web result.
#[derive(Debug, Clone)]
pub struct WebItem {
    pub item_type: String,
    pub age: Option<String>,
    pub cluster: Option<Vec<ClusterItem>>,
    pub cluster_type: Option<String>,
    pub description: String,
    pub family_friendly: bool,
    pub is_live: bool,
    pub is_source_both: bool,
    pub is_source_local: bool,
    pub language: String,
    pub meta_url: MetaUrl,
    pub page_age: Option<String>,
    pub profile: Option<Profile>,
    pub subtype: Option<String>,
    pub thumbnail: Option<Thumbnail>,
    pub title: String,
    pub url: String,
}

impl WebItem {
    /// This item as a plain search result: its title, URL and
    /// description, copied.
    pub fn to_search_result(&self) -> (r: SearchResult)
        ensures
            r.title@ == self.title@,
            r.url@ == self.url@,
            r.description@ == self.description@,
    {
        SearchResult {
            title: self.title.clone(),
            url: self.url.clone(),
            description: self.description.clone(),
        }
    }
}

/// One clustered sub-result of a web result.
#[derive(Debug, Clone)]
pub struct ClusterItem {
    pub description: String,
    pub family_friendly: bool,
    pub is_source_both: bool,
    pub is_source_local: bool,
    pub title: String,
    pub url: String,
}

/// The parsed-out parts of a result's URL.
#[derive(Debug, Clone)]
pub struct MetaUrl {
    pub favicon: String,
    pub hostname: String,
    pub netloc: String,
    pub path: String,
    pub scheme: String,
}

/// The site profile attached to a result.
#[derive(Debug, Clone)]
pub struct Profile {
    pub img: String,
    pub long_name: String,
    pub name: String,
    pub url: String,
}

/// A result's thumbnail image.
#[derive(Debug, Clone)]
pub struct Thumbnail {
    pub logo: Option<bool>,
    pub original: String,
    pub src: String,
}

} // verus!
