//! The provider-agnostic requests and responses of the gateway, the checks
//! that a request must pass, and the envelope in which results are shown.

use vstd::prelude::*;
use crate::errors::{GatewayError, GatewayErrorView, opt_string_view, validation_error};
use crate::text::{is_blank, is_blank_text, views};

verus! {

/// The kind of search.
#[derive(Debug, Clone, Copy, PartialEq, Eq, Structural)]
pub enum SearchTopic {
    General,
    News,
}

pub open spec fn topic_text(t: SearchTopic) -> Seq<char> {
    match t {
        SearchTopic::General => "general"@,
        SearchTopic::News => "news"@,
    }
}

impl SearchTopic {
    /// The topic's name on the wire.
    pub fn as_str(self) -> (s: &'static str)
        ensures
            s@ == topic_text(self),
    {
        match self {
            SearchTopic::General => "general",
            SearchTopic::News => "news",
        }
    }
}

/// How thoroughly to search.
#[derive(Debug, Clone, Copy, PartialEq, Eq, Structural)]
pub enum SearchDepth {
    Basic,
    Advanced,
}

pub open spec fn depth_text(d: SearchDepth) -> Seq<char> {
    match d {
        SearchDepth::Basic => "basic"@,
        SearchDepth::Advanced => "advanced"@,
    }
}

impl SearchDepth {
    /// The depth's name on the wire.
    pub fn as_str(self) -> (s: &'static str)
        ensures
            s@ == depth_text(self),
    {
        match self {
            SearchDepth::Basic => "basic",
            SearchDepth::Advanced => "advanced",
        }
    }
}

/// How results are printed: as they are, or inside the JSON envelope.
#[derive(Debug, Clone, Copy, PartialEq, Eq, Structural)]
pub enum OutputMode {
    Human,
    Json,
}

/// A web search.
#[derive(Debug, Clone)]
pub struct SearchRequest {
    pub query: String,
    pub provider: Option<String>,
    pub topic: Option<SearchTopic>,
    pub max_results: Option<u32>,
    pub search_depth: Option<SearchDepth>,
    pub include_answer: Option<bool>,
    pub include_raw_content: Option<bool>,
    pub include_images: Option<bool>,
    pub days: Option<u32>,
    pub site_filter: Option<Vec<String>>,
    pub exclude_domains: Option<Vec<String>>,
    pub country: Option<String>,
    pub language: Option<String>,
    pub timeout_ms: Option<u64>,
}

/// The outcome of a request check: `None` for a valid request, or the
/// error that rejects it.
pub open spec fn check_result(r: Result<(), GatewayError>) -> Option<GatewayErrorView> {
    match r {
        Ok(()) => None,
        Err(e) => Some(e@),
    }
}

impl SearchRequest {
    /// Why the search would be rejected: a query of nothing but white space,
    /// or a limit of zero results.
    pub open spec fn rejection(self) -> Option<GatewayErrorView> {
        if is_blank(self.query@) {
            Some(validation_error("query must not be empty"@))
        } else if self.max_results == Some(0u32) {
            Some(validation_error("max_results must be greater than 0"@))
        } else {
            None
        }
    }

    /// Checks the search.
    pub fn validate(&self) -> (r: Result<(), GatewayError>)
        ensures
            check_result(r) == self.rejection(),
    {
        if is_blank_text(self.query.as_str()) {
            return Err(GatewayError::validation("query must not be empty"));
        }
        match self.max_results {
            Some(n) => {
                if n == 0 {
                    return Err(GatewayError::validation("max_results must be greater than 0"));
                }
            },
            None => {},
        }
        Ok(())
    }
}

/// The extraction of the contents of some pages.
#[derive(Debug, Clone)]
pub struct ExtractRequest {
    pub urls: Vec<String>,
    pub provider: Option<String>,
    pub include_images: Option<bool>,
    pub timeout_ms: Option<u64>,
}

impl ExtractRequest {
    /// Why the extraction would be rejected: no pages to extract.
    pub open spec fn rejection(self) -> Option<GatewayErrorView> {
        if self.urls@.len() == 0 {
            Some(validation_error("urls must not be empty"@))
        } else {
            None
        }
    }

    /// Checks the extraction.
    pub fn validate(&self) -> (r: Result<(), GatewayError>)
        ensures
            check_result(r) == self.rejection(),
    {
        if self.urls.len() == 0 {
            return Err(GatewayError::validation("urls must not be empty"));
        }
        Ok(())
    }
}

/// The crawl of a site from a starting page.
#[derive(Debug, Clone)]
pub struct CrawlRequest {
    pub url: String,
    pub provider: Option<String>,
    pub limit: Option<u32>,
    pub max_depth: Option<u32>,
    pub instructions: Option<String>,
    pub timeout_ms: Option<u64>,
}

impl CrawlRequest {
    /// Why the crawl would be rejected: a starting address of nothing but
    /// white space.
    pub open spec fn rejection(self) -> Option<GatewayErrorView> {
        if is_blank(self.url@) {
            Some(validation_error("url must not be empty"@))
        } else {
            None
        }
    }

    /// Checks the crawl.
    pub fn validate(&self) -> (r: Result<(), GatewayError>)
        ensures
            check_result(r) == self.rejection(),
    {
        if is_blank_text(self.url.as_str()) {
            return Err(GatewayError::validation("url must not be empty"));
        }
        Ok(())
    }
}

/// An image that a provider returned.
#[derive(Debug)]
pub struct ImageResult {
    pub url: String,
    pub description: Option<String>,
}

/// The address and description of an image.
pub open spec fn image_view(i: ImageResult) -> (Seq<char>, Option<Seq<char>>) {
    (i.url@, opt_string_view(i.description))
}

/// The address and description of each of `v`, in order.
pub open spec fn image_views(v: Seq<ImageResult>) -> Seq<(Seq<char>, Option<Seq<char>>)> {
    v.map_values(|i: ImageResult| image_view(i))
}

/// One result of a search. The score is kept as the text of the number
/// that the provider gave, so that no precision is lost on the way.
#[derive(Debug)]
pub struct SearchResultItem {
    pub title: String,
    pub url: String,
    pub snippet: String,
    pub content: Option<String>,
    pub score: Option<String>,
    pub published_at: Option<String>,
    pub source_provider: String,
}

/// The fields of a search result, as text.
pub open spec fn item_view(h: SearchResultItem) -> (
    Seq<char>,
    Seq<char>,
    Seq<char>,
    Option<Seq<char>>,
    Option<Seq<char>>,
    Option<Seq<char>>,
    Seq<char>,
) {
    (
        h.title@,
        h.url@,
        h.snippet@,
        opt_string_view(h.content),
        opt_string_view(h.score),
        opt_string_view(h.published_at),
        h.source_provider@,
    )
}

/// The fields of each of `v`, in order.
pub open spec fn item_views(v: Seq<SearchResultItem>) -> Seq<
    (Seq<char>, Seq<char>, Seq<char>, Option<Seq<char>>, Option<Seq<char>>, Option<Seq<char>>, Seq<char>),
> {
    v.map_values(|h: SearchResultItem| item_view(h))
}

/// The answer to a search.
#[derive(Debug)]
pub struct SearchResponse {
    pub provider_used: String,
    pub fallback_chain: Vec<String>,
    pub latency_ms: u128,
    pub warnings: Vec<String>,
    pub request_id: Option<String>,
    pub answer: Option<String>,
    pub follow_up_questions: Option<Vec<String>>,
    pub results: Vec<SearchResultItem>,
    pub images: Vec<ImageResult>,
}

/// The mathematical value of a [`SearchResponse`].
pub struct SearchResponseView {
    pub provider_used: Seq<char>,
    pub fallback_chain: Seq<Seq<char>>,
    pub latency_ms: u128,
    pub warnings: Seq<Seq<char>>,
    pub request_id: Option<Seq<char>>,
    pub answer: Option<Seq<char>>,
    pub follow_up_questions: Option<Seq<Seq<char>>>,
    pub results: Seq<
        (Seq<char>, Seq<char>, Seq<char>, Option<Seq<char>>, Option<Seq<char>>, Option<Seq<char>>, Seq<char>),
    >,
    pub images: Seq<(Seq<char>, Option<Seq<char>>)>,
}

impl View for SearchResponse {
    type V = SearchResponseView;

    open spec fn view(&self) -> SearchResponseView {
        SearchResponseView {
            provider_used: self.provider_used@,
            fallback_chain: views(self.fallback_chain@),
            latency_ms: self.latency_ms,
            warnings: views(self.warnings@),
            request_id: opt_string_view(self.request_id),
            answer: opt_string_view(self.answer),
            follow_up_questions: match self.follow_up_questions {
                Some(q) => Some(views(q@)),
                None => None,
            },
            results: item_views(self.results@),
            images: image_views(self.images@),
        }
    }
}

/// The contents of one page.
#[derive(Debug, Clone)]
pub struct ExtractedDocument {
    pub url: String,
    pub title: Option<String>,
    pub content: String,
    pub images: Vec<ImageResult>,
    pub source_provider: String,
}

/// The answer to an extraction.
#[derive(Debug, Clone)]
pub struct ExtractResponse {
    pub provider_used: String,
    pub fallback_chain: Vec<String>,
    pub latency_ms: u128,
    pub warnings: Vec<String>,
    pub documents: Vec<ExtractedDocument>,
}

/// One page found by a crawl.
#[derive(Debug, Clone)]
pub struct CrawledPage {
    pub url: String,
    pub title: Option<String>,
    pub summary: Option<String>,
    pub source_provider: String,
}

/// The answer to a crawl.
#[derive(Debug, Clone)]
pub struct CrawlResponse {
    pub provider_used: String,
    pub fallback_chain: Vec<String>,
    pub latency_ms: u128,
    pub warnings: Vec<String>,
    pub pages: Vec<CrawledPage>,
}

/// The envelope in which a result or an error is shown:
/// `{ "ok": ..., "data": ..., "error": ... }`.
#[derive(Debug, Clone)]
pub struct ToolEnvelope<T> {
    pub ok: bool,
    pub data: Option<T>,
    pub error: Option<GatewayError>,
}

impl<T> ToolEnvelope<T> {
    /// The envelope of a result.
    pub fn success(data: T) -> (env: Self)
        ensures
            env.ok,
            env.data == Some(data),
            env.error is None,
    {
        ToolEnvelope { ok: true, data: Some(data), error: None }
    }

    /// The envelope of an error.
    pub fn failure(error: GatewayError) -> (env: Self)
        ensures
            !env.ok,
            env.data is None,
            env.error == Some(error),
    {
        ToolEnvelope { ok: false, data: None, error: Some(error) }
    }
}


impl Clone for ImageResult {
    fn clone(&self) -> (c: Self)
        ensures
            c == *self,
    {
        ImageResult { url: self.url.clone(), description: self.description.clone() }
    }
}

impl Clone for SearchResultItem {
    fn clone(&self) -> (c: Self)
        ensures
            c == *self,
    {
        SearchResultItem {
            title: self.title.clone(),
            url: self.url.clone(),
            snippet: self.snippet.clone(),
            content: self.content.clone(),
            score: self.score.clone(),
            published_at: self.published_at.clone(),
            source_provider: self.source_provider.clone(),
        }
    }
}

/// A copy of each of `v`, equal to it.
fn copy_all<T: Clone>(v: &Vec<T>) -> (c: Vec<T>)
    requires
        forall|a: T, b: T| #[trigger] cloned(a, b) ==> a == b,
    ensures
        c@ == v@,
{
    let c = v.clone();
    assert forall|i: int| 0 <= i < c.len() implies c@[i] == v@[i] by {
        assert(cloned(v@[i], c@[i]));
    }
    assert(c@ =~= v@);
    c
}

impl Clone for SearchResponse {
    fn clone(&self) -> (c: Self)
        ensures
            c@ == self@,
    {
        SearchResponse {
            provider_used: self.provider_used.clone(),
            fallback_chain: copy_all(&self.fallback_chain),
            latency_ms: self.latency_ms,
            warnings: copy_all(&self.warnings),
            request_id: self.request_id.clone(),
            answer: self.answer.clone(),
            follow_up_questions: match &self.follow_up_questions {
                Some(q) => Some(copy_all(q)),
                None => None,
            },
            results: copy_all(&self.results),
            images: copy_all(&self.images),
        }
    }
}

} // verus!
