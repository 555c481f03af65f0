//! The rules of the Tavily-compatible provider: the bodies of its requests
//! with their defaults, the reading of its replies, the errors of a failed
//! exchange, the retry policy, and the mapping of its JSON answers to the
//! gateway's responses.
//!
//! The HTTP exchange itself is made by the caller, which hands over what it
//! got as an [`HttpReply`].

use vstd::prelude::*;
use crate::errors::{GatewayError, GatewayErrorView, opt_string_view, provider_error};
use crate::json::{
    JSON_DEPTH, decode_error, decode_json, decodes,
    JsonValue, as_number_text, as_text, get, get_or, json_array, json_get, json_get_or, member,
    json_number, json_str, strings_in, strings_of, text_or_empty,
};
use crate::models::{
    CrawlRequest, CrawlResponse, CrawledPage, ExtractRequest, ExtractResponse, ExtractedDocument,
    ImageResult, SearchDepth, SearchRequest, SearchResponse, SearchResultItem, SearchTopic, depth_text,
    image_view, image_views, item_view, topic_text,
};
use crate::config::AppConfig;
use crate::text::{concat_str, decimal, decimal_text, views};
use crate::http::{HttpReply, is_retryable_status, is_success_status};

verus! {

// ---------------------------------------------------------------------------
// Endpoints

/// `s` without the slashes at its end, as `trim_end_matches('/')` gives it.
pub open spec fn without_trailing_slashes(s: Seq<char>) -> Seq<char>
    decreases s.len(),
{
    if s.len() > 0 && s.last() == '/' {
        without_trailing_slashes(s.drop_last())
    } else {
        s
    }
}

/// The base address of the provider: the configured one without the slashes
/// at its end.
pub fn normalize_base_url(base_url: &str) -> (r: String)
    ensures
        r@ == without_trailing_slashes(base_url@),
{
    let cs = crate::text::chars_of(base_url);
    let mut n = cs.len();
    assert(cs@.subrange(0, n as int) =~= cs@);
    while n > 0 && cs[n - 1] == '/'
        invariant
            n <= cs.len(),
            without_trailing_slashes(cs@) == without_trailing_slashes(cs@.subrange(0, n as int)),
        decreases n,
    {
        assert(cs@.subrange(0, n as int).drop_last() =~= cs@.subrange(0, n - 1));
        n = n - 1;
    }
    let mut out: Vec<char> = Vec::new();
    let mut i: usize = 0;
    while i < n
        invariant
            i <= n <= cs.len(),
            out@ == cs@.subrange(0, i as int),
        decreases n - i,
    {
        assert(cs@.subrange(0, i + 1) =~= cs@.subrange(0, i as int).push(cs@[i as int]));
        out.push(cs[i]);
        i = i + 1;
    }
    crate::text::string_of_chars(&out)
}

/// The address of an endpoint: the base address followed by the path.
pub fn endpoint(base_url: &str, path: &str) -> (r: String)
    ensures
        r@ == base_url@ + path@,
{
    concat_str(base_url, path)
}

/// Where the Tavily provider sends its requests, and with which token.
#[derive(Debug, Clone)]
pub struct TavilySettings {
    pub base_url: String,
    pub api_key: Option<String>,
    pub search_path: String,
    pub extract_path: String,
    pub crawl_path: String,
}

impl TavilySettings {
    /// The settings that `config` gives: the base address without the
    /// slashes at its end, the configured paths, and the token of the
    /// configuration, or else `env_value`, the value of the environment
    /// variable that the configuration names.
    pub fn from_config(config: &AppConfig, env_value: Option<String>) -> (s: Self)
        ensures
            s.base_url@ == without_trailing_slashes(config.tavily.base_url@),
            s.api_key == (match config.tavily.api_key {
                Some(k) => Some(k),
                None => env_value,
            }),
            s.search_path == config.tavily.search_path,
            s.extract_path == config.tavily.extract_path,
            s.crawl_path == config.tavily.crawl_path,
    {
        TavilySettings {
            base_url: normalize_base_url(config.tavily.base_url.as_str()),
            api_key: config.tavily.resolve_api_key(env_value),
            search_path: config.tavily.search_path.clone(),
            extract_path: config.tavily.extract_path.clone(),
            crawl_path: config.tavily.crawl_path.clone(),
        }
    }

    /// The address of the endpoint at `path`.
    pub fn endpoint(&self, path: &str) -> (r: String)
        ensures
            r@ == self.base_url@ + path@,
    {
        endpoint(self.base_url.as_str(), path)
    }
}

// ---------------------------------------------------------------------------
// Request bodies

/// A JSON string.
fn json_text(s: &str) -> (v: JsonValue)
    ensures
        v matches JsonValue::Str(t) && t@ == s@,
{
    JsonValue::Str(s.to_owned())
}

/// A JSON number.
fn json_count(n: u64) -> (v: JsonValue)
    ensures
        v matches JsonValue::Number(t) && t@ == decimal(n as nat),
{
    JsonValue::Number(decimal_text(n))
}

fn json_opt_count(n: Option<u32>) -> (v: JsonValue)
    ensures
        match n {
            Some(k) => v matches JsonValue::Number(t) && t@ == decimal(k as nat),
            None => v is Null,
        },
{
    match n {
        Some(k) => json_count(k as u64),
        None => JsonValue::Null,
    }
}

fn json_opt_text(s: &Option<String>) -> (v: JsonValue)
    ensures
        match *s {
            Some(t) => v matches JsonValue::Str(u) && u@ == t@,
            None => v is Null,
        },
{
    match s {
        Some(t) => json_text(t.as_str()),
        None => JsonValue::Null,
    }
}

fn json_texts(v: &Vec<String>) -> (j: JsonValue)
    ensures
        j matches JsonValue::Array(items) && strings_in(items@) == views(v@) && items@.len() == v@.len(),
{
    let mut items: Vec<JsonValue> = Vec::new();
    let mut i: usize = 0;
    while i < v.len()
        invariant
            i <= v.len(),
            items@.len() == i,
            strings_in(items@) == views(v@.take(i as int)),
        decreases v.len() - i,
    {
        let ghost prev = items@;
        items.push(json_text(v[i].as_str()));
        assert(items@.drop_last() =~= prev);
        assert(views(v@.take(i + 1)) =~= views(v@.take(i as int)).push(v@[i as int]@));
        i = i + 1;
    }
    assert(v@.take(v.len() as int) =~= v@);
    JsonValue::Array(items)
}

fn json_opt_texts(v: &Option<Vec<String>>) -> (j: JsonValue)
    ensures
        match *v {
            Some(t) => j matches JsonValue::Array(items) && strings_in(items@) == views(t@)
                && items@.len() == t@.len(),
            None => j is Null,
        },
{
    match v {
        Some(t) => json_texts(t),
        None => JsonValue::Null,
    }
}

/// A JSON object from its keys and values.
fn object(keys: Vec<&str>, values: Vec<JsonValue>) -> (v: JsonValue)
    ensures
        v matches JsonValue::Object(k, vals) && k@.map_values(|s: String| s@) == keys@.map_values(
            |s: &str| s@,
        ) && vals@ == values@,
{
    let mut ks: Vec<String> = Vec::new();
    let mut i: usize = 0;
    while i < keys.len()
        invariant
            i <= keys.len(),
            ks@.map_values(|s: String| s@) == keys@.take(i as int).map_values(|s: &str| s@),
        decreases keys.len() - i,
    {
        ks.push(keys[i].to_owned());
        assert(keys@.take(i + 1).map_values(|s: &str| s@) =~= keys@.take(i as int).map_values(
            |s: &str| s@,
        ).push(keys@[i as int]@));
        assert(ks@.map_values(|s: String| s@) =~= keys@.take(i + 1).map_values(|s: &str| s@));
        i = i + 1;
    }
    assert(keys@.take(keys.len() as int) =~= keys@);
    JsonValue::Object(ks, values)
}

/// The keys of the body of a search request, in order.
pub open spec fn search_payload_keys() -> Seq<Seq<char>> {
    seq![
        "query"@,
        "topic"@,
        "search_depth"@,
        "max_results"@,
        "include_answer"@,
        "include_raw_content"@,
        "include_images"@,
        "days"@,
        "include_domains"@,
        "exclude_domains"@,
        "country"@,
        "language"@,
    ]
}

/// Whether `v` is a JSON string with the text `t`.
pub open spec fn is_text(v: JsonValue, t: Seq<char>) -> bool {
    v matches JsonValue::Str(s) && s@ == t
}

/// Whether `v` is a JSON number written as the decimal `n`.
pub open spec fn is_count(v: JsonValue, n: nat) -> bool {
    v matches JsonValue::Number(s) && s@ == decimal(n)
}

/// Whether `v` is the JSON form of an optional text.
pub open spec fn is_opt_text(v: JsonValue, t: Option<String>) -> bool {
    match t {
        Some(s) => is_text(v, s@),
        None => v is Null,
    }
}

/// Whether `v` is the JSON form of an optional list of texts.
pub open spec fn is_opt_texts(v: JsonValue, t: Option<Vec<String>>) -> bool {
    match t {
        Some(list) => v matches JsonValue::Array(items) && strings_in(items@) == views(list@)
            && items@.len() == list@.len(),
        None => v is Null,
    }
}

/// The body of a search request: the query and the request's options, with
/// the defaults the provider uses for those left out (topic "general",
/// depth "basic", five results, an answer, no raw content, no images).
pub open spec fn is_search_payload(v: JsonValue, request: SearchRequest) -> bool {
    v matches JsonValue::Object(keys, values) && {
        &&& keys@.map_values(|s: String| s@) == search_payload_keys()
        &&& values@.len() == 12
        &&& is_text(values@[0], request.query@)
        &&& is_text(values@[1], topic_text(match request.topic {
            Some(t) => t,
            None => SearchTopic::General,
        }))
        &&& is_text(values@[2], depth_text(match request.search_depth {
            Some(d) => d,
            None => SearchDepth::Basic,
        }))
        &&& is_count(values@[3], match request.max_results {
            Some(m) => m as nat,
            None => 5,
        })
        &&& values@[4] == JsonValue::Bool(match request.include_answer {
            Some(b) => b,
            None => true,
        })
        &&& values@[5] == JsonValue::Bool(request.include_raw_content == Some(true))
        &&& values@[6] == JsonValue::Bool(request.include_images == Some(true))
        &&& match request.days {
            Some(d) => is_count(values@[7], d as nat),
            None => values@[7] is Null,
        }
        &&& is_opt_texts(values@[8], request.site_filter)
        &&& is_opt_texts(values@[9], request.exclude_domains)
        &&& is_opt_text(values@[10], request.country)
        &&& is_opt_text(values@[11], request.language)
    }
}

/// The body of a search request.
pub fn search_payload(request: &SearchRequest) -> (v: JsonValue)
    ensures
        is_search_payload(v, *request),
{
    let topic = match request.topic {
        Some(t) => t,
        None => SearchTopic::General,
    };
    let depth = match request.search_depth {
        Some(d) => d,
        None => SearchDepth::Basic,
    };
    let max_results = match request.max_results {
        Some(m) => m,
        None => 5,
    };
    let answer = match request.include_answer {
        Some(b) => b,
        None => true,
    };
    let raw = match request.include_raw_content {
        Some(b) => b,
        None => false,
    };
    let images = match request.include_images {
        Some(b) => b,
        None => false,
    };
    let mut keys: Vec<&str> = Vec::new();
    keys.push("query");
    keys.push("topic");
    keys.push("search_depth");
    keys.push("max_results");
    keys.push("include_answer");
    keys.push("include_raw_content");
    keys.push("include_images");
    keys.push("days");
    keys.push("include_domains");
    keys.push("exclude_domains");
    keys.push("country");
    keys.push("language");
    let mut values: Vec<JsonValue> = Vec::new();
    values.push(json_text(request.query.as_str()));
    values.push(json_text(topic.as_str()));
    values.push(json_text(depth.as_str()));
    values.push(json_count(max_results as u64));
    values.push(JsonValue::Bool(answer));
    values.push(JsonValue::Bool(raw));
    values.push(JsonValue::Bool(images));
    values.push(json_opt_count(request.days));
    values.push(json_opt_texts(&request.site_filter));
    values.push(json_opt_texts(&request.exclude_domains));
    values.push(json_opt_text(&request.country));
    values.push(json_opt_text(&request.language));
    assert(keys@.map_values(|s: &str| s@) =~= search_payload_keys());
    object(keys, values)
}

/// The body of an extraction request: the addresses, and whether images are
/// wanted (not unless asked for).
pub open spec fn is_extract_payload(v: JsonValue, request: ExtractRequest) -> bool {
    v matches JsonValue::Object(keys, values) && {
        &&& keys@.map_values(|s: String| s@) == seq!["urls"@, "include_images"@]
        &&& values@.len() == 2
        &&& is_opt_texts(values@[0], Some(request.urls))
        &&& values@[1] == JsonValue::Bool(request.include_images == Some(true))
    }
}

/// The body of an extraction request.
pub fn extract_payload(request: &ExtractRequest) -> (v: JsonValue)
    ensures
        is_extract_payload(v, *request),
{
    let images = match request.include_images {
        Some(b) => b,
        None => false,
    };
    let mut keys: Vec<&str> = Vec::new();
    keys.push("urls");
    keys.push("include_images");
    let mut values: Vec<JsonValue> = Vec::new();
    values.push(json_texts(&request.urls));
    values.push(JsonValue::Bool(images));
    assert(keys@.map_values(|s: &str| s@) =~= seq!["urls"@, "include_images"@]);
    object(keys, values)
}

/// The body of a crawl request: the starting address, a limit of ten pages
/// and a depth of two unless asked otherwise, and the instructions.
pub open spec fn is_crawl_payload(v: JsonValue, request: CrawlRequest) -> bool {
    v matches JsonValue::Object(keys, values) && {
        &&& keys@.map_values(|s: String| s@) == seq!["url"@, "limit"@, "max_depth"@, "instructions"@]
        &&& values@.len() == 4
        &&& is_text(values@[0], request.url@)
        &&& is_count(values@[1], match request.limit {
            Some(l) => l as nat,
            None => 10,
        })
        &&& is_count(values@[2], match request.max_depth {
            Some(d) => d as nat,
            None => 2,
        })
        &&& is_opt_text(values@[3], request.instructions)
    }
}

/// The body of a crawl request.
pub fn crawl_payload(request: &CrawlRequest) -> (v: JsonValue)
    ensures
        is_crawl_payload(v, *request),
{
    let limit = match request.limit {
        Some(l) => l,
        None => 10,
    };
    let depth = match request.max_depth {
        Some(d) => d,
        None => 2,
    };
    let mut keys: Vec<&str> = Vec::new();
    keys.push("url");
    keys.push("limit");
    keys.push("max_depth");
    keys.push("instructions");
    let mut values: Vec<JsonValue> = Vec::new();
    values.push(json_text(request.url.as_str()));
    values.push(json_count(limit as u64));
    values.push(json_count(depth as u64));
    values.push(json_opt_text(&request.instructions));
    assert(keys@.map_values(|s: &str| s@) =~= seq!["url"@, "limit"@, "max_depth"@, "instructions"@]);
    object(keys, values)
}

/// In an object, the member at place `i` is what a lookup of its key
/// gives, when no earlier member has that key.
proof fn lemma_member_at(keys: Seq<String>, values: Seq<JsonValue>, i: int)
    requires
        0 <= i < keys.len(),
        keys.len() == values.len(),
        forall|j: int| 0 <= j < i ==> (#[trigger] keys[j])@ != keys[i]@,
    ensures
        member(keys, values, keys[i]@) == Some(values[i]),
    decreases i,
{
    if i > 0 {
        let k2 = keys.drop_first();
        let v2 = values.drop_first();
        assert(k2[i - 1] == keys[i]);
        assert(v2[i - 1] == values[i]);
        assert forall|j: int| 0 <= j < i - 1 implies (#[trigger] k2[j])@ != k2[i - 1]@ by {
            assert(k2[j] == keys[j + 1]);
        }
        lemma_member_at(k2, v2, i - 1);
        assert(keys[0]@ != keys[i]@);
    }
}

/// The members of a search request's body, by key: the query under
/// `query`; the topic, depth and number of results asked for (topic
/// "general", depth "basic" and five results when not asked) under `topic`,
/// `search_depth` and `max_results`; the answer flag (on unless turned
/// off), and the raw-content and image flags (off unless turned on); the
/// days, when given, under `days`; the sites and excluded domains under
/// `include_domains` and `exclude_domains`; and the country and language.
pub proof fn lemma_search_payload_members(v: JsonValue, request: SearchRequest)
    requires
        is_search_payload(v, request),
    ensures
        json_get(v, "query"@) matches Some(x) && is_text(x, request.query@),
        json_get(v, "topic"@) matches Some(x) && is_text(x, topic_text(match request.topic {
            Some(t) => t,
            None => SearchTopic::General,
        })),
        json_get(v, "search_depth"@) matches Some(x) && is_text(x, depth_text(match request.search_depth {
            Some(d) => d,
            None => SearchDepth::Basic,
        })),
        json_get(v, "max_results"@) matches Some(x) && is_count(x, match request.max_results {
            Some(m) => m as nat,
            None => 5,
        }),
        json_get(v, "include_answer"@) == Some(JsonValue::Bool(request.include_answer != Some(false))),
        json_get(v, "include_raw_content"@) == Some(JsonValue::Bool(request.include_raw_content == Some(true))),
        json_get(v, "include_images"@) == Some(JsonValue::Bool(request.include_images == Some(true))),
        json_get(v, "days"@) matches Some(x) && match request.days {
            Some(d) => is_count(x, d as nat),
            None => x is Null,
        },
        json_get(v, "include_domains"@) matches Some(x) && is_opt_texts(x, request.site_filter),
        json_get(v, "exclude_domains"@) matches Some(x) && is_opt_texts(x, request.exclude_domains),
        json_get(v, "country"@) matches Some(x) && is_opt_text(x, request.country),
        json_get(v, "language"@) matches Some(x) && is_opt_text(x, request.language),
{
    reveal_strlit("query");
    reveal_strlit("topic");
    reveal_strlit("search_depth");
    reveal_strlit("max_results");
    reveal_strlit("include_answer");
    reveal_strlit("include_raw_content");
    reveal_strlit("include_images");
    reveal_strlit("days");
    reveal_strlit("include_domains");
    reveal_strlit("exclude_domains");
    reveal_strlit("country");
    reveal_strlit("language");
    let (keys, values) = match v {
        JsonValue::Object(k, vs) => (k@, vs@),
        _ => (Seq::empty(), Seq::empty()),
    };
    let names = keys.map_values(|s: String| s@);
    assert(names == search_payload_keys());
    assert(keys.len() == 12 && values.len() == 12);
    assert forall|i: int| 0 <= i < 12 implies #[trigger] keys[i]@ == search_payload_keys()[i] by {
        assert(names[i] == keys[i]@);
    }
    lemma_member_at(keys, values, 0);
    assert forall|j: int| 0 <= j < 1 implies (#[trigger] keys[j])@ != keys[1]@ by {
        assert(j == 0);
        assert(keys[j]@ == search_payload_keys()[j] && keys[1]@ == search_payload_keys()[1]);
        if j == 0 {
            assert("query"@[0] != "topic"@[0]);
        }
    }
    lemma_member_at(keys, values, 1);
    assert forall|j: int| 0 <= j < 2 implies (#[trigger] keys[j])@ != keys[2]@ by {
        assert(j == 0 || j == 1);
        assert(keys[j]@ == search_payload_keys()[j] && keys[2]@ == search_payload_keys()[2]);
        if j == 0 {
            assert("query"@.len() != "search_depth"@.len());
        }
        if j == 1 {
            assert("topic"@.len() != "search_depth"@.len());
        }
    }
    lemma_member_at(keys, values, 2);
    assert forall|j: int| 0 <= j < 3 implies (#[trigger] keys[j])@ != keys[3]@ by {
        assert(j == 0 || j == 1 || j == 2);
        assert(keys[j]@ == search_payload_keys()[j] && keys[3]@ == search_payload_keys()[3]);
        if j == 0 {
            assert("query"@.len() != "max_results"@.len());
        }
        if j == 1 {
            assert("topic"@.len() != "max_results"@.len());
        }
        if j == 2 {
            assert("search_depth"@.len() != "max_results"@.len());
        }
    }
    lemma_member_at(keys, values, 3);
    assert forall|j: int| 0 <= j < 4 implies (#[trigger] keys[j])@ != keys[4]@ by {
        assert(j == 0 || j == 1 || j == 2 || j == 3);
        assert(keys[j]@ == search_payload_keys()[j] && keys[4]@ == search_payload_keys()[4]);
        if j == 0 {
            assert("query"@.len() != "include_answer"@.len());
        }
        if j == 1 {
            assert("topic"@.len() != "include_answer"@.len());
        }
        if j == 2 {
            assert("search_depth"@.len() != "include_answer"@.len());
        }
        if j == 3 {
            assert("max_results"@.len() != "include_answer"@.len());
        }
    }
    lemma_member_at(keys, values, 4);
    assert forall|j: int| 0 <= j < 5 implies (#[trigger] keys[j])@ != keys[5]@ by {
        assert(j == 0 || j == 1 || j == 2 || j == 3 || j == 4);
        assert(keys[j]@ == search_payload_keys()[j] && keys[5]@ == search_payload_keys()[5]);
        if j == 0 {
            assert("query"@.len() != "include_raw_content"@.len());
        }
        if j == 1 {
            assert("topic"@.len() != "include_raw_content"@.len());
        }
        if j == 2 {
            assert("search_depth"@.len() != "include_raw_content"@.len());
        }
        if j == 3 {
            assert("max_results"@.len() != "include_raw_content"@.len());
        }
        if j == 4 {
            assert("include_answer"@.len() != "include_raw_content"@.len());
        }
    }
    lemma_member_at(keys, values, 5);
    assert forall|j: int| 0 <= j < 6 implies (#[trigger] keys[j])@ != keys[6]@ by {
        assert(j == 0 || j == 1 || j == 2 || j == 3 || j == 4 || j == 5);
        assert(keys[j]@ == search_payload_keys()[j] && keys[6]@ == search_payload_keys()[6]);
        if j == 0 {
            assert("query"@.len() != "include_images"@.len());
        }
        if j == 1 {
            assert("topic"@.len() != "include_images"@.len());
        }
        if j == 2 {
            assert("search_depth"@.len() != "include_images"@.len());
        }
        if j == 3 {
            assert("max_results"@.len() != "include_images"@.len());
        }
        if j == 4 {
            assert("include_answer"@[8] != "include_images"@[8]);
        }
        if j == 5 {
            assert("include_raw_content"@.len() != "include_images"@.len());
        }
    }
    lemma_member_at(keys, values, 6);
    assert forall|j: int| 0 <= j < 7 implies (#[trigger] keys[j])@ != keys[7]@ by {
        assert(j == 0 || j == 1 || j == 2 || j == 3 || j == 4 || j == 5 || j == 6);
        assert(keys[j]@ == search_payload_keys()[j] && keys[7]@ == search_payload_keys()[7]);
        if j == 0 {
            assert("query"@.len() != "days"@.len());
        }
        if j == 1 {
            assert("topic"@.len() != "days"@.len());
        }
        if j == 2 {
            assert("search_depth"@.len() != "days"@.len());
        }
        if j == 3 {
            assert("max_results"@.len() != "days"@.len());
        }
        if j == 4 {
            assert("include_answer"@.len() != "days"@.len());
        }
        if j == 5 {
            assert("include_raw_content"@.len() != "days"@.len());
        }
        if j == 6 {
            assert("include_images"@.len() != "days"@.len());
        }
    }
    lemma_member_at(keys, values, 7);
    assert forall|j: int| 0 <= j < 8 implies (#[trigger] keys[j])@ != keys[8]@ by {
        assert(j == 0 || j == 1 || j == 2 || j == 3 || j == 4 || j == 5 || j == 6 || j == 7);
        assert(keys[j]@ == search_payload_keys()[j] && keys[8]@ == search_payload_keys()[8]);
        if j == 0 {
            assert("query"@.len() != "include_domains"@.len());
        }
        if j == 1 {
            assert("topic"@.len() != "include_domains"@.len());
        }
        if j == 2 {
            assert("search_depth"@.len() != "include_domains"@.len());
        }
        if j == 3 {
            assert("max_results"@.len() != "include_domains"@.len());
        }
        if j == 4 {
            assert("include_answer"@.len() != "include_domains"@.len());
        }
        if j == 5 {
            assert("include_raw_content"@.len() != "include_domains"@.len());
        }
        if j == 6 {
            assert("include_images"@.len() != "include_domains"@.len());
        }
        if j == 7 {
            assert("days"@.len() != "include_domains"@.len());
        }
    }
    lemma_member_at(keys, values, 8);
    assert forall|j: int| 0 <= j < 9 implies (#[trigger] keys[j])@ != keys[9]@ by {
        assert(j == 0 || j == 1 || j == 2 || j == 3 || j == 4 || j == 5 || j == 6 || j == 7 || j == 8);
        assert(keys[j]@ == search_payload_keys()[j] && keys[9]@ == search_payload_keys()[9]);
        if j == 0 {
            assert("query"@.len() != "exclude_domains"@.len());
        }
        if j == 1 {
            assert("topic"@.len() != "exclude_domains"@.len());
        }
        if j == 2 {
            assert("search_depth"@.len() != "exclude_domains"@.len());
        }
        if j == 3 {
            assert("max_results"@.len() != "exclude_domains"@.len());
        }
        if j == 4 {
            assert("include_answer"@.len() != "exclude_domains"@.len());
        }
        if j == 5 {
            assert("include_raw_content"@.len() != "exclude_domains"@.len());
        }
        if j == 6 {
            assert("include_images"@.len() != "exclude_domains"@.len());
        }
        if j == 7 {
            assert("days"@.len() != "exclude_domains"@.len());
        }
        if j == 8 {
            assert("include_domains"@[0] != "exclude_domains"@[0]);
        }
    }
    lemma_member_at(keys, values, 9);
    assert forall|j: int| 0 <= j < 10 implies (#[trigger] keys[j])@ != keys[10]@ by {
        assert(j == 0 || j == 1 || j == 2 || j == 3 || j == 4 || j == 5 || j == 6 || j == 7 || j == 8 || j == 9);
        assert(keys[j]@ == search_payload_keys()[j] && keys[10]@ == search_payload_keys()[10]);
        if j == 0 {
            assert("query"@.len() != "country"@.len());
        }
        if j == 1 {
            assert("topic"@.len() != "country"@.len());
        }
        if j == 2 {
            assert("search_depth"@.len() != "country"@.len());
        }
        if j == 3 {
            assert("max_results"@.len() != "country"@.len());
        }
        if j == 4 {
            assert("include_answer"@.len() != "country"@.len());
        }
        if j == 5 {
            assert("include_raw_content"@.len() != "country"@.len());
        }
        if j == 6 {
            assert("include_images"@.len() != "country"@.len());
        }
        if j == 7 {
            assert("days"@.len() != "country"@.len());
        }
        if j == 8 {
            assert("include_domains"@.len() != "country"@.len());
        }
        if j == 9 {
            assert("exclude_domains"@.len() != "country"@.len());
        }
    }
    lemma_member_at(keys, values, 10);
    assert forall|j: int| 0 <= j < 11 implies (#[trigger] keys[j])@ != keys[11]@ by {
        assert(j == 0 || j == 1 || j == 2 || j == 3 || j == 4 || j == 5 || j == 6 || j == 7 || j == 8 || j == 9 || j == 10);
        assert(keys[j]@ == search_payload_keys()[j] && keys[11]@ == search_payload_keys()[11]);
        if j == 0 {
            assert("query"@.len() != "language"@.len());
        }
        if j == 1 {
            assert("topic"@.len() != "language"@.len());
        }
        if j == 2 {
            assert("search_depth"@.len() != "language"@.len());
        }
        if j == 3 {
            assert("max_results"@.len() != "language"@.len());
        }
        if j == 4 {
            assert("include_answer"@.len() != "language"@.len());
        }
        if j == 5 {
            assert("include_raw_content"@.len() != "language"@.len());
        }
        if j == 6 {
            assert("include_images"@.len() != "language"@.len());
        }
        if j == 7 {
            assert("days"@.len() != "language"@.len());
        }
        if j == 8 {
            assert("include_domains"@.len() != "language"@.len());
        }
        if j == 9 {
            assert("exclude_domains"@.len() != "language"@.len());
        }
        if j == 10 {
            assert("country"@.len() != "language"@.len());
        }
    }
    lemma_member_at(keys, values, 11);
}

/// The members of an extraction request's body, by key: the addresses
/// under `urls`, and under `include_images` whether images were asked for.
pub proof fn lemma_extract_payload_members(v: JsonValue, request: ExtractRequest)
    requires
        is_extract_payload(v, request),
    ensures
        json_get(v, "urls"@) matches Some(x) && is_opt_texts(x, Some(request.urls)),
        json_get(v, "include_images"@) == Some(JsonValue::Bool(request.include_images == Some(true))),
{
    reveal_strlit("urls");
    reveal_strlit("include_images");
    let (keys, values) = match v {
        JsonValue::Object(k, vs) => (k@, vs@),
        _ => (Seq::empty(), Seq::empty()),
    };
    let names = keys.map_values(|s: String| s@);
    assert(names == seq!["urls"@, "include_images"@]);
    assert(names[0] == keys[0]@ && names[1] == keys[1]@);
    assert("urls"@.len() != "include_images"@.len());
    assert forall|j: int| 0 <= j < 1 implies (#[trigger] keys[j])@ != keys[1]@ by {
        assert(j == 0);
    }
    lemma_member_at(keys, values, 0);
    lemma_member_at(keys, values, 1);
}

/// The members of a crawl request's body, by key: the starting address
/// under `url`, the page limit (ten when not asked) under `limit`, the depth
/// (two when not asked) under `max_depth`, and the instructions under
/// `instructions`.
pub proof fn lemma_crawl_payload_members(v: JsonValue, request: CrawlRequest)
    requires
        is_crawl_payload(v, request),
    ensures
        json_get(v, "url"@) matches Some(x) && is_text(x, request.url@),
        json_get(v, "limit"@) matches Some(x) && is_count(x, match request.limit {
            Some(l) => l as nat,
            None => 10,
        }),
        json_get(v, "max_depth"@) matches Some(x) && is_count(x, match request.max_depth {
            Some(d) => d as nat,
            None => 2,
        }),
        json_get(v, "instructions"@) matches Some(x) && is_opt_text(x, request.instructions),
{
    reveal_strlit("url");
    reveal_strlit("limit");
    reveal_strlit("max_depth");
    reveal_strlit("instructions");
    let (keys, values) = match v {
        JsonValue::Object(k, vs) => (k@, vs@),
        _ => (Seq::empty(), Seq::empty()),
    };
    let names = keys.map_values(|s: String| s@);
    assert(names == seq!["url"@, "limit"@, "max_depth"@, "instructions"@]);
    assert(names[0] == keys[0]@ && names[1] == keys[1]@ && names[2] == keys[2]@ && names[3] == keys[3]@);
    assert("url"@.len() == 3 && "limit"@.len() == 5 && "max_depth"@.len() == 9 && "instructions"@.len() == 12);
    assert forall|j: int| 0 <= j < 1 implies (#[trigger] keys[j])@ != keys[1]@ by {
        assert(j == 0);
    }
    assert forall|j: int| 0 <= j < 2 implies (#[trigger] keys[j])@ != keys[2]@ by {
        assert(j == 0 || j == 1);
    }
    assert forall|j: int| 0 <= j < 3 implies (#[trigger] keys[j])@ != keys[3]@ by {
        assert(j == 0 || j == 1 || j == 2);
    }
    lemma_member_at(keys, values, 0);
    lemma_member_at(keys, values, 1);
    lemma_member_at(keys, values, 2);
    lemma_member_at(keys, values, 3);
}

// ---------------------------------------------------------------------------
// Replies and retries

/// The body of a reply that `operation` got from Tavily, or the error of
/// the exchange: a failure to send or to read is retryable, and so is a
/// failed status that `is_retryable_status` admits.
pub open spec fn tavily_reply_outcome(operation: Seq<char>, reply: HttpReply) -> Result<Seq<char>, GatewayErrorView> {
    match reply {
        HttpReply::SendFailed(detail) => Err(
            provider_error(
                "tavily"@,
                operation + "_transport_error"@,
                operation + " request failed: "@ + detail@,
                true,
            ),
        ),
        HttpReply::ReadFailed(detail) => Err(
            provider_error(
                "tavily"@,
                operation + "_read_error"@,
                "failed to read "@ + operation + " response: "@ + detail@,
                true,
            ),
        ),
        HttpReply::Received { status, status_text, body } => if is_success_status(status) {
            Ok(body@)
        } else {
            Err(
                provider_error(
                    "tavily"@,
                    operation + "_http_error"@,
                    operation + " request returned "@ + status_text@ + ": "@ + body@,
                    is_retryable_status(status),
                ),
            )
        },
    }
}

pub open spec fn text_result_view(r: Result<String, GatewayError>) -> Result<Seq<char>, GatewayErrorView> {
    match r {
        Ok(s) => Ok(s@),
        Err(e) => Err(e@),
    }
}

fn join3(a: &str, b: &str, c: &str) -> (s: String)
    ensures
        s@ == a@ + b@ + c@,
{
    let ab = concat_str(a, b);
    concat_str(ab.as_str(), c)
}

/// The body of a reply, or the error of the exchange.
pub fn tavily_reply(operation: &str, reply: HttpReply) -> (r: Result<String, GatewayError>)
    ensures
        text_result_view(r) == tavily_reply_outcome(operation@, reply),
{
    match reply {
        HttpReply::SendFailed(detail) => {
            let code = concat_str(operation, "_transport_error");
            let message = join3(operation, " request failed: ", detail.as_str());
            Err(GatewayError::provider("tavily", code.as_str(), message.as_str(), true))
        },
        HttpReply::ReadFailed(detail) => {
            let code = concat_str(operation, "_read_error");
            let head = join3("failed to read ", operation, " response: ");
            let message = concat_str(head.as_str(), detail.as_str());
            Err(GatewayError::provider("tavily", code.as_str(), message.as_str(), true))
        },
        HttpReply::Received { status, status_text, body } => {
            if 200 <= status && status <= 299 {
                Ok(body)
            } else {
                let code = concat_str(operation, "_http_error");
                let head = join3(operation, " request returned ", status_text.as_str());
                let message = join3(head.as_str(), ": ", body.as_str());
                let retryable = (500 <= status && status <= 599) || status == 429;
                Err(GatewayError::provider("tavily", code.as_str(), message.as_str(), retryable))
            }
        },
    }
}

/// The error for a reply body that is not JSON; it is not retried.
pub fn tavily_decode_error(operation: &str, detail: &str) -> (e: GatewayError)
    ensures
        e@ == provider_error(
            "tavily"@,
            operation@ + "_decode_error"@,
            "failed to decode "@ + operation@ + " response: "@ + detail@,
            false,
        ),
{
    let code = concat_str(operation, "_decode_error");
    let head = join3("failed to decode ", operation, " response: ");
    let message = concat_str(head.as_str(), detail);
    GatewayError::provider("tavily", code.as_str(), message.as_str(), false)
}

/// The number of attempts of one request.
pub const MAX_RETRY_ATTEMPTS: usize = 3;

/// The pause before the second attempt, in milliseconds; the pause grows by
/// as much before each further attempt.
pub const INITIAL_BACKOFF_MS: u64 = 200;

/// What follows a failed attempt.
#[derive(Debug)]
pub enum RetryStep {
    /// Wait this many milliseconds, then make the next attempt.
    Retry(u64),
    /// Give up with this error.
    GiveUp(GatewayError),
}

/// What follows the failure of attempt number `attempt` (counting from one)
/// with `error`: a retryable error before the last attempt is retried after
/// a pause that grows with each attempt; otherwise the error is returned,
/// and if this was not the first attempt, its message tells how many there
/// were.
pub open spec fn retry_outcome(attempt: nat, error: GatewayErrorView) -> Result<u64, GatewayErrorView> {
    if error.retryable && attempt < MAX_RETRY_ATTEMPTS {
        Ok((INITIAL_BACKOFF_MS * attempt) as u64)
    } else if attempt > 1 {
        Err(
            GatewayErrorView {
                message: error.message + " after "@ + decimal(attempt) + " attempts"@,
                ..error
            },
        )
    } else {
        Err(error)
    }
}

pub open spec fn retry_step_view(s: RetryStep) -> Result<u64, GatewayErrorView> {
    match s {
        RetryStep::Retry(ms) => Ok(ms),
        RetryStep::GiveUp(e) => Err(e@),
    }
}

/// What follows the failure of attempt number `attempt`.
pub fn retry_step(attempt: usize, error: GatewayError) -> (s: RetryStep)
    requires
        1 <= attempt <= MAX_RETRY_ATTEMPTS,
    ensures
        retry_step_view(s) == retry_outcome(attempt as nat, error@),
{
    if error.retryable && attempt < MAX_RETRY_ATTEMPTS {
        return RetryStep::Retry(INITIAL_BACKOFF_MS * attempt as u64);
    }
    if attempt > 1 {
        let count = decimal_text(attempt as u64);
        let head = join3(error.message.as_str(), " after ", count.as_str());
        let message = concat_str(head.as_str(), " attempts");
        let mut e = error;
        e.message = message;
        return RetryStep::GiveUp(e);
    }
    RetryStep::GiveUp(error)
}

// ---------------------------------------------------------------------------
// Answers


/// Images from their addresses, without descriptions.
pub open spec fn images_from(urls: Seq<Seq<char>>) -> Seq<(Seq<char>, Option<Seq<char>>)> {
    urls.map_values(|u: Seq<char>| (u, None::<Seq<char>>))
}

/// The images listed under `key`: the strings of the array there.
pub open spec fn listed_images(v: JsonValue, key: Seq<char>) -> Seq<(Seq<char>, Option<Seq<char>>)> {
    match json_array(json_get(v, key)) {
        Some(items) => images_from(strings_in(items)),
        None => Seq::empty(),
    }
}

fn images_under(v: &JsonValue, key: &str) -> (r: Vec<ImageResult>)
    ensures
        image_views(r@) == listed_images(*v, key@),
{
    let mut r: Vec<ImageResult> = Vec::new();
    match get(v, key) {
        Some(JsonValue::Array(items)) => {
            let urls = strings_of(items);
            let ghost target = images_from(strings_in(items@));
            let mut i: usize = 0;
            while i < urls.len()
                invariant
                    i <= urls.len(),
                    urls@.map_values(|s: String| s@) == strings_in(items@),
                    target == images_from(strings_in(items@)),
                    image_views(r@) == target.take(i as int),
                decreases urls.len() - i,
            {
                let ghost prev = r@;
                let img = ImageResult { url: urls[i].clone(), description: None };
                assert(urls@.map_values(|s: String| s@)[i as int] == urls@[i as int]@);
                assert(image_view(img) == target[i as int]);
                r.push(img);
                assert(image_views(r@) =~= image_views(prev).push(image_view(img)));
                assert(target.take(i + 1) =~= target.take(i as int).push(target[i as int]));
                assert(image_views(r@) =~= target.take(i + 1));
                i = i + 1;
            }
            assert(target.take(urls.len() as int) =~= target);
        },
        _ => {
            assert(image_views(r@) =~= Seq::empty());
        },
    }
    r
}

/// A document's mathematical value: address, title, content, images and
/// the provider it came from.
pub open spec fn document_view(d: ExtractedDocument) -> (Seq<char>, Option<Seq<char>>, Seq<char>, Seq<(Seq<char>, Option<Seq<char>>)>, Seq<char>) {
    (d.url@, opt_string_view(d.title), d.content@, image_views(d.images@), d.source_provider@)
}

/// The document that one item of an extraction answer gives: its address,
/// its title, its raw content (or else its content), and its images.
pub open spec fn document_of(item: JsonValue, provider: Seq<char>) -> (Seq<char>, Option<Seq<char>>, Seq<char>, Seq<(Seq<char>, Option<Seq<char>>)>, Seq<char>) {
    (
        text_or_empty(json_str(json_get(item, "url"@))),
        json_str(json_get(item, "title"@)),
        text_or_empty(json_str(json_get_or(item, "raw_content"@, "content"@))),
        listed_images(item, "images"@),
        provider,
    )
}

/// The items of an answer: the array under `results`, if there is one.
pub open spec fn answer_items(v: JsonValue) -> Seq<JsonValue> {
    match json_array(json_get(v, "results"@)) {
        Some(items) => items,
        None => Seq::empty(),
    }
}

fn text_or_default(t: Option<String>) -> (s: String)
    ensures
        s@ == text_or_empty(opt_string_view(t)),
{
    match t {
        Some(s) => s,
        None => String::new(),
    }
}

fn items_under<'a>(v: &'a JsonValue, key: &str) -> (r: Option<&'a Vec<JsonValue>>)
    ensures
        match r {
            Some(a) => json_array(json_get(*v, key@)) == Some(a@),
            None => json_array(json_get(*v, key@)) is None,
        },
{
    match get(v, key) {
        Some(JsonValue::Array(items)) => Some(items),
        _ => None,
    }
}

/// Whether `r` is the extraction response that Tavily's answer `value`
/// gives, under the provider name `provider`: one document per item of
/// its results, and no fallback chain, latency or warnings yet.
pub open spec fn answers_extract(r: ExtractResponse, value: JsonValue, provider: Seq<char>) -> bool {
    &&& r.provider_used@ == provider
    &&& r.fallback_chain@.len() == 0
    &&& r.latency_ms == 0
    &&& r.warnings@.len() == 0
    &&& r.documents@.map_values(|d: ExtractedDocument| document_view(d)) =~= answer_items(value).map_values(
        |it: JsonValue| document_of(it, provider),
    )
}

/// The response to an extraction that Tavily answered with `value`.
pub fn map_extract_response(value: &JsonValue, provider_name: &str) -> (r: ExtractResponse)
    ensures
        answers_extract(r, *value, provider_name@),
{
    let mut documents: Vec<ExtractedDocument> = Vec::new();
    match items_under(value, "results") {
        Some(items) => {
            let mut i: usize = 0;
            while i < items.len()
                invariant
                    i <= items.len(),
                    json_array(json_get(*value, "results"@)) == Some(items@),
                    documents@.map_values(|d: ExtractedDocument| document_view(d)) == items@.take(
                        i as int,
                    ).map_values(|it: JsonValue| document_of(it, provider_name@)),
                decreases items.len() - i,
            {
                let item = &items[i];
                let url = text_or_default(as_text(get(item, "url")));
                let title = as_text(get(item, "title"));
                let content = text_or_default(as_text(get_or(item, "raw_content", "content")));
                let images = images_under(item, "images");
                let doc = ExtractedDocument {
                    url,
                    title,
                    content,
                    images,
                    source_provider: provider_name.to_owned(),
                };
                let ghost prev = documents@;
                assert(document_view(doc) == document_of(items@[i as int], provider_name@));
                assert(items@.take(i + 1).map_values(|it: JsonValue| document_of(it, provider_name@)) =~= items@.take(
                    i as int,
                ).map_values(|it: JsonValue| document_of(it, provider_name@)).push(document_of(items@[i as int], provider_name@)));
                documents.push(doc);
                assert(documents@.map_values(|d: ExtractedDocument| document_view(d)) =~= items@.take(
                    i + 1,
                ).map_values(|it: JsonValue| document_of(it, provider_name@)));
                i = i + 1;
            }
            assert(items@.take(items.len() as int) =~= items@);
        },
        None => {
            assert(documents@.map_values(|d: ExtractedDocument| document_view(d)) =~= Seq::empty());
        },
    }
    ExtractResponse {
        provider_used: provider_name.to_owned(),
        fallback_chain: Vec::new(),
        latency_ms: 0,
        warnings: Vec::new(),
        documents,
    }
}

/// A page's mathematical value: address, title, summary and provider.
pub open spec fn page_view(p: CrawledPage) -> (Seq<char>, Option<Seq<char>>, Option<Seq<char>>, Seq<char>) {
    (p.url@, opt_string_view(p.title), opt_string_view(p.summary), p.source_provider@)
}

/// The page that one item of a crawl answer gives: its address, its title,
/// and its summary (or else its content).
pub open spec fn page_of(item: JsonValue, provider: Seq<char>) -> (Seq<char>, Option<Seq<char>>, Option<Seq<char>>, Seq<char>) {
    (
        text_or_empty(json_str(json_get(item, "url"@))),
        json_str(json_get(item, "title"@)),
        json_str(json_get_or(item, "summary"@, "content"@)),
        provider,
    )
}

/// The items of a crawl answer: the array under `results`, or else under
/// `pages`.
pub open spec fn crawl_items(v: JsonValue) -> Seq<JsonValue> {
    match json_array(json_get_or(v, "results"@, "pages"@)) {
        Some(items) => items,
        None => Seq::empty(),
    }
}

/// Whether `r` is the crawl response that Tavily's answer `value` gives,
/// under the provider name `provider`: one page per item of its results
/// (or pages), and no fallback chain, latency or warnings yet.
pub open spec fn answers_crawl(r: CrawlResponse, value: JsonValue, provider: Seq<char>) -> bool {
    &&& r.provider_used@ == provider
    &&& r.fallback_chain@.len() == 0
    &&& r.latency_ms == 0
    &&& r.warnings@.len() == 0
    &&& r.pages@.map_values(|p: CrawledPage| page_view(p)) =~= crawl_items(value).map_values(
        |it: JsonValue| page_of(it, provider),
    )
}

/// The response to a crawl that Tavily answered with `value`.
pub fn map_crawl_response(value: &JsonValue, provider_name: &str) -> (r: CrawlResponse)
    ensures
        answers_crawl(r, *value, provider_name@),
{
    let mut pages: Vec<CrawledPage> = Vec::new();
    match get_or(value, "results", "pages") {
        Some(JsonValue::Array(items)) => {
            let mut i: usize = 0;
            while i < items.len()
                invariant
                    i <= items.len(),
                    crawl_items(*value) == items@,
                    pages@.map_values(|p: CrawledPage| page_view(p)) == items@.take(i as int).map_values(
                        |it: JsonValue| page_of(it, provider_name@),
                    ),
                decreases items.len() - i,
            {
                let item = &items[i];
                let page = CrawledPage {
                    url: text_or_default(as_text(get(item, "url"))),
                    title: as_text(get(item, "title")),
                    summary: as_text(get_or(item, "summary", "content")),
                    source_provider: provider_name.to_owned(),
                };
                assert(page_view(page) == page_of(items@[i as int], provider_name@));
                assert(items@.take(i + 1).map_values(|it: JsonValue| page_of(it, provider_name@)) =~= items@.take(
                    i as int,
                ).map_values(|it: JsonValue| page_of(it, provider_name@)).push(page_of(items@[i as int], provider_name@)));
                pages.push(page);
                assert(pages@.map_values(|p: CrawledPage| page_view(p)) =~= items@.take(i + 1).map_values(
                    |it: JsonValue| page_of(it, provider_name@),
                ));
                i = i + 1;
            }
            assert(items@.take(items.len() as int) =~= items@);
        },
        _ => {
            assert(pages@.map_values(|p: CrawledPage| page_view(p)) =~= Seq::empty());
        },
    }
    CrawlResponse {
        provider_used: provider_name.to_owned(),
        fallback_chain: Vec::new(),
        latency_ms: 0,
        warnings: Vec::new(),
        pages,
    }
}

/// The result that one item of a search answer gives: title, address, the
/// content as snippet, the raw content, the score, and the publication date.
pub open spec fn hit_of(item: JsonValue, provider: Seq<char>) -> (Seq<char>, Seq<char>, Seq<char>, Option<Seq<char>>, Option<Seq<char>>, Option<Seq<char>>, Seq<char>) {
    (
        text_or_empty(json_str(json_get(item, "title"@))),
        text_or_empty(json_str(json_get(item, "url"@))),
        text_or_empty(json_str(json_get(item, "content"@))),
        json_str(json_get(item, "raw_content"@)),
        json_number(json_get(item, "score"@)),
        json_str(json_get(item, "published_at"@)),
        provider,
    )
}

/// The follow-up questions of an answer: the strings of the array under
/// `follow_up_questions`, when there is one.
pub open spec fn follow_ups_of(v: JsonValue) -> Option<Seq<Seq<char>>> {
    match json_array(json_get(v, "follow_up_questions"@)) {
        Some(items) => Some(strings_in(items)),
        None => None,
    }
}

/// Whether `r` is the search response that Tavily's answer `value` gives,
/// under the provider name `provider`: its answer, request id, follow-up
/// questions, images and one result per item of its results, and no
/// fallback chain, latency or warnings yet.
pub open spec fn answers_search(r: SearchResponse, value: JsonValue, provider: Seq<char>) -> bool {
    &&& r.provider_used@ == provider
    &&& r.fallback_chain@.len() == 0
    &&& r.latency_ms == 0
    &&& r.warnings@.len() == 0
    &&& opt_string_view(r.answer) == json_str(json_get(value, "answer"@))
    &&& opt_string_view(r.request_id) == json_str(json_get(value, "request_id"@))
    &&& (match r.follow_up_questions {
        Some(q) => Some(views(q@)),
        None => None,
    }) == follow_ups_of(value)
    &&& image_views(r.images@) == listed_images(value, "images"@)
    &&& r.results@.map_values(|h: SearchResultItem| item_view(h)) =~= answer_items(value).map_values(
        |it: JsonValue| hit_of(it, provider),
    )
}

/// The search response that Tavily's answer `value` gives; it carries no
/// fallback chain, latency or warnings yet.
pub fn map_search_response(value: &JsonValue, provider_name: &str) -> (r: SearchResponse)
    ensures
        answers_search(r, *value, provider_name@),
{
    let answer = as_text(get(value, "answer"));
    let request_id = as_text(get(value, "request_id"));
    let follow_up_questions = match items_under(value, "follow_up_questions") {
        Some(items) => {
            let q = strings_of(items);
            assert(views(q@) =~= q@.map_values(|s: String| s@));
            Some(q)
        },
        None => None,
    };
    let images = images_under(value, "images");
    let mut results: Vec<SearchResultItem> = Vec::new();
    match items_under(value, "results") {
        Some(items) => {
            let mut i: usize = 0;
            while i < items.len()
                invariant
                    i <= items.len(),
                    results@.map_values(|h: SearchResultItem| item_view(h)) == items@.take(i as int).map_values(
                        |it: JsonValue| hit_of(it, provider_name@),
                    ),
                decreases items.len() - i,
            {
                let item = &items[i];
                let hit = SearchResultItem {
                    title: text_or_default(as_text(get(item, "title"))),
                    url: text_or_default(as_text(get(item, "url"))),
                    snippet: text_or_default(as_text(get(item, "content"))),
                    content: as_text(get(item, "raw_content")),
                    score: as_number_text(get(item, "score")),
                    published_at: as_text(get(item, "published_at")),
                    source_provider: provider_name.to_owned(),
                };
                assert(item_view(hit) == hit_of(items@[i as int], provider_name@));
                assert(items@.take(i + 1).map_values(|it: JsonValue| hit_of(it, provider_name@)) =~= items@.take(
                    i as int,
                ).map_values(|it: JsonValue| hit_of(it, provider_name@)).push(hit_of(items@[i as int], provider_name@)));
                results.push(hit);
                assert(results@.map_values(|h: SearchResultItem| item_view(h)) =~= items@.take(i + 1).map_values(
                    |it: JsonValue| hit_of(it, provider_name@),
                ));
                i = i + 1;
            }
            assert(items@.take(items.len() as int) =~= items@);
        },
        None => {
            assert(results@.map_values(|h: SearchResultItem| item_view(h)) =~= Seq::empty());
        },
    }
    SearchResponse {
        provider_used: provider_name.to_owned(),
        fallback_chain: Vec::new(),
        latency_ms: 0,
        warnings: Vec::new(),
        request_id,
        answer,
        follow_up_questions,
        results,
        images,
    }
}


// ---------------------------------------------------------------------------
// Exchanges

/// Reads the body of a reply to `operation` as JSON; a body that is not
/// JSON gives the decode error, which is not retried.
pub fn tavily_decode(operation: &str, body: &str) -> (r: Result<JsonValue, GatewayError>)
    ensures
        match decode_error(body@, JSON_DEPTH as nat) {
            None => r matches Ok(v) && decodes(v, body@, JSON_DEPTH as nat),
            Some(detail) => r matches Err(e) && e@ == provider_error(
                "tavily"@,
                operation@ + "_decode_error"@,
                "failed to decode "@ + operation@ + " response: "@ + detail,
                false,
            ),
        },
{
    match decode_json(body, JSON_DEPTH) {
        Ok(v) => Ok(v),
        Err(detail) => Err(tavily_decode_error(operation, detail.as_str())),
    }
}

/// What one exchange of `operation` with Tavily gives: the error of the
/// exchange (see [`tavily_reply_outcome`]), or else the reply's body read
/// as JSON (see [`tavily_decode`]).
pub fn tavily_exchange(operation: &str, reply: HttpReply) -> (r: Result<JsonValue, GatewayError>)
    ensures
        match tavily_reply_outcome(operation@, reply) {
            Err(e) => r matches Err(x) && x@ == e,
            Ok(body) => match decode_error(body, JSON_DEPTH as nat) {
                None => r matches Ok(v) && decodes(v, body, JSON_DEPTH as nat),
                Some(detail) => r matches Err(e) && e@ == provider_error(
                    "tavily"@,
                    operation@ + "_decode_error"@,
                    "failed to decode "@ + operation@ + " response: "@ + detail,
                    false,
                ),
            },
        },
{
    let body = match tavily_reply(operation, reply) {
        Ok(b) => b,
        Err(e) => return Err(e),
    };
    tavily_decode(operation, body.as_str())
}

/// A search's outcome from what the request gave: the error as it is, or
/// the search response that the answer gives.
pub fn tavily_search_outcome(sent: Result<JsonValue, GatewayError>) -> (r: Result<SearchResponse, GatewayError>)
    ensures
        match sent {
            Ok(v) => r matches Ok(resp) && answers_search(resp, v, "tavily"@),
            Err(e) => r == Err::<SearchResponse, GatewayError>(e),
        },
{
    match sent {
        Ok(v) => Ok(map_search_response(&v, "tavily")),
        Err(e) => Err(e),
    }
}

/// An extraction's outcome from what the request gave.
pub fn tavily_extract_outcome(sent: Result<JsonValue, GatewayError>) -> (r: Result<ExtractResponse, GatewayError>)
    ensures
        match sent {
            Ok(v) => r matches Ok(resp) && answers_extract(resp, v, "tavily"@),
            Err(e) => r == Err::<ExtractResponse, GatewayError>(e),
        },
{
    match sent {
        Ok(v) => Ok(map_extract_response(&v, "tavily")),
        Err(e) => Err(e),
    }
}

/// A crawl's outcome from what the request gave.
pub fn tavily_crawl_outcome(sent: Result<JsonValue, GatewayError>) -> (r: Result<CrawlResponse, GatewayError>)
    ensures
        match sent {
            Ok(v) => r matches Ok(resp) && answers_crawl(resp, v, "tavily"@),
            Err(e) => r == Err::<CrawlResponse, GatewayError>(e),
        },
{
    match sent {
        Ok(v) => Ok(map_crawl_response(&v, "tavily")),
        Err(e) => Err(e),
    }
}

// ---------------------------------------------------------------------------
// What the mapped responses hold, over the answer's JSON

/// A search response mapped from Tavily's answer `value` has one result for
/// each element of the array under `results` (none when there is no such
/// array), in order. Each result's title, address and snippet are the
/// strings under `title`, `url` and `content` of its element (empty where
/// there is no string); its raw content, score and date are the string
/// under `raw_content`, the number under `score` and the string under
/// `published_at`; and its source is the provider.
pub proof fn lemma_search_results_follow_the_answer(r: SearchResponse, value: JsonValue, provider: Seq<char>)
    requires
        answers_search(r, value, provider),
    ensures
        r.provider_used@ == provider,
        !(json_get(value, "results"@) matches Some(JsonValue::Array(_))) ==> r.results@.len() == 0,
        json_get(value, "results"@) matches Some(JsonValue::Array(items)) ==> (r.results@.len() == items@.len()
            && forall|i: int|
            #![trigger r.results@[i]]
            0 <= i < items@.len() ==> {
                &&& r.results@[i].title@ == text_or_empty(json_str(json_get(items@[i], "title"@)))
                &&& r.results@[i].url@ == text_or_empty(json_str(json_get(items@[i], "url"@)))
                &&& r.results@[i].snippet@ == text_or_empty(json_str(json_get(items@[i], "content"@)))
                &&& opt_string_view(r.results@[i].content) == json_str(json_get(items@[i], "raw_content"@))
                &&& opt_string_view(r.results@[i].score) == json_number(json_get(items@[i], "score"@))
                &&& opt_string_view(r.results@[i].published_at) == json_str(
                    json_get(items@[i], "published_at"@),
                )
                &&& r.results@[i].source_provider@ == provider
            }),
{
    let a = r.results@.map_values(|h: SearchResultItem| item_view(h));
    let b = answer_items(value).map_values(|it: JsonValue| hit_of(it, provider));
    assert(a =~= b);
    assert(a.len() == r.results@.len() && b.len() == answer_items(value).len());
    assert forall|i: int| 0 <= i < r.results@.len() implies item_view(#[trigger] r.results@[i]) == hit_of(
        answer_items(value)[i],
        provider,
    ) by {
        assert(a[i] == b[i]);
    }
}

/// An extraction response mapped from Tavily's answer `value` has one
/// document for each element of the array under `results` (none when there
/// is no such array), in order. Each document's address is the string under
/// `url` of its element (empty where there is none) and its title the
/// string under `title`; its content is the string under `raw_content` when
/// the element has that key, and otherwise the string under `content`
/// (empty where there is no string); its images are the strings of the
/// array under `images`; and its source is the provider.
pub proof fn lemma_extracted_documents_follow_the_answer(r: ExtractResponse, value: JsonValue, provider: Seq<char>)
    requires
        answers_extract(r, value, provider),
    ensures
        r.provider_used@ == provider,
        !(json_get(value, "results"@) matches Some(JsonValue::Array(_))) ==> r.documents@.len() == 0,
        json_get(value, "results"@) matches Some(JsonValue::Array(items)) ==> (r.documents@.len()
            == items@.len() && forall|i: int|
            #![trigger r.documents@[i]]
            0 <= i < items@.len() ==> {
                &&& r.documents@[i].url@ == text_or_empty(json_str(json_get(items@[i], "url"@)))
                &&& opt_string_view(r.documents@[i].title) == json_str(json_get(items@[i], "title"@))
                &&& json_get(items@[i], "raw_content"@) is Some ==> r.documents@[i].content@ == text_or_empty(
                    json_str(json_get(items@[i], "raw_content"@)),
                )
                &&& json_get(items@[i], "raw_content"@) is None ==> r.documents@[i].content@ == text_or_empty(
                    json_str(json_get(items@[i], "content"@)),
                )
                &&& image_views(r.documents@[i].images@) == (match json_get(items@[i], "images"@) {
                    Some(JsonValue::Array(images)) => strings_in(images@).map_values(
                        |u: Seq<char>| (u, None::<Seq<char>>),
                    ),
                    _ => Seq::empty(),
                })
                &&& r.documents@[i].source_provider@ == provider
            }),
{
    let a = r.documents@.map_values(|d: ExtractedDocument| document_view(d));
    let b = answer_items(value).map_values(|it: JsonValue| document_of(it, provider));
    assert(a =~= b);
    assert(a.len() == r.documents@.len() && b.len() == answer_items(value).len());
    assert forall|i: int| 0 <= i < r.documents@.len() implies document_view(#[trigger] r.documents@[i])
        == document_of(answer_items(value)[i], provider) by {
        assert(a[i] == b[i]);
    }
}

/// A crawl response mapped from Tavily's answer `value` has one page for
/// each element of the array under `results`, or, when the answer has no
/// `results` key, under `pages` (none when the value there is no array), in
/// order. Each page's address is the string under `url` of its element
/// (empty where there is none) and its title the string under `title`; its
/// summary is the string under `summary` when the element has that key,
/// and otherwise the string under `content`; and its source is the
/// provider.
pub proof fn lemma_crawled_pages_follow_the_answer(r: CrawlResponse, value: JsonValue, provider: Seq<char>)
    requires
        answers_crawl(r, value, provider),
    ensures
        r.provider_used@ == provider,
        ({
            let listed = if json_get(value, "results"@) is Some {
                json_get(value, "results"@)
            } else {
                json_get(value, "pages"@)
            };
            &&& !(listed matches Some(JsonValue::Array(_))) ==> r.pages@.len() == 0
            &&& listed matches Some(JsonValue::Array(items)) ==> (r.pages@.len() == items@.len() && forall|i: int|
                #![trigger r.pages@[i]]
                0 <= i < items@.len() ==> {
                    &&& r.pages@[i].url@ == text_or_empty(json_str(json_get(items@[i], "url"@)))
                    &&& opt_string_view(r.pages@[i].title) == json_str(json_get(items@[i], "title"@))
                    &&& json_get(items@[i], "summary"@) is Some ==> opt_string_view(r.pages@[i].summary) == json_str(
                        json_get(items@[i], "summary"@),
                    )
                    &&& json_get(items@[i], "summary"@) is None ==> opt_string_view(r.pages@[i].summary) == json_str(
                        json_get(items@[i], "content"@),
                    )
                    &&& r.pages@[i].source_provider@ == provider
                })
        }),
{
    let a = r.pages@.map_values(|p: CrawledPage| page_view(p));
    let b = crawl_items(value).map_values(|it: JsonValue| page_of(it, provider));
    assert(a =~= b);
    assert(a.len() == r.pages@.len() && b.len() == crawl_items(value).len());
    assert forall|i: int| 0 <= i < r.pages@.len() implies page_view(#[trigger] r.pages@[i]) == page_of(
        crawl_items(value)[i],
        provider,
    ) by {
        assert(a[i] == b[i]);
    }
}

} // verus!
