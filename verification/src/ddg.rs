//! The rules of the DuckDuckGo provider: its safe-search codes, its four
//! request strategies and how a search falls back across them, which links
//! of a results page count as results, how a DuckDuckGo redirect is
//! resolved to its target, and how result cards and plain links are read
//! from a page.
//!
//! The HTTP requests themselves are made by the caller.

use vstd::prelude::*;
use crate::config::DuckDuckGoConfig;
use crate::errors::{GatewayError, GatewayErrorView, provider_error};
use crate::models::{SearchResponse, SearchResultItem, item_view, item_views};
use crate::http::{HttpReply, is_retryable_status, is_success_status};
use crate::text::{
    ascii_lower, ascii_lower_chars, chars_of, concat_str, has_infix, has_prefix, is_blank,
    contains_chars, starts_with_chars, joined, join_strings, trim, trimmed, views,
};

verus! {

// ---------------------------------------------------------------------------
// Safe search

/// The `kp` code that DuckDuckGo takes for a safe-search setting: "off" and
/// "strict" have codes of their own, and any other value means moderate.
pub open spec fn kp_code(safe_search: Seq<char>) -> Seq<char> {
    if safe_search == "off"@ {
        "-2"@
    } else if safe_search == "strict"@ {
        "1"@
    } else {
        "-1"@
    }
}

/// The `kp` code for a safe-search setting.
pub fn safe_search_kp(safe_search: &str) -> (kp: &'static str)
    ensures
        kp@ == kp_code(safe_search@),
{
    let s = safe_search.to_owned();
    if s == "off".to_owned() {
        "-2"
    } else if s == "strict".to_owned() {
        "1"
    } else {
        "-1"
    }
}

/// The number of results a search asks DuckDuckGo for: five unless the
/// request says otherwise.
pub fn ddg_max_results(max_results: Option<u32>) -> (n: usize)
    ensures
        n as int == (match max_results {
            Some(m) => m as int,
            None => 5,
        }),
{
    match max_results {
        Some(m) => m as usize,
        None => 5,
    }
}

// ---------------------------------------------------------------------------
// Strategies

/// How a strategy sends its request.
#[derive(Debug, Clone, Copy, PartialEq, Eq, Structural)]
pub enum DdgRequestMethod {
    Get,
    Post,
}

/// Which page layout a strategy expects back.
#[derive(Debug, Clone, Copy, PartialEq, Eq, Structural)]
pub enum DdgResponseLayout {
    Html,
    Lite,
}

/// One way of asking DuckDuckGo: which endpoint, how, which layout comes
/// back, and the parameters the request carries (sent as a form by POST
/// and as the query string by GET).
#[derive(Debug, Clone)]
pub struct DdgSearchStrategy {
    pub name: String,
    pub url: String,
    pub method: DdgRequestMethod,
    pub layout: DdgResponseLayout,
    pub params: Vec<(String, String)>,
}

/// The parameters of every request of a search for `query`: the query, the
/// configured region and the safe-search code.
pub open spec fn request_params(config: DuckDuckGoConfig, query: Seq<char>) -> Seq<(Seq<char>, Seq<char>)> {
    seq![("q"@, query), ("kl"@, config.region@), ("kp"@, kp_code(config.safe_search@))]
}

/// The strategies of a search for `query`, in the order in which they are
/// tried: the HTML endpoint by POST and by GET, then the Lite endpoint by
/// POST and by GET; each carries [`request_params`].
pub open spec fn strategies_for(config: DuckDuckGoConfig, query: Seq<char>) -> Seq<
    (Seq<char>, Seq<char>, DdgRequestMethod, DdgResponseLayout, Seq<(Seq<char>, Seq<char>)>),
> {
    let p = request_params(config, query);
    seq![
        ("html_post"@, config.base_url@, DdgRequestMethod::Post, DdgResponseLayout::Html, p),
        ("html_get"@, config.base_url@, DdgRequestMethod::Get, DdgResponseLayout::Html, p),
        ("lite_post"@, config.lite_url@, DdgRequestMethod::Post, DdgResponseLayout::Lite, p),
        ("lite_get"@, config.lite_url@, DdgRequestMethod::Get, DdgResponseLayout::Lite, p),
    ]
}

pub open spec fn params_view(v: Seq<(String, String)>) -> Seq<(Seq<char>, Seq<char>)> {
    v.map_values(|p: (String, String)| (p.0@, p.1@))
}

pub open spec fn strategy_view(s: DdgSearchStrategy) -> (
    Seq<char>,
    Seq<char>,
    DdgRequestMethod,
    DdgResponseLayout,
    Seq<(Seq<char>, Seq<char>)>,
) {
    (s.name@, s.url@, s.method, s.layout, params_view(s.params@))
}

/// The parameters of every request of a search for `query`.
pub fn ddg_request_params(config: &DuckDuckGoConfig, query: &str) -> (v: Vec<(String, String)>)
    ensures
        params_view(v@) == request_params(*config, query@),
{
    let mut v: Vec<(String, String)> = Vec::new();
    v.push(("q".to_owned(), query.to_owned()));
    v.push(("kl".to_owned(), config.region.clone()));
    v.push(("kp".to_owned(), safe_search_kp(config.safe_search.as_str()).to_owned()));
    assert(params_view(v@) =~= request_params(*config, query@));
    v
}

fn strategy(
    name: &str,
    url: &String,
    method: DdgRequestMethod,
    layout: DdgResponseLayout,
    params: Vec<(String, String)>,
) -> (s: DdgSearchStrategy)
    ensures
        strategy_view(s) == (name@, url@, method, layout, params_view(params@)),
{
    DdgSearchStrategy { name: name.to_owned(), url: url.clone(), method, layout, params }
}

/// The four strategies of a search for `query` under `config`.
pub fn search_strategies(config: &DuckDuckGoConfig, query: &str) -> (v: Vec<DdgSearchStrategy>)
    ensures
        v@.map_values(|s: DdgSearchStrategy| strategy_view(s)) == strategies_for(*config, query@),
{
    let base_url = &config.base_url;
    let lite_url = &config.lite_url;
    let mut v: Vec<DdgSearchStrategy> = Vec::new();
    v.push(strategy("html_post", base_url, DdgRequestMethod::Post, DdgResponseLayout::Html, ddg_request_params(config, query)));
    v.push(strategy("html_get", base_url, DdgRequestMethod::Get, DdgResponseLayout::Html, ddg_request_params(config, query)));
    v.push(strategy("lite_post", lite_url, DdgRequestMethod::Post, DdgResponseLayout::Lite, ddg_request_params(config, query)));
    v.push(strategy("lite_get", lite_url, DdgRequestMethod::Get, DdgResponseLayout::Lite, ddg_request_params(config, query)));
    assert(v@.map_values(|s: DdgSearchStrategy| strategy_view(s)) =~= strategies_for(*config, query@));
    v
}

/// One search result read from a DuckDuckGo page.
#[derive(Debug, Clone)]
pub struct DdgHit {
    pub title: String,
    pub url: String,
    pub snippet: String,
}

pub open spec fn hit_view(h: DdgHit) -> (Seq<char>, Seq<char>, Seq<char>) {
    (h.title@, h.url@, h.snippet@)
}

pub open spec fn hit_views(v: Seq<DdgHit>) -> Seq<(Seq<char>, Seq<char>, Seq<char>)> {
    v.map_values(|h: DdgHit| hit_view(h))
}

/// The names of `strategies`.
pub open spec fn strategy_names(strategies: Seq<DdgSearchStrategy>) -> Seq<Seq<char>> {
    strategies.map_values(|s: DdgSearchStrategy| s.name@)
}

/// The line that notes one strategy's failure.
pub open spec fn strategy_failure_line(name: Seq<char>, e: GatewayError) -> Seq<char> {
    name + ": "@ + e.message@
}

/// The outcome of a search across strategies, given the outcome of each
/// strategy that was tried, in order: the first success ends the search;
/// a search that found nothing after some strategy failed is itself a
/// retryable failure that lists every strategy's failure.
pub open spec fn strategies_result(
    names: Seq<Seq<char>>,
    outcomes: Seq<Result<Vec<DdgHit>, GatewayError>>,
) -> Result<Seq<(Seq<char>, Seq<char>, Seq<char>)>, GatewayErrorView> {
    let n = outcomes.len();
    let failed = if n > 0 && outcomes.last() is Ok {
        (n - 1) as int
    } else {
        n as int
    };
    let lines = Seq::new(
        failed as nat,
        |i: int| strategy_failure_line(names[i], outcomes[i]->Err_0),
    );
    let found = if n > 0 && outcomes.last() is Ok {
        hit_views(outcomes.last()->Ok_0@)
    } else {
        Seq::empty()
    };
    if found.len() == 0 && failed > 0 {
        Err(
            provider_error(
                "ddg"@,
                "search_transport_error"@,
                "ddg search failed across strategies: "@ + joined(lines, " | "@),
                true,
            ),
        )
    } else {
        Ok(found)
    }
}

/// Whether `outcomes` is a possible record of strategy attempts: every
/// strategy up to the first success, or all of them.
pub open spec fn attempts_made<F: Fn(&DdgSearchStrategy) -> Result<Vec<DdgHit>, GatewayError>>(
    execute: F,
    strategies: Seq<DdgSearchStrategy>,
    outcomes: Seq<Result<Vec<DdgHit>, GatewayError>>,
) -> bool {
    &&& outcomes.len() <= strategies.len()
    &&& forall|i: int|
        0 <= i < outcomes.len() ==> call_ensures(execute, (&strategies[i],), #[trigger] outcomes[i])
    &&& forall|i: int| 0 <= i < outcomes.len() - 1 ==> (#[trigger] outcomes[i]) is Err
    &&& outcomes.len() < strategies.len() ==> outcomes.len() > 0 && outcomes.last() is Ok
}

pub open spec fn opt_hits_view(r: Result<Vec<DdgHit>, GatewayError>) -> Result<
    Seq<(Seq<char>, Seq<char>, Seq<char>)>,
    GatewayErrorView,
> {
    match r {
        Ok(v) => Ok(hit_views(v@)),
        Err(e) => Err(e@),
    }
}

/// Tries the strategies in order with `execute` until one succeeds.
pub fn run_strategies<F: Fn(&DdgSearchStrategy) -> Result<Vec<DdgHit>, GatewayError>>(
    strategies: &Vec<DdgSearchStrategy>,
    execute: F,
) -> (r: Result<Vec<DdgHit>, GatewayError>)
    requires
        forall|s: &DdgSearchStrategy| call_requires(execute, (s,)),
    ensures
        exists|outcomes: Seq<Result<Vec<DdgHit>, GatewayError>>|
            #![trigger strategies_result(strategy_names(strategies@), outcomes)]
            attempts_made(execute, strategies@, outcomes) && opt_hits_view(r) == strategies_result(
                strategy_names(strategies@),
                outcomes,
            ),
{
    let ghost names = strategy_names(strategies@);
    let ghost mut outcomes: Seq<Result<Vec<DdgHit>, GatewayError>> = Seq::empty();
    let mut failures: Vec<String> = Vec::new();
    let mut any_error = false;
    let mut i: usize = 0;
    while i < strategies.len()
        invariant
            i <= strategies.len(),
            names == strategy_names(strategies@),
            forall|s: &DdgSearchStrategy| call_requires(execute, (s,)),
            outcomes.len() == i,
            forall|j: int|
                0 <= j < i ==> call_ensures(execute, (&strategies@[j],), #[trigger] outcomes[j]),
            forall|j: int| 0 <= j < i ==> (#[trigger] outcomes[j]) is Err,
            any_error == (i > 0),
            views(failures@) == Seq::new(
                i as nat,
                |j: int| strategy_failure_line(names[j], outcomes[j]->Err_0),
            ),
        decreases strategies.len() - i,
    {
        let outcome = execute(&strategies[i]);
        let ghost old_outcomes = outcomes;
        match outcome {
            Ok(found) => {
                proof {
                    outcomes = outcomes.push(Ok(found));
                    assert(Seq::new(
                        i as nat,
                        |j: int| strategy_failure_line(names[j], old_outcomes[j]->Err_0),
                    ) =~= Seq::new(
                        (outcomes.len() - 1) as nat,
                        |j: int| strategy_failure_line(names[j], outcomes[j]->Err_0),
                    ));
                    assert(attempts_made(execute, strategies@, outcomes));
                }
                if found.len() == 0 && any_error {
                    let joined_lines = join_strings(&failures, " | ");
                    let message = concat_str("ddg search failed across strategies: ", joined_lines.as_str());
                    let e = GatewayError::provider("ddg", "search_transport_error", message.as_str(), true);
                    assert(opt_hits_view(Err(e)) == strategies_result(strategy_names(strategies@), outcomes));
                    return Err(e);
                }
                assert(opt_hits_view(Ok(found)) == strategies_result(strategy_names(strategies@), outcomes));
                return Ok(found);
            },
            Err(e) => {
                let line1 = concat_str(strategies[i].name.as_str(), ": ");
                let line = concat_str(line1.as_str(), e.message.as_str());
                let ghost before = views(failures@);
                let ghost before_vec = failures@;
                let ghost line_view = line@;
                failures.push(line);
                proof {
                    assert(before.len() == i);
                    assert(before_vec.len() == i);
                    assert(failures@.len() == i + 1);
                    assert(failures@[i as int]@ == line_view);
                    assert(views(failures@)[i as int] == line_view);
                    outcomes = outcomes.push(Err(e));
                    assert(names[i as int] == strategies@[i as int].name@);
                    assert forall|j: int| 0 <= j < i + 1 implies views(failures@)[j] == strategy_failure_line(
                        names[j],
                        outcomes[j]->Err_0,
                    ) by {
                        if j < i {
                            assert(views(failures@)[j] == before[j]);
                            assert(before[j] == strategy_failure_line(names[j], old_outcomes[j]->Err_0));
                        } else {
                            assert(outcomes[j]->Err_0 == e);
                            assert(line_view == strategies@[i as int].name@ + ": "@ + e.message@);
                        }
                    }
                    assert(views(failures@) =~= Seq::new(
                        (i + 1) as nat,
                        |j: int| strategy_failure_line(names[j], outcomes[j]->Err_0),
                    ));
                }
                any_error = true;
            },
        }
        i = i + 1;
    }
    proof {
        assert(attempts_made(execute, strategies@, outcomes));
    }
    if any_error {
        let joined_lines = join_strings(&failures, " | ");
        let message = concat_str("ddg search failed across strategies: ", joined_lines.as_str());
        let e = GatewayError::provider("ddg", "search_transport_error", message.as_str(), true);
        assert(opt_hits_view(Err(e)) == strategies_result(strategy_names(strategies@), outcomes));
        return Err(e);
    }
    let empty: Vec<DdgHit> = Vec::new();
    assert(hit_views(empty@) =~= Seq::empty());
    assert(opt_hits_view(Ok(empty)) == strategies_result(strategy_names(strategies@), outcomes));
    Ok(empty)
}

// ---------------------------------------------------------------------------
// Result links

/// Whether a link of a results page is a search result: a web address that
/// is no script or mail link, and no DuckDuckGo page unless it is one of its
/// redirects (`uddg=`). Letters are compared without regard to ASCII case.
pub open spec fn result_link(href: Seq<char>, url: Seq<char>) -> bool {
    let h = ascii_lower(href);
    let u = ascii_lower(url);
    if has_prefix(u, "javascript:"@) || has_prefix(u, "mailto:"@) {
        false
    } else if has_infix(u, "duckduckgo.com"@) && !has_infix(h, "uddg="@) {
        false
    } else {
        has_prefix(u, "http://"@) || has_prefix(u, "https://"@)
    }
}

/// Whether the link `href`, resolved to `url`, is a search result.
pub fn is_result_link(href: &str, url: &str) -> (res: bool)
    ensures
        res == result_link(href@, url@),
{
    let h = ascii_lower_chars(href);
    let u = ascii_lower_chars(url);
    if starts_with_chars(&u, &chars_of("javascript:")) || starts_with_chars(&u, &chars_of("mailto:")) {
        return false;
    }
    if contains_chars(&u, &chars_of("duckduckgo.com")) && !contains_chars(&h, &chars_of("uddg=")) {
        return false;
    }
    starts_with_chars(&u, &chars_of("http://")) || starts_with_chars(&u, &chars_of("https://"))
}

// ---------------------------------------------------------------------------
// Redirect targets

/// The query pairs of a URL, decoded, as the `url` crate parses them; none
/// for a text that is not a URL.
pub uninterp spec fn url_query_pairs(url: Seq<char>) -> Option<Seq<(Seq<char>, Seq<char>)>>;

pub open spec fn pairs_view(pairs: Option<Vec<(String, String)>>) -> Option<Seq<(Seq<char>, Seq<char>)>> {
    match pairs {
        Some(v) => Some(v@.map_values(|p: (String, String)| (p.0@, p.1@))),
        None => None,
    }
}

/// `url::Url::parse` and `Url::query_pairs`: the decoded query pairs of
/// `url`, in order, or none when `url` does not parse. What they are is
/// named by [`url_query_pairs`] and not stated further.
#[verifier::external_body]
fn query_pairs_of(url: &str) -> (pairs: Option<Vec<(String, String)>>)
    ensures
        pairs_view(pairs) == url_query_pairs(url@),
{
    url::Url::parse(url).ok().map(|u| u.query_pairs().into_owned().collect())
}

/// The value of the first pair whose key is `key`.
pub open spec fn first_value(pairs: Seq<(Seq<char>, Seq<char>)>, key: Seq<char>) -> Option<Seq<char>>
    decreases pairs.len(),
{
    if pairs.len() == 0 {
        None
    } else if pairs[0].0 == key {
        Some(pairs[0].1)
    } else {
        first_value(pairs.drop_first(), key)
    }
}

/// Where a link leads, given the query pairs of the link read as an address
/// on duckduckgo.com: the target of a redirect (`uddg`), or else the link.
pub open spec fn target_from_pairs(raw: Seq<char>, pairs: Option<Seq<(Seq<char>, Seq<char>)>>) -> Seq<char> {
    match pairs {
        Some(ps) => match first_value(ps, "uddg"@) {
            Some(v) => v,
            None => raw,
        },
        None => raw,
    }
}

/// Where the link `raw` leads.
pub open spec fn ddg_target(raw: Seq<char>) -> Seq<char> {
    target_from_pairs(raw, url_query_pairs("https://duckduckgo.com"@ + raw))
}

/// Where a link leads, given the query pairs of the link read as an address
/// on duckduckgo.com.
pub fn ddg_target_from_pairs(raw: &str, pairs: Option<Vec<(String, String)>>) -> (target: String)
    ensures
        target@ == target_from_pairs(raw@, pairs_view(pairs)),
{
    match pairs {
        Some(ps) => {
            let key = "uddg".to_owned();
            let ghost pv = ps@.map_values(|p: (String, String)| (p.0@, p.1@));
            assert(pv.subrange(0, pv.len() as int) =~= pv);
            let mut i: usize = 0;
            #[verifier::loop_isolation(false)]
            while i < ps.len()
                invariant
                    i <= ps.len(),
                    key@ == "uddg"@,
                    pv == ps@.map_values(|p: (String, String)| (p.0@, p.1@)),
                    first_value(pv, "uddg"@) == first_value(pv.subrange(i as int, pv.len() as int), "uddg"@),
                decreases ps.len() - i,
            {
                let ghost rest = pv.subrange(i as int, pv.len() as int);
                assert(rest[0] == (ps@[i as int].0@, ps@[i as int].1@));
                if ps[i].0 == key {
                    assert(rest.len() > 0);
                    assert(first_value(rest, "uddg"@) == Some(rest[0].1));
                    return ps[i].1.clone();
                }
                assert(rest.drop_first() =~= pv.subrange(i + 1, pv.len() as int));
                i = i + 1;
            }
            raw.to_owned()
        },
        None => raw.to_owned(),
    }
}

/// Where the link `raw` of a results page leads: the target of a DuckDuckGo
/// redirect, or the link itself.
pub fn decode_ddg_target(raw: &str) -> (target: String)
    ensures
        target@ == ddg_target(raw@),
{
    let address = concat_str("https://duckduckgo.com", raw);
    let pairs = query_pairs_of(address.as_str());
    ddg_target_from_pairs(raw, pairs)
}

// ---------------------------------------------------------------------------
// Reading pages

/// A link on a page: its `href`, when it has one, and its text.
#[derive(Debug, Clone)]
pub struct HtmlAnchor {
    pub href: Option<String>,
    pub text: String,
}

/// A result card of the HTML layout: the first link in its title, and the
/// text of its snippet, when it has them.
#[derive(Debug, Clone)]
pub struct HtmlCard {
    pub title: Option<HtmlAnchor>,
    pub snippet: Option<String>,
}

pub open spec fn anchor_view(a: HtmlAnchor) -> (Option<Seq<char>>, Seq<char>) {
    (
        match a.href {
            Some(h) => Some(h@),
            None => None,
        },
        a.text@,
    )
}

pub open spec fn card_view(c: HtmlCard) -> (Option<(Option<Seq<char>>, Seq<char>)>, Option<Seq<char>>) {
    (
        match c.title {
            Some(a) => Some(anchor_view(a)),
            None => None,
        },
        match c.snippet {
            Some(s) => Some(s@),
            None => None,
        },
    )
}

/// The result cards of a page, as `scraper` finds them.
pub uninterp spec fn result_cards_of(body: Seq<char>) -> Seq<(Option<(Option<Seq<char>>, Seq<char>)>, Option<Seq<char>>)>;

/// The links of a page, in document order, as `scraper` finds them.
pub uninterp spec fn anchors_of(body: Seq<char>) -> Seq<(Option<Seq<char>>, Seq<char>)>;

/// `scraper::Html::parse_document` with the selectors `.result`,
/// `.result__title a` and `.result__snippet`: for each element of class
/// `result`, in document order, the `href` and the text of the first link
/// in its title and the text of its first snippet. The selectors are
/// constant and valid, so their parsing cannot fail. What the cards are is
/// named by [`result_cards_of`] and not stated further.
#[verifier::external_body]
fn html_result_cards(body: &str) -> (cards: Vec<HtmlCard>)
    ensures
        cards@.map_values(|c: HtmlCard| card_view(c)) == result_cards_of(body@),
{
    let doc = scraper::Html::parse_document(body);
    let card = scraper::Selector::parse(".result").unwrap();
    let title = scraper::Selector::parse(".result__title a").unwrap();
    let snippet = scraper::Selector::parse(".result__snippet").unwrap();
    doc.select(&card).map(|c| HtmlCard {
        title: c.select(&title).next().map(|a| HtmlAnchor { href: a.attr("href").map(String::from), text: a.text().collect() }),
        snippet: c.select(&snippet).next().map(|s| s.text().collect()),
    }).collect()
}

/// `scraper::Html::parse_document` with the selector `a`: every link of the
/// page in document order, with its `href` and its text. The selector is
/// constant and valid, so its parsing cannot fail. What the links are is
/// named by [`anchors_of`] and not stated further.
#[verifier::external_body]
fn html_anchors(body: &str) -> (anchors: Vec<HtmlAnchor>)
    ensures
        anchors@.map_values(|a: HtmlAnchor| anchor_view(a)) == anchors_of(body@),
{
    let doc = scraper::Html::parse_document(body);
    let link = scraper::Selector::parse("a").unwrap();
    doc.select(&link).map(|a| HtmlAnchor { href: a.attr("href").map(String::from), text: a.text().collect() }).collect()
}

pub open spec fn href_or_empty(h: Option<Seq<char>>) -> Seq<char> {
    match h {
        Some(s) => s,
        None => Seq::empty(),
    }
}

/// The result that a card gives, if it gives one: a card needs a title
/// link, a title that is not blank, and a link that resolves to a result.
pub open spec fn card_hit(card: (Option<(Option<Seq<char>>, Seq<char>)>, Option<Seq<char>>)) -> Option<(Seq<char>, Seq<char>, Seq<char>)> {
    match card.0 {
        None => None,
        Some(anchor) => {
            let title = trimmed(anchor.1);
            let href = href_or_empty(anchor.0);
            let url = ddg_target(href);
            let snippet = match card.1 {
                Some(s) => trimmed(s),
                None => Seq::empty(),
            };
            if title.len() == 0 || url.len() == 0 || !result_link(href, url) {
                None
            } else {
                Some((title, url, snippet))
            }
        },
    }
}

/// The results of a sequence of cards, in order.
pub open spec fn card_hits(cards: Seq<(Option<(Option<Seq<char>>, Seq<char>)>, Option<Seq<char>>)>) -> Seq<(Seq<char>, Seq<char>, Seq<char>)>
    decreases cards.len(),
{
    if cards.len() == 0 {
        Seq::empty()
    } else {
        let prev = card_hits(cards.drop_last());
        match card_hit(cards.last()) {
            Some(h) => prev.push(h),
            None => prev,
        }
    }
}

/// Whether `hit` carries what `card` shows: the trimmed text of its title
/// link, the address that link leads to, and the trimmed text of its
/// snippet (empty when it has none).
pub open spec fn shows(card: (Option<(Option<Seq<char>>, Seq<char>)>, Option<Seq<char>>), hit: (Seq<char>, Seq<char>, Seq<char>)) -> bool {
    &&& card.0 matches Some(anchor)
    &&& hit.0 == trimmed(card.0->Some_0.1)
    &&& hit.1 == ddg_target(href_or_empty(card.0->Some_0.0))
    &&& hit.2 == match card.1 {
        Some(s) => trimmed(s),
        None => Seq::empty(),
    }
}

/// Whether `hit` carries what one of `cards` shows.
pub open spec fn shown_by_a_card(
    cards: Seq<(Option<(Option<Seq<char>>, Seq<char>)>, Option<Seq<char>>)>,
    hit: (Seq<char>, Seq<char>, Seq<char>),
) -> bool {
    exists|j: int| 0 <= j < cards.len() && #[trigger] shows(cards[j], hit)
}

/// Every result that cards give carries what one of the cards shows: a
/// card's title, address and snippet are kept in its result.
pub proof fn lemma_card_results_show_their_cards(cards: Seq<(Option<(Option<Seq<char>>, Seq<char>)>, Option<Seq<char>>)>)
    ensures
        card_hits(cards).len() <= cards.len(),
        forall|k: int| 0 <= k < card_hits(cards).len() ==> shown_by_a_card(cards, #[trigger] card_hits(cards)[k]),
    decreases cards.len(),
{
    if cards.len() > 0 {
        let prev = cards.drop_last();
        lemma_card_results_show_their_cards(prev);
        assert forall|k: int| 0 <= k < card_hits(cards).len() implies shown_by_a_card(
            cards,
            #[trigger] card_hits(cards)[k],
        ) by {
            if k < card_hits(prev).len() {
                assert(shown_by_a_card(prev, card_hits(prev)[k]));
                let j = choose|j: int| 0 <= j < prev.len() && #[trigger] shows(prev[j], card_hits(prev)[k]);
                assert(cards[j] == prev[j]);
                assert(card_hits(cards)[k] == card_hits(prev)[k]);
                assert(shows(cards[j], card_hits(cards)[k]));
            } else {
                let j = cards.len() - 1;
                assert(cards[j] == cards.last());
                assert(shows(cards[j], card_hits(cards)[k]));
            }
        }
    }
}

/// The results of the HTML layout: those of its first `max_results` cards.
pub open spec fn html_hits(body: Seq<char>, max_results: int) -> Seq<(Seq<char>, Seq<char>, Seq<char>)> {
    let cards = result_cards_of(body);
    card_hits(if max_results < cards.len() {
        cards.take(max_results)
    } else {
        cards
    })
}

fn hit_of_card(card: &HtmlCard) -> (h: Option<DdgHit>)
    ensures
        match h {
            Some(x) => card_hit(card_view(*card)) == Some(hit_view(x)),
            None => card_hit(card_view(*card)) is None,
        },
{
    match &card.title {
        None => None,
        Some(anchor) => {
            let title = trim(anchor.text.as_str());
            let href = match &anchor.href {
                Some(h) => h.clone(),
                None => String::new(),
            };
            let url = decode_ddg_target(href.as_str());
            let snippet = match &card.snippet {
                Some(s) => trim(s.as_str()),
                None => String::new(),
            };
            let title_chars = chars_of(title.as_str());
            let url_chars = chars_of(url.as_str());
            if title_chars.len() == 0 || url_chars.len() == 0 || !is_result_link(href.as_str(), url.as_str()) {
                None
            } else {
                Some(DdgHit { title, url, snippet })
            }
        },
    }
}

/// The results of the HTML layout of a page: each of the first
/// `max_results` result cards that has a title link resolving to a result.
pub fn parse_html_results(body: &str, max_results: usize) -> (r: Result<Vec<DdgHit>, GatewayError>)
    ensures
        r matches Ok(v) && hit_views(v@) == html_hits(body@, max_results as int),
{
    let cards = html_result_cards(body);
    let ghost cv = cards@.map_values(|c: HtmlCard| card_view(c));
    let limit = if max_results < cards.len() {
        max_results
    } else {
        cards.len()
    };
    let mut results: Vec<DdgHit> = Vec::new();
    let mut i: usize = 0;
    while i < limit
        invariant
            i <= limit <= cards.len(),
            cv == cards@.map_values(|c: HtmlCard| card_view(c)),
            hit_views(results@) == card_hits(cv.take(i as int)),
        decreases limit - i,
    {
        let ghost prev = results@;
        assert(cv.take(i + 1).drop_last() =~= cv.take(i as int));
        assert(cv.take(i + 1).last() == card_view(cards@[i as int]));
        match hit_of_card(&cards[i]) {
            Some(h) => {
                results.push(h);
                assert(hit_views(results@) =~= hit_views(prev).push(hit_view(h)));
            },
            None => {},
        }
        i = i + 1;
    }
    proof {
        if !(max_results < cards.len()) {
            assert(cv.take(limit as int) =~= cv);
        }
    }
    Ok(results)
}

/// The result that a plain link gives, if it gives one.
pub open spec fn anchor_hit(anchor: (Option<Seq<char>>, Seq<char>)) -> Option<(Seq<char>, Seq<char>, Seq<char>)> {
    let href = href_or_empty(anchor.0);
    let url = ddg_target(href);
    let title = trimmed(anchor.1);
    if title.len() == 0 || url.len() == 0 || !result_link(href, url) {
        None
    } else {
        Some((title, url, Seq::empty()))
    }
}

/// Whether some result of `hits` has the address `url`.
pub open spec fn has_url(hits: Seq<(Seq<char>, Seq<char>, Seq<char>)>, url: Seq<char>) -> bool {
    exists|i: int| 0 <= i < hits.len() && (#[trigger] hits[i]).1 == url
}

/// The results of a sequence of plain links: each link that gives a result
/// whose address no earlier result has, until `max_results` results are
/// found (at least one is kept once found).
pub open spec fn anchor_hits(anchors: Seq<(Option<Seq<char>>, Seq<char>)>, max_results: int) -> Seq<(Seq<char>, Seq<char>, Seq<char>)>
    decreases anchors.len(),
{
    if anchors.len() == 0 {
        Seq::empty()
    } else {
        let prev = anchor_hits(anchors.drop_last(), max_results);
        if prev.len() > 0 && prev.len() >= max_results {
            prev
        } else {
            match anchor_hit(anchors.last()) {
                Some(h) => if has_url(prev, h.1) {
                    prev
                } else {
                    prev.push(h)
                },
                None => prev,
            }
        }
    }
}

proof fn lemma_anchor_hits_stay(anchors: Seq<(Option<Seq<char>>, Seq<char>)>, max_results: int, k: int)
    requires
        0 <= k <= anchors.len(),
        anchor_hits(anchors.take(k), max_results).len() > 0,
        anchor_hits(anchors.take(k), max_results).len() >= max_results,
    ensures
        anchor_hits(anchors, max_results) == anchor_hits(anchors.take(k), max_results),
    decreases anchors.len() - k,
{
    if k < anchors.len() {
        assert(anchors.take(k + 1).drop_last() =~= anchors.take(k));
        lemma_anchor_hits_stay(anchors, max_results, k + 1);
    } else {
        assert(anchors.take(k) =~= anchors);
    }
}

fn hit_of_anchor(anchor: &HtmlAnchor) -> (h: Option<DdgHit>)
    ensures
        match h {
            Some(x) => anchor_hit(anchor_view(*anchor)) == Some(hit_view(x)),
            None => anchor_hit(anchor_view(*anchor)) is None,
        },
{
    let href = match &anchor.href {
        Some(h) => h.clone(),
        None => String::new(),
    };
    let url = decode_ddg_target(href.as_str());
    let title = trim(anchor.text.as_str());
    let title_chars = chars_of(title.as_str());
    let url_chars = chars_of(url.as_str());
    if title_chars.len() == 0 || url_chars.len() == 0 || !is_result_link(href.as_str(), url.as_str()) {
        None
    } else {
        Some(DdgHit { title, url, snippet: String::new() })
    }
}

fn find_url(results: &Vec<DdgHit>, url: &String) -> (found: bool)
    ensures
        found == has_url(hit_views(results@), url@),
{
    let mut i: usize = 0;
    while i < results.len()
        invariant
            i <= results.len(),
            forall|j: int| 0 <= j < i ==> results@[j].url@ != url@,
        decreases results.len() - i,
    {
        if results[i].url == *url {
            assert(hit_views(results@)[i as int].1 == url@);
            return true;
        }
        i = i + 1;
    }
    proof {
        assert forall|j: int| 0 <= j < hit_views(results@).len() implies (#[trigger] hit_views(results@)[j]).1 != url@ by {
            assert(hit_views(results@)[j] == hit_view(results@[j]));
        }
    }
    false
}

/// The results of any layout, read from its plain links: each link that
/// resolves to a result, without repeated addresses, up to `max_results`.
pub fn parse_generic_anchor_results(body: &str, max_results: usize) -> (r: Result<Vec<DdgHit>, GatewayError>)
    ensures
        r matches Ok(v) && hit_views(v@) == anchor_hits(anchors_of(body@), max_results as int),
{
    let anchors = html_anchors(body);
    let ghost av = anchors@.map_values(|a: HtmlAnchor| anchor_view(a));
    let mut results: Vec<DdgHit> = Vec::new();
    let mut i: usize = 0;
    while i < anchors.len()
        invariant
            i <= anchors.len(),
            av == anchors@.map_values(|a: HtmlAnchor| anchor_view(a)),
            av == anchors_of(body@),
            hit_views(results@) == anchor_hits(av.take(i as int), max_results as int),
            !(results.len() > 0 && results.len() >= max_results),
        decreases anchors.len() - i,
    {
        let ghost prev = results@;
        assert(av.take(i + 1).drop_last() =~= av.take(i as int));
        assert(av.take(i + 1).last() == anchor_view(anchors@[i as int]));
        match hit_of_anchor(&anchors[i]) {
            Some(h) => {
                if !find_url(&results, &h.url) {
                    results.push(h);
                    assert(hit_views(results@) =~= hit_views(prev).push(hit_view(h)));
                    assert(hit_views(results@) == anchor_hits(av.take(i + 1), max_results as int));
                    if results.len() >= max_results {
                        proof {
                            lemma_anchor_hits_stay(av, max_results as int, i + 1);
                            assert(av.take(anchors.len() as int) =~= av);
                        }
                        return Ok(results);
                    }
                }
            },
            None => {},
        }
        i = i + 1;
    }
    assert(av.take(anchors.len() as int) =~= av);
    Ok(results)
}

/// The results of a page of the given layout: the result cards of the HTML
/// layout, and when they give nothing (or for the Lite layout), the plain
/// links of the page.
pub open spec fn page_hits(body: Seq<char>, layout: DdgResponseLayout, max_results: int) -> Seq<(Seq<char>, Seq<char>, Seq<char>)> {
    let first = match layout {
        DdgResponseLayout::Html => html_hits(body, max_results),
        DdgResponseLayout::Lite => Seq::empty(),
    };
    if first.len() == 0 {
        anchor_hits(anchors_of(body), max_results)
    } else {
        first
    }
}

/// The results of a page of the given layout.
pub fn parse_results(body: &str, layout: DdgResponseLayout, max_results: usize) -> (r: Result<Vec<DdgHit>, GatewayError>)
    ensures
        r matches Ok(v) && hit_views(v@) == page_hits(body@, layout, max_results as int),
{
    let mut results = match layout {
        DdgResponseLayout::Html => parse_html_results(body, max_results)?,
        DdgResponseLayout::Lite => Vec::new(),
    };
    assert(results.len() == hit_views(results@).len());
    if results.len() == 0 {
        results = parse_generic_anchor_results(body, max_results)?;
    }
    Ok(results)
}

/// The results, or the error, of one strategy's exchange: a failure to send
/// or to read is retryable, and so is a failed status that
/// `is_retryable_status` admits; a successful reply is read as a page of
/// the strategy's layout.
pub open spec fn strategy_reply_outcome(
    name: Seq<char>,
    layout: DdgResponseLayout,
    max_results: int,
    reply: HttpReply,
) -> Result<Seq<(Seq<char>, Seq<char>, Seq<char>)>, GatewayErrorView> {
    match reply {
        HttpReply::SendFailed(detail) => Err(
            provider_error(
                "ddg"@,
                "search_transport_error"@,
                "ddg "@ + name + " request failed: "@ + detail@,
                true,
            ),
        ),
        HttpReply::ReadFailed(detail) => Err(
            provider_error(
                "ddg"@,
                "search_read_error"@,
                "failed to read ddg "@ + name + " response: "@ + detail@,
                true,
            ),
        ),
        HttpReply::Received { status, status_text, body } => if is_success_status(status) {
            Ok(page_hits(body@, layout, max_results))
        } else {
            Err(
                provider_error(
                    "ddg"@,
                    "search_http_error"@,
                    "ddg "@ + name + " returned "@ + status_text@ + ": "@ + body@,
                    is_retryable_status(status),
                ),
            )
        },
    }
}

fn join4(a: &str, b: &str, c: &str, d: &str) -> (s: String)
    ensures
        s@ == a@ + b@ + c@ + d@,
{
    let ab = concat_str(a, b);
    let abc = concat_str(ab.as_str(), c);
    concat_str(abc.as_str(), d)
}

/// The results, or the error, of the exchange of strategy `strategy`.
pub fn strategy_reply(
    strategy: &DdgSearchStrategy,
    max_results: usize,
    reply: HttpReply,
) -> (r: Result<Vec<DdgHit>, GatewayError>)
    ensures
        opt_hits_view(r) == strategy_reply_outcome(strategy.name@, strategy.layout, max_results as int, reply),
{
    let name = strategy.name.as_str();
    match reply {
        HttpReply::SendFailed(detail) => {
            let message = join4("ddg ", name, " request failed: ", detail.as_str());
            Err(GatewayError::provider("ddg", "search_transport_error", message.as_str(), true))
        },
        HttpReply::ReadFailed(detail) => {
            let message = join4("failed to read ddg ", name, " response: ", detail.as_str());
            Err(GatewayError::provider("ddg", "search_read_error", message.as_str(), true))
        },
        HttpReply::Received { status, status_text, body } => {
            if 200 <= status && status <= 299 {
                parse_results(body.as_str(), strategy.layout, max_results)
            } else {
                let head = join4("ddg ", name, " returned ", status_text.as_str());
                let head2 = concat_str(head.as_str(), ": ");
                let message = concat_str(head2.as_str(), body.as_str());
                let retryable = (500 <= status && status <= 599) || status == 429;
                Err(GatewayError::provider("ddg", "search_http_error", message.as_str(), retryable))
            }
        },
    }
}


// ---------------------------------------------------------------------------
// Search responses

/// The fields of the search result that a hit gives: its title, address
/// and snippet, no raw content, score or date, and DuckDuckGo as source.
pub open spec fn ddg_item(t: (Seq<char>, Seq<char>, Seq<char>)) -> (
    Seq<char>,
    Seq<char>,
    Seq<char>,
    Option<Seq<char>>,
    Option<Seq<char>>,
    Option<Seq<char>>,
    Seq<char>,
) {
    (t.0, t.1, t.2, None, None, None, "ddg"@)
}

/// The search result for a hit with the given title, address and snippet.
pub fn build_result(title: String, url: String, snippet: String) -> (item: SearchResultItem)
    ensures
        item_view(item) == ddg_item((title@, url@, snippet@)),
        item.title == title,
        item.url == url,
        item.snippet == snippet,
        item.content is None,
        item.score is None,
        item.published_at is None,
        item.source_provider@ == "ddg"@,
{
    SearchResultItem {
        title,
        url,
        snippet,
        content: None,
        score: None,
        published_at: None,
        source_provider: "ddg".to_owned(),
    }
}

/// Whether `r` is DuckDuckGo's answer with the results `found`: it names
/// DuckDuckGo, and carries no fallback chain, latency, warnings, request
/// id, answer, follow-up questions or images.
pub open spec fn is_ddg_response(r: SearchResponse, found: Seq<(Seq<char>, Seq<char>, Seq<char>)>) -> bool {
    &&& r.provider_used@ == "ddg"@
    &&& r.fallback_chain@.len() == 0
    &&& r.latency_ms == 0
    &&& r.warnings@.len() == 0
    &&& r.request_id is None
    &&& r.answer is None
    &&& r.follow_up_questions is None
    &&& r.images@.len() == 0
    &&& item_views(r.results@) == found.map_values(|t: (Seq<char>, Seq<char>, Seq<char>)| ddg_item(t))
}

/// DuckDuckGo's answer with the results `found` has one result for each
/// hit, in order, with that hit's title, address and snippet, no raw
/// content, score or date, and DuckDuckGo as its source.
pub proof fn lemma_ddg_results_keep_their_hits(r: SearchResponse, found: Seq<DdgHit>)
    requires
        is_ddg_response(r, hit_views(found)),
    ensures
        r.results@.len() == found.len(),
        forall|i: int|
            #![trigger r.results@[i]]
            0 <= i < found.len() ==> {
                &&& r.results@[i].title@ == found[i].title@
                &&& r.results@[i].url@ == found[i].url@
                &&& r.results@[i].snippet@ == found[i].snippet@
                &&& r.results@[i].content is None
                &&& r.results@[i].score is None
                &&& r.results@[i].published_at is None
                &&& r.results@[i].source_provider@ == "ddg"@
            },
{
    let a = item_views(r.results@);
    let b = hit_views(found).map_values(|t: (Seq<char>, Seq<char>, Seq<char>)| ddg_item(t));
    assert(a =~= b);
    assert(a.len() == r.results@.len() && b.len() == hit_views(found).len());
    assert forall|i: int| 0 <= i < r.results@.len() implies item_view(#[trigger] r.results@[i]) == ddg_item(
        hit_view(found[i]),
    ) by {
        assert(a[i] == b[i]);
        assert(hit_views(found)[i] == hit_view(found[i]));
    }
}

/// DuckDuckGo's answer with the results `hits`.
pub fn ddg_response(hits: Vec<DdgHit>) -> (r: SearchResponse)
    ensures
        is_ddg_response(r, hit_views(hits@)),
{
    let mut results: Vec<SearchResultItem> = Vec::new();
    let mut i: usize = 0;
    while i < hits.len()
        invariant
            i <= hits.len(),
            item_views(results@) == hit_views(hits@.take(i as int)).map_values(
                |t: (Seq<char>, Seq<char>, Seq<char>)| ddg_item(t),
            ),
        decreases hits.len() - i,
    {
        let h = &hits[i];
        let item = build_result(h.title.clone(), h.url.clone(), h.snippet.clone());
        let ghost before = results@;
        results.push(item);
        assert(hits@.take(i + 1) =~= hits@.take(i as int).push(hits@[i as int]));
        assert(item_views(results@) =~= item_views(before).push(item_view(item)));
        assert(hit_views(hits@.take(i + 1)) =~= hit_views(hits@.take(i as int)).push(hit_view(hits@[i as int])));
        assert(item_views(results@) =~= hit_views(hits@.take(i + 1)).map_values(
            |t: (Seq<char>, Seq<char>, Seq<char>)| ddg_item(t),
        ));
        i = i + 1;
    }
    assert(hits@.take(hits.len() as int) =~= hits@);
    SearchResponse {
        provider_used: "ddg".to_owned(),
        fallback_chain: Vec::new(),
        latency_ms: 0,
        warnings: Vec::new(),
        request_id: None,
        answer: None,
        follow_up_questions: None,
        results,
        images: Vec::new(),
    }
}

/// Whether `r` is the outcome `outcome` of a search across strategies.
pub open spec fn answers_with(
    r: Result<SearchResponse, GatewayError>,
    outcome: Result<Seq<(Seq<char>, Seq<char>, Seq<char>)>, GatewayErrorView>,
) -> bool {
    match outcome {
        Ok(found) => r matches Ok(resp) && is_ddg_response(resp, found),
        Err(e) => r matches Err(x) && x@ == e,
    }
}

/// A search on DuckDuckGo for `query`: the four strategies for the
/// configured endpoints, each carrying the query, region and safe-search
/// code, are tried in order with `execute`, which makes one strategy's
/// request, until one succeeds; see [`strategies_result`].
pub fn ddg_search<F: Fn(&DdgSearchStrategy) -> Result<Vec<DdgHit>, GatewayError>>(
    config: &DuckDuckGoConfig,
    query: &str,
    execute: F,
) -> (r: Result<SearchResponse, GatewayError>)
    requires
        forall|s: &DdgSearchStrategy| call_requires(execute, (s,)),
    ensures
        exists|strategies: Seq<DdgSearchStrategy>, outcomes: Seq<Result<Vec<DdgHit>, GatewayError>>|
            #![trigger strategies_result(strategy_names(strategies), outcomes)]
            {
                &&& strategies.map_values(|s: DdgSearchStrategy| strategy_view(s)) == strategies_for(
                    *config,
                    query@,
                )
                &&& attempts_made(execute, strategies, outcomes)
                &&& answers_with(r, strategies_result(strategy_names(strategies), outcomes))
            },
{
    let strategies = search_strategies(config, query);
    match run_strategies(&strategies, execute) {
        Ok(hits) => Ok(ddg_response(hits)),
        Err(e) => Err(e),
    }
}

} // verus!
