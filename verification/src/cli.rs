//! The command line: its arguments, and the request that each command
//! makes of the gateway.

use vstd::prelude::*;
use crate::models::{CrawlRequest, ExtractRequest, OutputMode, SearchDepth, SearchRequest, SearchTopic};

verus! {

/// The arguments of the program.
#[derive(Debug)]
pub struct Cli {
    /// The configuration file given with `--config`.
    pub config: Option<String>,
    /// Whether `--json` asks for the JSON envelope.
    pub json: bool,
    pub command: Commands,
}

/// The commands of the program.
#[derive(Debug)]
pub enum Commands {
    Mcp,
    Search {
        query: String,
        provider: Option<String>,
        topic: Option<SearchTopic>,
        max_results: Option<u32>,
        search_depth: Option<SearchDepth>,
        include_answer: bool,
        include_raw_content: bool,
        include_images: bool,
        days: Option<u32>,
        site_filter: Vec<String>,
        exclude_domain: Vec<String>,
        country: Option<String>,
        language: Option<String>,
        timeout_ms: Option<u64>,
    },
    Extract {
        provider: Option<String>,
        include_images: bool,
        timeout_ms: Option<u64>,
        urls: Vec<String>,
    },
    Crawl {
        provider: Option<String>,
        limit: Option<u32>,
        max_depth: Option<u32>,
        instructions: Option<String>,
        timeout_ms: Option<u64>,
        url: String,
    },
    Status,
}

/// What a command asks of the gateway.
#[derive(Debug)]
pub enum Invocation {
    Mcp,
    Search(SearchRequest),
    Extract(ExtractRequest),
    Crawl(CrawlRequest),
    Status,
}

/// A list given on the command line: none when no item was given.
pub open spec fn nonempty_list(v: Vec<String>) -> Option<Vec<String>> {
    if v@.len() > 0 {
        Some(v)
    } else {
        None
    }
}

/// What `command` asks of the gateway: the flags of a search become the
/// request's `include_*` options (off unless given), and a list of sites or
/// excluded domains is passed on only when it holds something.
pub open spec fn invocation_of(command: Commands) -> Invocation {
    match command {
        Commands::Mcp => Invocation::Mcp,
        Commands::Search {
            query,
            provider,
            topic,
            max_results,
            search_depth,
            include_answer,
            include_raw_content,
            include_images,
            days,
            site_filter,
            exclude_domain,
            country,
            language,
            timeout_ms,
        } => Invocation::Search(
            SearchRequest {
                query,
                provider,
                topic,
                max_results,
                search_depth,
                include_answer: Some(include_answer),
                include_raw_content: Some(include_raw_content),
                include_images: Some(include_images),
                days,
                site_filter: nonempty_list(site_filter),
                exclude_domains: nonempty_list(exclude_domain),
                country,
                language,
                timeout_ms,
            },
        ),
        Commands::Extract { provider, include_images, timeout_ms, urls } => Invocation::Extract(
            ExtractRequest { urls, provider, include_images: Some(include_images), timeout_ms },
        ),
        Commands::Crawl { provider, limit, max_depth, instructions, timeout_ms, url } => Invocation::Crawl(
            CrawlRequest { url, provider, limit, max_depth, instructions, timeout_ms },
        ),
        Commands::Status => Invocation::Status,
    }
}

/// Each command asks the gateway for what its arguments say, each passed
/// through unchanged: a crawl command's address, provider, page limit,
/// depth, instructions and timeout become those of the crawl request; an
/// extraction command's addresses, provider, image flag and timeout those of
/// the extraction request; a search command's arguments those of the search
/// request, its flags as given and its lists of sites and excluded domains
/// only when they hold something.
pub proof fn lemma_commands_carry_their_arguments(command: Commands)
    ensures
            command is Mcp ==> invocation_of(command) is Mcp,
            command is Status ==> invocation_of(command) is Status,
            command matches Commands::Crawl { provider, limit, max_depth, instructions, timeout_ms, url } ==> (invocation_of(command) matches Invocation::Crawl(r)
                && r.url == url && r.provider == provider && r.limit == limit && r.max_depth == max_depth
                && r.instructions == instructions && r.timeout_ms == timeout_ms),
            command matches Commands::Extract { provider, include_images, timeout_ms, urls } ==> (invocation_of(command) matches Invocation::Extract(r)
                && r.urls == urls && r.provider == provider && r.include_images == Some(include_images)
                && r.timeout_ms == timeout_ms),
            command matches Commands::Search {
                query,
                provider,
                topic,
                max_results,
                search_depth,
                include_answer,
                include_raw_content,
                include_images,
                days,
                site_filter,
                exclude_domain,
                country,
                language,
                timeout_ms,
            } ==> (invocation_of(command) matches Invocation::Search(r) && r.query == query && r.provider == provider
                && r.topic == topic && r.max_results == max_results && r.search_depth == search_depth
                && r.include_answer == Some(include_answer) && r.include_raw_content == Some(include_raw_content)
                && r.include_images == Some(include_images) && r.days == days
                && (site_filter@.len() > 0 ==> r.site_filter == Some(site_filter))
                && (site_filter@.len() == 0 ==> r.site_filter is None)
                && (exclude_domain@.len() > 0 ==> r.exclude_domains == Some(exclude_domain))
                && (exclude_domain@.len() == 0 ==> r.exclude_domains is None)
                && r.country == country && r.language == language && r.timeout_ms == timeout_ms),
{
}

fn list_if_nonempty(v: Vec<String>) -> (r: Option<Vec<String>>)
    ensures
        r == nonempty_list(v),
{
    if v.len() > 0 {
        Some(v)
    } else {
        None
    }
}

impl Commands {
    /// What the command asks of the gateway.
    pub fn into_invocation(self) -> (inv: Invocation)
        ensures
            inv == invocation_of(self),
            self is Mcp ==> inv is Mcp,
            self is Status ==> inv is Status,
            self matches Commands::Crawl { provider, limit, max_depth, instructions, timeout_ms, url } ==> (inv matches Invocation::Crawl(r)
                && r.url == url && r.provider == provider && r.limit == limit && r.max_depth == max_depth
                && r.instructions == instructions && r.timeout_ms == timeout_ms),
            self matches Commands::Extract { provider, include_images, timeout_ms, urls } ==> (inv matches Invocation::Extract(r)
                && r.urls == urls && r.provider == provider && r.include_images == Some(include_images)
                && r.timeout_ms == timeout_ms),
            self matches Commands::Search {
                query,
                provider,
                topic,
                max_results,
                search_depth,
                include_answer,
                include_raw_content,
                include_images,
                days,
                site_filter,
                exclude_domain,
                country,
                language,
                timeout_ms,
            } ==> (inv matches Invocation::Search(r) && r.query == query && r.provider == provider
                && r.topic == topic && r.max_results == max_results && r.search_depth == search_depth
                && r.include_answer == Some(include_answer) && r.include_raw_content == Some(include_raw_content)
                && r.include_images == Some(include_images) && r.days == days
                && (site_filter@.len() > 0 ==> r.site_filter == Some(site_filter))
                && (site_filter@.len() == 0 ==> r.site_filter is None)
                && (exclude_domain@.len() > 0 ==> r.exclude_domains == Some(exclude_domain))
                && (exclude_domain@.len() == 0 ==> r.exclude_domains is None)
                && r.country == country && r.language == language && r.timeout_ms == timeout_ms),
    {
        proof {
            lemma_commands_carry_their_arguments(self);
        }
        match self {
            Commands::Mcp => Invocation::Mcp,
            Commands::Search {
                query,
                provider,
                topic,
                max_results,
                search_depth,
                include_answer,
                include_raw_content,
                include_images,
                days,
                site_filter,
                exclude_domain,
                country,
                language,
                timeout_ms,
            } => Invocation::Search(
                SearchRequest {
                    query,
                    provider,
                    topic,
                    max_results,
                    search_depth,
                    include_answer: Some(include_answer),
                    include_raw_content: Some(include_raw_content),
                    include_images: Some(include_images),
                    days,
                    site_filter: list_if_nonempty(site_filter),
                    exclude_domains: list_if_nonempty(exclude_domain),
                    country,
                    language,
                    timeout_ms,
                },
            ),
            Commands::Extract { provider, include_images, timeout_ms, urls } => Invocation::Extract(
                ExtractRequest { urls, provider, include_images: Some(include_images), timeout_ms },
            ),
            Commands::Crawl { provider, limit, max_depth, instructions, timeout_ms, url } => {
                Invocation::Crawl(CrawlRequest { url, provider, limit, max_depth, instructions, timeout_ms })
            },
            Commands::Status => Invocation::Status,
        }
    }
}

impl Cli {
    /// The output mode: the JSON envelope when `--json` is given.
    pub fn output_mode(&self) -> (mode: OutputMode)
        ensures
            mode == (if self.json {
                OutputMode::Json
            } else {
                OutputMode::Human
            }),
    {
        if self.json {
            OutputMode::Json
        } else {
            OutputMode::Human
        }
    }
}

} // verus!
