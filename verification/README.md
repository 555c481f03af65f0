# search_gateway

A provider-agnostic search gateway, verified with Verus. It exposes search,
extraction and crawling through the Tavily-compatible API and DuckDuckGo, with
automatic provider ranking, health tracking with circuit breaking, retryable
fallback across providers, a timed cache of search responses, and a stable JSON
envelope (`{ "ok": ..., "data": ..., "error": ... }`).

## Layout

- `src/` is the verified library. Verus proves the contract of each of its
  functions, except the few trusted items that call outside code (the clock,
  `url`, `scraper`, `serde_json`, and `String::push`), whose contracts are
  assumed. The clock readings themselves carry no contract; the health store
  and the cache each keep the latest time they have seen and never read their
  clock below it, and the health store keeps, in ghost state, what happened to
  each provider, so that its answers are stated over that history:
  - `service.rs`: the gateway (check, cache, choose, fall back, record).
  - `strategy.rs`, `ranking.rs`: which providers a request goes to, in what order.
  - `fallback.rs`: the run across providers, step by step or as a whole.
  - `health.rs`, `cache.rs`, `clock.rs`: circuit breaking, the response cache,
    and the monotonic clock they read.
  - `tavily.rs`, `ddg.rs`, `http.rs`, `json.rs`: the rules of the built-in
    providers, from request bodies to the reading of replies and pages.
  - `models.rs`, `errors.rs`, `config.rs`, `registry.rs`, `status.rs`, `cli.rs`,
    `text.rs`: the data of the gateway and the text operations it needs.
- `app/` is the program around it: argument parsing, the configuration file,
  the HTTP exchanges, the MCP server over stdio, and printing.
- `tests/` holds the tests, run against the compiled library.

The laws of the library are public proof functions next to the types they
are about. For instance: for any failures, successes and checks of a provider
starting from a closed circuit, its penalty is the number of failures since the
last success, and it may be tried unless that number has reached the threshold
and the configured time since the last failure has not yet passed; or, a
failure that cannot be retried ends a fallback run.
