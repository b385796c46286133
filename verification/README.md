# rpc_gateway

A gateway for JSON-RPC calls: it forwards each call to one of several upstream
providers, fails over and races providers, votes among their answers where that
matters, keeps answers for a while and shares one upstream call among identical
requests. What it decides is verified with Verus; what it does over the network
is ordinary Rust around that.

## Layout

- `src/`: the library. Verus proves that its functions keep their contracts.
  - `settings`: the configuration, its defaults and its bounds
  - `time`, `text`, `json`, `payload`: clocks, text, JSON documents, bodies and
    the keys of requests
  - `health`: what is known of a provider's health, and the circuit breaker
  - `gateway::method_policy`, `gateway::rpc`: which methods may be cached, and on
    which providers must agree
  - `gateway::cache`, `gateway::coalescing`: kept answers and requests under way
  - `gateway::adaptive`, `gateway::hedging`, `gateway::dispatch`: how widely to
    race, the races, and failover
  - `gateway::consensus`, `gateway::validation`: votes among answers
  - `gateway::predictive`, `gateway::headroom`, `gateway::cost`,
    `gateway::ranking`: what goes into a provider's score, and the ranking
  - `gateway::call`, `gateway::probe`, `gateway::response`, `gateway::reply`: what
    a call came to, and what the client is told
  - `gateway::engine`: the gateway as a whole
- `app/`: the server. It reads the configuration file, makes the HTTP calls, waits
  and races, and computes the scores, which are floating-point numbers.
- `tests/`: tests of the library.

## How the two parts work together

The library never waits. It is handed a request, the outcome of a call or the
expiry of a delay, and says what is to be done next; the server does it and
reports back. A request goes through `Gateway::execute_rpc`, then
`Gateway::dispatch_with_reliability` or
`Gateway::dispatch_with_consensus_validation`, and ends in
`Gateway::complete_request`.

Functions that read the clock have twins whose names end in `_at` and which take
the time as an argument.

Scores enter the library as integers that order them. Prices enter it the same
way, and request rates as numbers of requests within the window.
