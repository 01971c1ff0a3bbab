# axon

An agent and LLM gateway library: configuration, model and route
resolution, a two-phase rate limiter, streaming decoders for OpenAI and
Anthropic answers, the agent generation loop, built-in tools and the HTTP
API's bodies. The library is written in Verus: each function carries a
contract, and the laws that tie functions together are proof functions.

Layout:

- `src/`: the verified library.
  - `window`, `rate_store`, `limiter`, `clock`: fixed windows, per-key
    state, the two-phase limiter and its clocks.
  - `config`, `models`, `error`: configuration, resource types and errors.
  - `gateway`, `provider`, `stream`: model tables, route selection,
    provider endpoints and the incremental stream decoders.
  - `runtime`: the generation loop and the accumulators of a run, as
    state machines.
  - `tools`, `web_search`: the built-in tools' decisions and answers.
  - `protocol`, `api`, `store`: request and response bodies, stored records.
  - `strmap`, `text`: a string-keyed map that keeps insertion order, and
    text helpers.
- `tests/`: tests of the library.
- `app/`: the server around it (HTTP, SQLite, upstream calls, file
  watching), which drives the library's state machines.
