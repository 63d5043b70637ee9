# patent_hub

A patent search and innovation-validation service. It searches a local
patent database and online sources (CNIPR, SerpAPI, Google Patents,
Lens.org, Baidu, Sogou), fetches and enriches patent records, and runs an
AI-driven pipeline that scores the novelty of an idea against prior art.

The decisions of the service are written in Verus and proved against
their contracts; the web server around them is ordinary Rust.

## Layout

- `src/` — the verified library.
  - `routes/` — query planning, the online fallback order (`cascade`),
    readers of each source's replies (`sources`, `online`, `sogou`),
    result filtering, deduplication and export, configuration, legal
    status, uploads, the printable patent page.
  - `db/` — the plan of a local search, relevance scoring, stored
    versions.
  - `experiment/` — the sandboxed experiments of the pipeline and the
    metrics they report.
  - `pipeline/` — the steps of the validation pipeline, their order and
    the state they share.
  - `orchestrator/` — commands injected into a running pipeline, and what
    a run records.
  - `ai.rs`, `failover.rs`, `chat.rs` — prompts, token estimates, history
    compression, and provider failover.
  - `json.rs`, `text.rs` — the JSON model and the text operations the
    rest is stated over.
- `tests/` — tests of the library on concrete values.
- `app/` — the HTTP server: routes, database access, outside requests,
  the pipeline runner. It calls the library for every decision.

The public proof functions named `lemma_*` state the laws that hold
across functions, such as that the online search always ends with the
local database.

## Design notes

Where a step needs a set or a map of strings (the base numbers already
seen when deduplicating, the counts per applicant and country, the token
sets compared for similarity), the library keeps a `Vec` and scans it,
with the property it relies on (no key twice, first occurrence first) as
a loop invariant. The std `HashSet` and `HashMap` are specified for Verus
over their keys' hashing and equality, and with `String` keys almost
nothing about their contents can be proved; the vectors let the
contracts state exactly which items are kept, in which order, and what
each count is.

A regular-expression match hands back the byte offset where it ends; the
text after it is cut in verified code (`rest_from_byte`).
