# aparatkids

Resolution of AparatKids and Aparat links for a video downloader, verified
with Verus, and the bookkeeping of the fetch and download pipelines that use it.

- `src/aparatkids.rs`: which links are served, the API addresses, and what
  the Aparat API answers and the AparatKids pages say of a video.
- `src/json.rs`: JSON documents as plain values, read with `serde_json`.
- `src/pattern.rs`: regular expressions, through the `regex` crate.
- `src/text.rs`: search, trimming and decimal writing over characters.
- `src/counters.rs`: entries in flight per group, and when a group is cleaned up.
- `src/download_pipeline.rs`, `src/fetch_pipeline.rs`: the pipelines' requests,
  entries and the decisions of their workers.
- `app/`: HTTP requests, time limits, floating-point durations, and the
  workers that run the pipelines around an application host.
