//! Resolution of AparatKids and Aparat links, and the bookkeeping of the
//! fetch and download pipelines that use it.

pub mod json;
pub mod text;
pub mod pattern;
pub mod aparatkids;
pub mod counters;
pub mod download_pipeline;
pub mod fetch_pipeline;
