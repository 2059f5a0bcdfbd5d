//! Metrics exposition text projected into relational rows.
pub mod dialect;
pub mod fetch;
pub mod json;
pub mod model;
pub mod project;
pub mod prometheus;
pub mod source;

pub use dialect::{openmetrics_kind, prometheus_kind};
pub use fetch::{file_outcome, http_outcome, FetchError, ScanError};
pub use json::{append_decimal, append_json_string, lemma_string_body_round_trip, lemma_string_round_trip};
pub use model::{
    Bucket, MetricFamily, MetricKind, MetricSample, MetricValue, Number, OutputRow, Quantile,
    RowValue,
};
pub use project::{labels_json, lemma_labels_round_trip, project, project_sample, project_value};
pub use prometheus::{
    lemma_exhausted_after_success, PrometheusInitData, PrometheusParams, PrometheusVTab,
    ScanState,
};
pub use source::{extract_source, is_url};
