use vstd::prelude::*;
use crate::model::MetricKind;
use openmetrics_parser::{OpenMetricsType, PrometheusType};

verus! {

/// The family types of Prometheus text exposition, as the decoder gives them.
#[verifier::external_type_specification]
pub struct ExPrometheusType(PrometheusType);

/// The family types of OpenMetrics text exposition, as the decoder gives them.
#[verifier::external_type_specification]
pub struct ExOpenMetricsType(OpenMetricsType);

/// The kind of a Prometheus family.
pub open spec fn prometheus_kind_spec(t: PrometheusType) -> MetricKind {
    match t {
        PrometheusType::Counter => MetricKind::Counter,
        PrometheusType::Gauge => MetricKind::Gauge,
        PrometheusType::Histogram => MetricKind::Histogram,
        PrometheusType::Summary => MetricKind::Summary,
        PrometheusType::Unknown => MetricKind::Unknown,
    }
}

/// The kind of an OpenMetrics family: gauge histograms are histograms, state
/// sets are gauges, and info metrics have the unknown kind.
pub open spec fn openmetrics_kind_spec(t: OpenMetricsType) -> MetricKind {
    match t {
        OpenMetricsType::Counter => MetricKind::Counter,
        OpenMetricsType::Gauge => MetricKind::Gauge,
        OpenMetricsType::Histogram => MetricKind::Histogram,
        OpenMetricsType::GaugeHistogram => MetricKind::Histogram,
        OpenMetricsType::StateSet => MetricKind::Gauge,
        OpenMetricsType::Info => MetricKind::Unknown,
        OpenMetricsType::Summary => MetricKind::Summary,
        OpenMetricsType::Unknown => MetricKind::Unknown,
    }
}

/// The kind of a decoded Prometheus family.
pub fn prometheus_kind(t: &PrometheusType) -> (r: MetricKind)
    ensures
        r == prometheus_kind_spec(*t),
{
    match t {
        PrometheusType::Counter => MetricKind::Counter,
        PrometheusType::Gauge => MetricKind::Gauge,
        PrometheusType::Histogram => MetricKind::Histogram,
        PrometheusType::Summary => MetricKind::Summary,
        PrometheusType::Unknown => MetricKind::Unknown,
    }
}

/// The kind of a decoded OpenMetrics family.
pub fn openmetrics_kind(t: &OpenMetricsType) -> (r: MetricKind)
    ensures
        r == openmetrics_kind_spec(*t),
{
    match t {
        OpenMetricsType::Counter => MetricKind::Counter,
        OpenMetricsType::Gauge => MetricKind::Gauge,
        OpenMetricsType::Histogram => MetricKind::Histogram,
        OpenMetricsType::GaugeHistogram => MetricKind::Histogram,
        OpenMetricsType::StateSet => MetricKind::Gauge,
        OpenMetricsType::Info => MetricKind::Unknown,
        OpenMetricsType::Summary => MetricKind::Summary,
        OpenMetricsType::Unknown => MetricKind::Unknown,
    }
}

} // verus!
