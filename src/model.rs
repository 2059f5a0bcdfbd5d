use vstd::prelude::*;

verus! {

/// A number read from exposition text: the bit pattern of its binary64 value
/// and the shortest decimal text that reads back as that value.
pub struct Number {
    pub bits: u64,
    pub text: String,
}

impl Number {
    /// The number zero.
    pub fn zero() -> (r: Number)
        ensures
            r.bits == 0,
            r.text@ == "0"@,
    {
        Number { bits: 0, text: String::from_str("0") }
    }

    /// An equal copy.
    pub fn copy(&self) -> (r: Number)
        ensures
            r == *self,
    {
        Number { bits: self.bits, text: self.text.clone() }
    }
}

/// The kind of a metric family.
#[derive(Clone, Copy, Debug, PartialEq, Eq, Structural)]
pub enum MetricKind {
    Counter,
    Gauge,
    Histogram,
    Summary,
    Untyped,
    Unknown,
}

/// The canonical lower-case name of a kind.
pub open spec fn kind_name(k: MetricKind) -> Seq<char> {
    match k {
        MetricKind::Counter => "counter"@,
        MetricKind::Gauge => "gauge"@,
        MetricKind::Histogram => "histogram"@,
        MetricKind::Summary => "summary"@,
        MetricKind::Untyped => "untyped"@,
        MetricKind::Unknown => "unknown"@,
    }
}

impl MetricKind {
    /// The canonical lower-case name of this kind.
    pub fn name(&self) -> (r: String)
        ensures
            r@ == kind_name(*self),
    {
        match self {
            MetricKind::Counter => String::from_str("counter"),
            MetricKind::Gauge => String::from_str("gauge"),
            MetricKind::Histogram => String::from_str("histogram"),
            MetricKind::Summary => String::from_str("summary"),
            MetricKind::Untyped => String::from_str("untyped"),
            MetricKind::Unknown => String::from_str("unknown"),
        }
    }
}

/// One histogram bucket: its upper bound and the count of observations up to it.
pub struct Bucket {
    pub upper_bound: Number,
    pub count: Number,
}

/// One summary quantile and its value.
pub struct Quantile {
    pub quantile: Number,
    pub value: Number,
}

/// The value of a sample, by metric kind.
pub enum MetricValue {
    Unknown(Number),
    Untyped(Number),
    Gauge(Number),
    Counter(Number),
    Histogram { count: Option<u64>, sum: Option<Number>, buckets: Vec<Bucket> },
    Summary { count: Option<u64>, sum: Option<Number>, quantiles: Vec<Quantile> },
}

/// One observed value with its label pairs and optional timestamp.
pub struct MetricSample {
    pub labels: Vec<(String, String)>,
    pub timestamp: Option<u64>,
    pub value: MetricValue,
}

/// A named group of samples of one kind and unit.
pub struct MetricFamily {
    pub name: String,
    pub kind: MetricKind,
    pub unit: String,
    pub samples: Vec<MetricSample>,
}

/// How the `value` column of a row is obtained.
pub enum RowValue {
    /// The sample's own number.
    Scalar(Number),
    /// `sum / count`, with `count > 0`.
    Mean { sum: Number, count: u64 },
    /// Zero, for a histogram or summary without observations.
    Zero,
}

/// One relational row, projected from one sample.
pub struct OutputRow {
    pub metric_name: String,
    pub metric_type: String,
    pub value: RowValue,
    pub unit: String,
    pub labels: Option<String>,
    pub source: String,
    pub timestamp: u64,
    pub details: Option<String>,
}

} // verus!
