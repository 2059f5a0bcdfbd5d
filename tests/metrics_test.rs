use openmetrics_parser::{OpenMetricsType, PrometheusType, PrometheusValue};
use prometheus_scan::json::is_json_number;
use prometheus_scan::{
    append_decimal, append_json_string, openmetrics_kind, prometheus_kind, extract_source, file_outcome, http_outcome, is_url,
    labels_json, project, project_value, Bucket, FetchError, MetricFamily, MetricKind,
    MetricSample, MetricValue, Number, OutputRow, PrometheusVTab, Quantile, RowValue, ScanError,
    ScanState,
};

fn num(x: f64) -> Number {
    Number { bits: x.to_bits(), text: format!("{}", x) }
}

fn labels(pairs: &[(&str, &str)]) -> Vec<(String, String)> {
    pairs.iter().map(|(k, v)| (k.to_string(), v.to_string())).collect()
}

fn family(name: &str, kind: MetricKind, samples: Vec<MetricSample>) -> MetricFamily {
    MetricFamily { name: name.to_string(), kind, unit: String::new(), samples }
}

fn sample(ls: &[(&str, &str)], timestamp: Option<u64>, value: MetricValue) -> MetricSample {
    MetricSample { labels: labels(ls), timestamp, value }
}

fn scalar(r: &OutputRow) -> f64 {
    match &r.value {
        RowValue::Scalar(n) => f64::from_bits(n.bits),
        RowValue::Mean { sum, count } => f64::from_bits(sum.bits) / *count as f64,
        RowValue::Zero => 0.0,
    }
}

#[test]
fn test_parser() {
    println!("Hello, world!");
}

#[test]
fn source_of_url_is_host_and_port() {
    assert_eq!(extract_source("https://host.example:9100/metrics"), "host.example:9100");
    assert_eq!(extract_source("http://localhost:8888/actuator/prometheus"), "localhost:8888");
    assert_eq!(extract_source("http://example.org"), "example.org");
}

#[test]
fn source_of_path_is_the_path() {
    assert_eq!(extract_source("/tmp/metrics.txt"), "/tmp/metrics.txt");
    assert_eq!(extract_source(""), "");
    assert_eq!(extract_source("ftp://x/y"), "ftp://x/y");
}

#[test]
fn url_detection() {
    assert!(is_url("http://a"));
    assert!(is_url("https://a/b"));
    assert!(!is_url("/tmp/http://a"));
    assert!(!is_url("http:/a"));
}

#[test]
fn gauge_sample_end_to_end() {
    let fams = vec![family(
        "foo",
        MetricKind::Gauge,
        vec![sample(&[("a", "1")], None, MetricValue::Gauge(num(5.0)))],
    )];
    let rows = project(&fams, "src", 1_000_000);
    assert_eq!(rows.len(), 1);
    let r = &rows[0];
    assert_eq!(r.metric_name, "foo");
    assert_eq!(r.metric_type, "gauge");
    assert_eq!(scalar(r), 5.0);
    assert_eq!(r.labels.as_deref(), Some(r#"{"a":"1"}"#));
    assert_eq!(r.details, None);
    assert_eq!(r.source, "src");
    assert_eq!(r.timestamp, 1_000_000);
    assert_eq!(r.unit, "");
}

#[test]
fn rows_follow_family_then_sample_order() {
    let fams = vec![
        family(
            "a",
            MetricKind::Counter,
            vec![
                sample(&[("k", "1")], Some(7), MetricValue::Counter(num(1.5))),
                sample(&[("k", "2")], None, MetricValue::Counter(num(2.5))),
            ],
        ),
        family("empty", MetricKind::Gauge, vec![]),
        family("b", MetricKind::Untyped, vec![sample(&[], None, MetricValue::Untyped(num(-3.0)))]),
    ];
    let rows = project(&fams, "s", 42);
    assert_eq!(rows.len(), 3);
    assert_eq!(rows[0].metric_name, "a");
    assert_eq!(rows[0].timestamp, 7);
    assert_eq!(scalar(&rows[0]), 1.5);
    assert_eq!(rows[1].metric_name, "a");
    assert_eq!(rows[1].timestamp, 42);
    assert_eq!(scalar(&rows[1]), 2.5);
    assert_eq!(rows[2].metric_name, "b");
    assert_eq!(rows[2].metric_type, "untyped");
    assert_eq!(scalar(&rows[2]), -3.0);
    assert_eq!(rows[2].labels, None);
}

#[test]
fn no_families_give_no_rows() {
    assert!(project(&vec![], "s", 0).is_empty());
}

#[test]
fn scalar_kinds_keep_the_raw_number() {
    for v in [
        MetricValue::Unknown(num(0.25)),
        MetricValue::Untyped(num(0.25)),
        MetricValue::Gauge(num(0.25)),
        MetricValue::Counter(num(0.25)),
    ] {
        let (value, details) = project_value(&v);
        match value {
            RowValue::Scalar(n) => {
                assert_eq!(n.bits, 0.25f64.to_bits());
                assert_eq!(n.text, "0.25");
            }
            _ => panic!("not a scalar"),
        }
        assert_eq!(details, None);
    }
}

#[test]
fn histogram_without_observations_is_zero() {
    let v = MetricValue::Histogram { count: None, sum: None, buckets: vec![] };
    let (value, details) = project_value(&v);
    assert!(matches!(value, RowValue::Zero));
    assert_eq!(details.as_deref(), Some(r#"{"count":0, "sum":0}"#));
}

#[test]
fn histogram_mean_and_buckets() {
    let v = MetricValue::Histogram {
        count: Some(4),
        sum: Some(num(10.0)),
        buckets: vec![
            Bucket { upper_bound: num(0.5), count: num(1.0) },
            Bucket { upper_bound: num(f64::INFINITY), count: num(4.0) },
        ],
    };
    let (value, details) = project_value(&v);
    match value {
        RowValue::Mean { sum, count } => {
            assert_eq!(count, 4);
            assert_eq!(f64::from_bits(sum.bits) / count as f64, 2.5);
        }
        _ => panic!("not a mean"),
    }
    assert_eq!(
        details.as_deref(),
        Some(
            r#"{"count":4, "sum":10, "buckets":[{"upper_bound":0.5, "count":1},{"upper_bound":"inf", "count":4}]}"#
        )
    );
}

#[test]
fn summary_mean_and_quantiles() {
    let v = MetricValue::Summary {
        count: Some(3),
        sum: Some(num(1.5)),
        quantiles: vec![
            Quantile { quantile: num(0.5), value: num(0.4) },
            Quantile { quantile: num(0.99), value: num(0.9) },
        ],
    };
    let fams = vec![family("lat", MetricKind::Summary, vec![sample(&[], Some(9), v)])];
    let rows = project(&fams, "s", 0);
    assert_eq!(rows.len(), 1);
    assert_eq!(rows[0].metric_type, "summary");
    assert_eq!(scalar(&rows[0]), 0.5);
    assert_eq!(
        rows[0].details.as_deref(),
        Some(
            r#"{"count":3, "sum":1.5, "quantiles":[{"quantile":0.5, "value":0.4},{"quantile":0.99, "value":0.9}]}"#
        )
    );
}

#[test]
fn summary_with_count_zero_is_zero() {
    let v = MetricValue::Summary { count: Some(0), sum: Some(num(7.0)), quantiles: vec![] };
    let (value, details) = project_value(&v);
    assert!(matches!(value, RowValue::Zero));
    assert_eq!(details.as_deref(), Some(r#"{"count":0, "sum":7}"#));
}

#[test]
fn labels_absent_only_when_empty() {
    assert_eq!(labels_json(&vec![]), None);
    assert_eq!(
        labels_json(&labels(&[("a", "1"), ("b", "two")])).as_deref(),
        Some(r#"{"a":"1","b":"two"}"#)
    );
}

#[test]
fn labels_are_escaped() {
    let text = labels_json(&labels(&[("q\"k", "back\\slash\nline\u{1}")])).unwrap();
    assert_eq!(text, r#"{"q\"k":"back\\slash\u000aline\u0001"}"#);
}

#[test]
fn json_string_escapes() {
    let mut out = String::from("x=");
    append_json_string(&mut out, "é\"");
    assert_eq!(out, "x=\"é\\\"\"");
}

#[test]
fn decimal_rendering() {
    let mut out = String::new();
    append_decimal(&mut out, 0);
    out.push(' ');
    append_decimal(&mut out, 1907);
    out.push(' ');
    append_decimal(&mut out, u64::MAX);
    assert_eq!(out, "0 1907 18446744073709551615");
}

#[test]
fn bind_derives_source() {
    let p = PrometheusVTab::bind("https://host.example:9100/metrics".to_string(), String::new());
    assert_eq!(p.url, "https://host.example:9100/metrics");
    assert_eq!(p.source.as_deref(), Some("host.example:9100"));
    let q = PrometheusVTab::bind("/tmp/m.txt".to_string(), "mine".to_string());
    assert_eq!(q.source.as_deref(), Some("mine"));
}

#[test]
fn scan_delivers_once() {
    let params = PrometheusVTab::bind("/tmp/m.txt".to_string(), String::new());
    let mut init = PrometheusVTab::init();
    assert!(init.needs_scrape());
    let fams = vec![family(
        "foo",
        MetricKind::Gauge,
        vec![sample(&[], None, MetricValue::Gauge(num(1.0)))],
    )];
    let rows = PrometheusVTab::func(&mut init, &params, Ok(fams), 5).ok().unwrap();
    assert_eq!(rows.len(), 1);
    assert_eq!(rows[0].source, "/tmp/m.txt");
    assert_eq!(init.state, ScanState::Delivered);
    assert!(!init.needs_scrape());
    let again = vec![family(
        "bar",
        MetricKind::Gauge,
        vec![sample(&[], None, MetricValue::Gauge(num(2.0)))],
    )];
    let rows = PrometheusVTab::func(&mut init, &params, Ok(again), 6).ok().unwrap();
    assert!(rows.is_empty());
    let rows = PrometheusVTab::func(&mut init, &params, Err(ScanError::Decode("x".into())), 7)
        .ok()
        .unwrap();
    assert!(rows.is_empty());
}

#[test]
fn scan_error_leaves_scan_pending() {
    let params = PrometheusVTab::bind("/nope".to_string(), String::new());
    let mut init = PrometheusVTab::init();
    let err = ScanError::Fetch(FetchError::NotFound("/nope".to_string()));
    match PrometheusVTab::func(&mut init, &params, Err(err), 0) {
        Err(ScanError::Fetch(FetchError::NotFound(p))) => assert_eq!(p, "/nope"),
        _ => panic!("expected the fetch error"),
    }
    assert_eq!(init.state, ScanState::Pending);
}

#[test]
fn missing_file_is_not_found() {
    match file_outcome("/does/not/exist", None) {
        Err(FetchError::NotFound(p)) => assert_eq!(p, "/does/not/exist"),
        _ => panic!("expected NotFound"),
    }
    assert!(matches!(file_outcome("/f", Some("x 1".to_string())), Ok(t) if t == "x 1"));
}

#[test]
fn http_status_outcome() {
    assert!(matches!(http_outcome(500, Ok("oops".to_string())), Err(FetchError::HttpStatus(500))));
    assert!(matches!(http_outcome(404, Ok(String::new())), Err(FetchError::HttpStatus(404))));
    assert!(matches!(http_outcome(199, Ok(String::new())), Err(FetchError::HttpStatus(199))));
    assert!(matches!(http_outcome(200, Ok("m 1".to_string())), Ok(t) if t == "m 1"));
    assert!(matches!(http_outcome(299, Ok(String::new())), Ok(_)));
    let failed = http_outcome(200, Err(FetchError::NetworkFailure("reset".to_string())));
    assert!(matches!(failed, Err(FetchError::NetworkFailure(m)) if m == "reset"));
}

#[test]
fn error_messages() {
    assert_eq!(
        ScanError::Fetch(FetchError::HttpStatus(500)).message(),
        "Failed to fetch metrics text with status: 500"
    );
    assert_eq!(
        ScanError::Fetch(FetchError::NotFound("/x".to_string())).message(),
        "Metrics file not found: /x"
    );
    assert_eq!(ScanError::Decode("bad line".to_string()).message(), "Failed to parse metrics text: bad line");
}

#[test]
fn labels_keep_pair_order() {
    let text = labels_json(&labels(&[("zone", "b"), ("app", "api"), ("le", "0.5")])).unwrap();
    assert_eq!(text, r#"{"zone":"b","app":"api","le":"0.5"}"#);
}

#[test]
fn histogram_row_of_a_family() {
    let v = MetricValue::Histogram {
        count: Some(2),
        sum: Some(num(3.0)),
        buckets: vec![Bucket { upper_bound: num(1.0), count: num(2.0) }],
    };
    let fams = vec![family("h", MetricKind::Histogram, vec![sample(&[("x", "y")], Some(11), v)])];
    let rows = project(&fams, "host:1", 99);
    assert_eq!(rows.len(), 1);
    assert_eq!(rows[0].metric_type, "histogram");
    assert_eq!(scalar(&rows[0]), 1.5);
    assert_eq!(rows[0].timestamp, 11);
    assert_eq!(rows[0].labels.as_deref(), Some(r#"{"x":"y"}"#));
    assert_eq!(
        rows[0].details.as_deref(),
        Some(r#"{"count":2, "sum":3, "buckets":[{"upper_bound":1, "count":2}]}"#)
    );
}

#[test]
fn decoded_gauge_text_gives_one_row() {
    let text = "# TYPE foo gauge\nfoo{a=\"1\"} 5\n";
    let exposition = openmetrics_parser::prometheus::parse_prometheus(text).unwrap();
    let mut fams = Vec::new();
    for (name, f) in &exposition.families {
        assert_eq!(f.family_type, PrometheusType::Gauge);
        let samples = f
            .iter_samples()
            .map(|s| {
                let ls = s.get_labelset().unwrap();
                let value = match &s.value {
                    PrometheusValue::Gauge(n) => MetricValue::Gauge(num(n.as_f64())),
                    _ => panic!("not a gauge"),
                };
                MetricSample {
                    labels: ls.iter().map(|(k, v)| (k.clone(), v.clone())).collect(),
                    timestamp: None,
                    value,
                }
            })
            .collect();
        fams.push(MetricFamily { name: name.clone(), kind: MetricKind::Gauge, unit: f.unit.clone(), samples });
    }
    let rows = project(&fams, "file", 1);
    assert_eq!(rows.len(), 1);
    assert_eq!(rows[0].metric_name, "foo");
    assert_eq!(rows[0].metric_type, "gauge");
    assert_eq!(scalar(&rows[0]), 5.0);
    assert_eq!(rows[0].labels.as_deref(), Some(r#"{"a":"1"}"#));
    assert_eq!(rows[0].details, None);
}

#[test]
fn decoder_types_map_to_kinds() {
    assert_eq!(prometheus_kind(&PrometheusType::Counter), MetricKind::Counter);
    assert_eq!(prometheus_kind(&PrometheusType::Summary), MetricKind::Summary);
    assert_eq!(prometheus_kind(&PrometheusType::Unknown), MetricKind::Unknown);
    assert_eq!(openmetrics_kind(&OpenMetricsType::GaugeHistogram), MetricKind::Histogram);
    assert_eq!(openmetrics_kind(&OpenMetricsType::StateSet), MetricKind::Gauge);
    assert_eq!(openmetrics_kind(&OpenMetricsType::Info), MetricKind::Unknown);
    assert_eq!(MetricKind::Untyped.name(), "untyped");
    assert_eq!(MetricKind::Histogram.name(), "histogram");
}

#[test]
fn non_numeric_texts_become_json_strings() {
    let v = MetricValue::Histogram {
        count: Some(1),
        sum: Some(num(f64::NAN)),
        buckets: vec![Bucket { upper_bound: num(f64::NEG_INFINITY), count: num(1.0) }],
    };
    let (_, details) = project_value(&v);
    assert_eq!(
        details.as_deref(),
        Some(r#"{"count":1, "sum":"NaN", "buckets":[{"upper_bound":"-inf", "count":1}]}"#)
    );
}

#[test]
fn json_number_tokens() {
    for t in ["0", "-0", "12", "1.5", "-0.25", "100000000000000000000"] {
        assert!(is_json_number(t), "{}", t);
    }
    for t in ["", "-", "01", "1.", ".5", "inf", "-inf", "NaN", "1e5", "1.2.3", "--1", "+1"] {
        assert!(!is_json_number(t), "{}", t);
    }
}

#[test]
fn nul_in_a_name_fails_the_scan_and_keeps_it_pending() {
    let params = PrometheusVTab::bind("/tmp/m.txt".to_string(), String::new());
    let mut init = PrometheusVTab::init();
    let bad = vec![family(
        "fo\0o",
        MetricKind::Gauge,
        vec![sample(&[], None, MetricValue::Gauge(num(1.0)))],
    )];
    assert!(matches!(PrometheusVTab::func(&mut init, &params, Ok(bad), 1), Err(ScanError::Encoding)));
    assert_eq!(init.state, ScanState::Pending);
    let mut unit_bad = family("foo", MetricKind::Gauge, vec![]);
    unit_bad.unit = "s\0".to_string();
    assert!(matches!(
        PrometheusVTab::func(&mut init, &params, Ok(vec![unit_bad]), 1),
        Err(ScanError::Encoding)
    ));
    assert_eq!(init.state, ScanState::Pending);
    let good = vec![family(
        "foo",
        MetricKind::Gauge,
        vec![sample(&[("k", "a\0b")], None, MetricValue::Gauge(num(1.0)))],
    )];
    let rows = PrometheusVTab::func(&mut init, &params, Ok(good), 1).ok().unwrap();
    assert_eq!(rows.len(), 1);
    assert_eq!(rows[0].labels.as_deref(), Some(r#"{"k":"a\u0000b"}"#));
    assert_eq!(init.state, ScanState::Delivered);
}

#[test]
fn nul_in_the_source_fails_the_scan() {
    let params = PrometheusVTab::bind("/tmp/m.txt".to_string(), "a\0".to_string());
    let mut init = PrometheusVTab::init();
    let fams = vec![family("foo", MetricKind::Gauge, vec![])];
    assert!(matches!(PrometheusVTab::func(&mut init, &params, Ok(fams), 1), Err(ScanError::Encoding)));
    assert_eq!(init.state, ScanState::Pending);
    assert_eq!(ScanError::Encoding.message(), "Failed to encode metrics: a text holds a NUL character");
    assert_eq!(
        ScanError::Fetch(FetchError::ReadFailure("denied".to_string())).message(),
        "Failed to read metrics file: denied"
    );
}
