use opentelemetry_proto::tonic::collector::metrics::v1::ExportMetricsServiceRequest;
use opentelemetry_proto::tonic::common::v1::any_value::Value as AnyKind;
use opentelemetry_proto::tonic::metrics::v1::metric::Data as ProtoData;
use opentelemetry_proto::tonic::metrics::v1::number_data_point::Value as PointValue;
use opentelemetry_proto::tonic::metrics::v1::AggregationTemporality as ProtoTemporality;
use opentelemetry_proto::tonic::metrics::v1::Metric as ProtoMetric;
use opentelemetry_sink::encoder::OtlpEncoder;
use opentelemetry_sink::event::Event;
use opentelemetry_sink::metric::{
    Bucket, Metric, MetricKind, MetricSketch, MetricTags, MetricValue, Quantile, Sample,
    SketchSummary, StatisticKind, TextSet,
};
use opentelemetry_sink::metrics::OtlpMetricNormalize;
use opentelemetry_sink::totals::MetricSet;
use opentelemetry_sink::value::{Double, Timestamp};
use prost::Message;

fn double(x: f64) -> Double {
    Double { bits: x.to_bits() }
}

fn now() -> Option<Timestamp> {
    Timestamp::new(1700000000, 123456789)
}

fn metric(name: &str, kind: MetricKind, value: MetricValue) -> Metric {
    Metric::new(name, kind, value).with_timestamp(now())
}

fn absolute(name: &str, value: MetricValue) -> Event {
    Event::Metric(metric(name, MetricKind::Absolute, value))
}

fn decode(events: Vec<Event>) -> ExportMetricsServiceRequest {
    let bytes = OtlpEncoder::new_default().encode_input(&mut MetricSet::new(), events);
    ExportMetricsServiceRequest::decode(bytes.as_slice()).unwrap()
}

fn only(request: &ExportMetricsServiceRequest, i: usize) -> &ProtoMetric {
    assert_eq!(request.resource_metrics[i].scope_metrics.len(), 1);
    let scope = &request.resource_metrics[i].scope_metrics[0];
    assert_eq!(scope.metrics.len(), 1);
    &scope.metrics[0]
}

fn samples(values: &[f64]) -> Vec<Sample> {
    values.iter().map(|v| Sample { value: double(*v), rate: 1 }).collect()
}

fn distribution(values: &[f64]) -> MetricValue {
    MetricValue::Distribution {
        samples: samples(values),
        statistic: StatisticKind::Histogram,
    }
}

fn sketch(count: u32, quantiles: [Option<f64>; 7]) -> MetricValue {
    MetricValue::Sketch {
        sketch: MetricSketch::AgentDDSketch(SketchSummary {
            count,
            sum: Some(double(15.0)),
            min: Some(double(1.0)),
            max: Some(double(5.0)),
            quantiles: quantiles.map(|q| q.map(double)),
        }),
    }
}

fn check_set_distribution_sketch() {
    let mut values = TextSet::new();
    values.insert("value1".to_string());
    values.insert("value2".to_string());
    values.insert("value3".to_string());
    let all = [Some(1.0), Some(2.0), Some(3.0), Some(4.0), Some(5.0), Some(5.0), Some(5.0)];
    let request = decode(vec![
        absolute("test_set", MetricValue::UniqueValues { values }),
        absolute("test_distribution", distribution(&[1.0, 5.0, 10.0])),
        absolute("test_sketch", sketch(5, all)),
    ]);
    assert_eq!(request.resource_metrics.len(), 3);

    let set = only(&request, 0);
    assert_eq!(set.name, "test_set");
    let Some(ProtoData::Gauge(gauge)) = &set.data else {
        panic!("Expected set to have Gauge data");
    };
    assert_eq!(gauge.data_points.len(), 1);
    assert_eq!(gauge.data_points[0].value, Some(PointValue::AsDouble(3.0)));

    let distribution = only(&request, 1);
    assert_eq!(distribution.name, "test_distribution");
    let Some(ProtoData::Histogram(hist)) = &distribution.data else {
        panic!("Expected distribution to have Histogram data");
    };
    assert_eq!(hist.data_points.len(), 1);
    assert_eq!(hist.data_points[0].count, 3);
    assert_eq!(hist.data_points[0].sum, Some(16.0));

    let sketch = only(&request, 2);
    assert_eq!(sketch.name, "test_sketch");
    let Some(ProtoData::Histogram(hist)) = &sketch.data else {
        panic!("Expected sketch to have Histogram data");
    };
    assert_eq!(hist.data_points.len(), 1);
    assert_eq!(hist.data_points[0].count, 5);
    assert_eq!(hist.data_points[0].sum, Some(15.0));
}

#[test]
fn encoder_test_set_distribution_sketch_metrics() {
    check_set_distribution_sketch();
}

#[test]
fn metrics_test_set_distribution_sketch_metrics() {
    check_set_distribution_sketch();
}

fn check_incremental() {
    let request = decode(vec![
        absolute("test_counter", MetricValue::Counter { value: double(42.0) }),
        Event::Metric(metric(
            "test_incremental",
            MetricKind::Incremental,
            MetricValue::Counter { value: double(10.0) },
        )),
    ]);
    assert_eq!(request.resource_metrics.len(), 2);
    for i in 0..2 {
        if let Some(ProtoData::Sum(sum)) = &only(&request, i).data {
            assert_eq!(sum.aggregation_temporality, ProtoTemporality::Cumulative as i32);
        } else {
            panic!("Expected a sum");
        }
    }
}

#[test]
fn encoder_test_incremental_metric_normalization() {
    check_incremental();
}

#[test]
fn metrics_test_incremental_metric_normalization() {
    check_incremental();
}

fn check_conversion() {
    let request = decode(vec![
        absolute("test_counter", MetricValue::Counter { value: double(42.0) }),
        absolute("test_gauge", MetricValue::Gauge { value: double(123.45) }),
        absolute(
            "test_histogram",
            MetricValue::AggregatedHistogram {
                buckets: vec![
                    Bucket { upper_limit: double(1.0), count: 5 },
                    Bucket { upper_limit: double(5.0), count: 10 },
                    Bucket { upper_limit: double(f64::INFINITY), count: 2 },
                ],
                count: 17,
                sum: double(25.5),
            },
        ),
    ]);
    assert_eq!(request.resource_metrics.len(), 3);

    let counter = only(&request, 0);
    assert_eq!(counter.name, "test_counter");
    let Some(ProtoData::Sum(sum)) = &counter.data else {
        panic!("Expected counter to have Sum data");
    };
    assert_eq!(sum.aggregation_temporality, ProtoTemporality::Cumulative as i32);
    assert!(sum.is_monotonic);
    assert_eq!(sum.data_points.len(), 1);

    let gauge = only(&request, 1);
    assert_eq!(gauge.name, "test_gauge");
    assert!(matches!(&gauge.data, Some(ProtoData::Gauge(_))));

    let histogram = only(&request, 2);
    assert_eq!(histogram.name, "test_histogram");
    let Some(ProtoData::Histogram(hist)) = &histogram.data else {
        panic!("Expected histogram to have Histogram data");
    };
    assert_eq!(hist.data_points.len(), 1);
    let point = &hist.data_points[0];
    assert_eq!(point.count, 17);
    assert_eq!(point.sum, Some(25.5));
    assert_eq!(point.explicit_bounds, vec![1.0, 5.0]);
    assert_eq!(point.bucket_counts, vec![5, 10, 2]);
}

#[test]
fn encoder_test_metrics_conversion() {
    check_conversion();
}

#[test]
fn metrics_test_metrics_conversion() {
    check_conversion();
}

#[test]
fn test_encode_metrics_counter() {
    let mut tags = MetricTags::new();
    tags.replace("host".to_string(), "example.com".to_string());
    tags.replace("environment".to_string(), "test".to_string());
    let metric = Metric::new(
        "test_counter",
        MetricKind::Incremental,
        MetricValue::Counter { value: double(42.0) },
    )
    .with_tags(Some(tags));
    let bytes = OtlpEncoder::new_default()
        .encode_metrics(&mut MetricSet::new(), vec![Event::Metric(metric)]).unwrap();
    assert!(!bytes.is_empty());
    let request = ExportMetricsServiceRequest::decode(bytes.as_slice()).unwrap();
    assert_eq!(request.resource_metrics.len(), 1);
    let otlp = only(&request, 0);
    assert_eq!(otlp.name, "test_counter");
    let Some(ProtoData::Sum(sum)) = &otlp.data else {
        panic!("Expected Sum metric data");
    };
    assert_eq!(sum.data_points.len(), 1);
    assert!(sum.is_monotonic);
    let point = &sum.data_points[0];
    assert_eq!(point.value, Some(PointValue::AsDouble(42.0)));
    assert_eq!(point.attributes.len(), 2);
    let host = point.attributes.iter().find(|attr| attr.key == "host").unwrap();
    assert_eq!(
        host.value.as_ref().unwrap().value,
        Some(AnyKind::StringValue("example.com".to_string()))
    );
    assert_eq!(point.time_unix_nano, 0);
}

#[test]
fn test_encode_metrics_gauge() {
    let metric = Metric::new(
        "test_gauge",
        MetricKind::Absolute,
        MetricValue::Gauge { value: double(123.5) },
    );
    let bytes = OtlpEncoder::new_default()
        .encode_metrics(&mut MetricSet::new(), vec![Event::Metric(metric)]).unwrap();
    let request = ExportMetricsServiceRequest::decode(bytes.as_slice()).unwrap();
    let otlp = only(&request, 0);
    assert_eq!(otlp.name, "test_gauge");
    let Some(ProtoData::Gauge(gauge)) = &otlp.data else {
        panic!("Expected Gauge metric data");
    };
    assert_eq!(gauge.data_points.len(), 1);
    assert_eq!(gauge.data_points[0].value, Some(PointValue::AsDouble(123.5)));
}

#[test]
fn test_encode_metrics_histogram() {
    let metric = Metric::new(
        "test_histogram",
        MetricKind::Absolute,
        MetricValue::AggregatedHistogram {
            buckets: vec![
                Bucket { upper_limit: double(1.0), count: 10 },
                Bucket { upper_limit: double(5.0), count: 25 },
                Bucket { upper_limit: double(f64::INFINITY), count: 30 },
            ],
            count: 30,
            sum: double(100.0),
        },
    );
    let bytes = OtlpEncoder::new_default()
        .encode_metrics(&mut MetricSet::new(), vec![Event::Metric(metric)]).unwrap();
    let request = ExportMetricsServiceRequest::decode(bytes.as_slice()).unwrap();
    let otlp = only(&request, 0);
    assert_eq!(otlp.name, "test_histogram");
    let Some(ProtoData::Histogram(histogram)) = &otlp.data else {
        panic!("Expected Histogram metric data");
    };
    assert_eq!(histogram.data_points.len(), 1);
    let point = &histogram.data_points[0];
    assert_eq!(point.count, 30);
    assert_eq!(point.sum, Some(100.0));
    assert_eq!(point.explicit_bounds, vec![1.0, 5.0]);
    assert_eq!(point.bucket_counts, vec![10, 25, 30]);
    assert_eq!(point.min, None);
    assert_eq!(point.max, None);
}

#[test]
fn distribution_counts_each_sample_in_all_buckets_that_hold_it() {
    let values = [0.05, 0.1, 1.0, 5.0, 10.0, 1e7, 2e7, f64::NAN, -3.0, f64::NEG_INFINITY];
    let request = decode(vec![absolute("d", distribution(&values))]);
    let Some(ProtoData::Histogram(histogram)) = &only(&request, 0).data else {
        panic!("Expected a histogram");
    };
    assert_eq!(histogram.aggregation_temporality, ProtoTemporality::Cumulative as i32);
    let point = &histogram.data_points[0];
    let bounds: Vec<f64> = (0..9).map(|i| 10_f64.powi(i - 1)).collect();
    assert_eq!(point.explicit_bounds, bounds);
    let mut expected: Vec<u64> = bounds
        .iter()
        .map(|bound| values.iter().filter(|v| *v <= bound).count() as u64)
        .collect();
    expected.push(values.len() as u64);
    assert_eq!(point.bucket_counts, expected);
    assert_eq!(point.bucket_counts, vec![4, 5, 7, 7, 7, 7, 7, 7, 8, 10]);
    assert_eq!(point.count, 10);
    assert_eq!(point.min, Some(f64::NEG_INFINITY));
    assert_eq!(point.max, Some(2e7));
    assert_eq!(point.start_time_unix_nano, 0);
    assert_eq!(point.time_unix_nano, 1700000000123456789);
}

#[test]
fn distribution_without_samples_has_infinite_extremes() {
    let request = decode(vec![absolute("d", distribution(&[]))]);
    let Some(ProtoData::Histogram(histogram)) = &only(&request, 0).data else {
        panic!("Expected a histogram");
    };
    let point = &histogram.data_points[0];
    assert_eq!(point.bucket_counts, vec![0; 10]);
    assert_eq!(point.count, 0);
    assert_eq!(point.sum, Some(0.0));
    assert_eq!(point.min, Some(f64::INFINITY));
    assert_eq!(point.max, Some(f64::NEG_INFINITY));
}

fn estimates(count: u32, present: [bool; 7]) -> Vec<u64> {
    let mut counts = Vec::new();
    let mut previous = 0.0;
    for (i, q) in [0.1, 0.25, 0.5, 0.75, 0.9, 0.95, 0.99].iter().enumerate() {
        if present[i] {
            counts.push(((q - previous) * count as f64) as u64);
            previous = *q;
        }
    }
    counts.push(((1.0 - previous) * count as f64) as u64);
    counts
}

#[test]
fn sketch_counts_are_the_estimates() {
    let counts = [
        0u32, 1, 2, 5, 9, 10, 19, 20, 99, 100, 101, 999, 1000, 12345, 99999, 1000000, 7777777,
        123456789, 2147483647, 4294967295, 4294967290, 3999999999,
    ];
    for count in counts {
        for mask in 0..128u32 {
            let present: [bool; 7] = std::array::from_fn(|i| mask & (1 << i) != 0);
            let quantiles = present.map(|there| if there { Some(2.5) } else { None });
            let request = decode(vec![absolute("s", sketch(count, quantiles))]);
            let Some(ProtoData::Histogram(histogram)) = &only(&request, 0).data else {
                panic!("Expected a histogram");
            };
            let point = &histogram.data_points[0];
            assert_eq!(point.bucket_counts, estimates(count, present), "{} {}", count, mask);
            assert_eq!(point.explicit_bounds.len() + 1, point.bucket_counts.len());
            assert!(point.bucket_counts.iter().sum::<u64>() <= count as u64);
            assert_eq!(point.count, count as u64);
            assert_eq!(point.min, Some(1.0));
            assert_eq!(point.max, Some(5.0));
        }
    }
}

#[test]
fn summary_is_decoded_as_it_was_encoded() {
    let request = decode(vec![absolute(
        "s",
        MetricValue::AggregatedSummary {
            quantiles: vec![
                Quantile { quantile: double(0.5), value: double(3.25) },
                Quantile { quantile: double(0.0), value: double(0.0) },
            ],
            count: 7,
            sum: double(-1.5),
        },
    )]);
    let Some(ProtoData::Summary(summary)) = &only(&request, 0).data else {
        panic!("Expected a summary");
    };
    let point = &summary.data_points[0];
    assert_eq!(point.count, 7);
    assert_eq!(point.sum, -1.5);
    assert_eq!(point.quantile_values.len(), 2);
    assert_eq!(point.quantile_values[0].quantile, 0.5);
    assert_eq!(point.quantile_values[0].value, 3.25);
    assert_eq!(point.quantile_values[1].quantile, 0.0);
    assert_eq!(point.quantile_values[1].value, 0.0);
}

#[test]
fn tags_with_several_values_become_several_attributes() {
    let mut tags = MetricTags::new();
    tags.set_values(
        "b".to_string(),
        vec![Some("1".to_string()), None, Some("2".to_string())],
    );
    tags.replace("a".to_string(), "x".to_string());
    let metric = Metric::new("m", MetricKind::Absolute, MetricValue::Gauge { value: double(1.0) })
        .with_tags(Some(tags));
    let request = decode(vec![Event::Metric(metric)]);
    let Some(ProtoData::Gauge(gauge)) = &only(&request, 0).data else {
        panic!("Expected a gauge");
    };
    let pairs: Vec<(String, Option<AnyKind>)> = gauge.data_points[0]
        .attributes
        .iter()
        .map(|kv| (kv.key.clone(), kv.value.as_ref().unwrap().value.clone()))
        .collect();
    let string = |s: &str| Some(AnyKind::StringValue(s.to_string()));
    assert_eq!(
        pairs,
        vec![
            ("a".to_string(), string("x")),
            ("b".to_string(), string("1")),
            ("b".to_string(), string("")),
            ("b".to_string(), string("2")),
        ]
    );
}

fn change(name: &str, value: MetricValue) -> Metric {
    metric(name, MetricKind::Incremental, value)
}

#[test]
fn changes_of_a_series_are_added_up() {
    let counter = |value: f64| MetricValue::Counter { value: double(value) };
    let mut tags = MetricTags::new();
    tags.replace("a".to_string(), "1".to_string());
    let request = decode(vec![
        Event::Metric(change("c", counter(10.0))),
        Event::Metric(change("d", counter(1.0))),
        Event::Metric(change("c", counter(5.0))),
        Event::Metric(change("c", counter(2.0)).with_tags(Some(tags))),
        absolute("c", counter(100.0)),
        Event::Metric(change("c", counter(0.5))),
        Event::Metric(change("c", MetricValue::Gauge { value: double(7.0) })),
        Event::Metric(change("c", MetricValue::Gauge { value: double(1.0) })),
    ]);
    assert_eq!(request.resource_metrics.len(), 8);
    let values: Vec<Option<PointValue>> = (0..8)
        .map(|i| match &only(&request, i).data {
            Some(ProtoData::Sum(sum)) => {
                assert_eq!(sum.aggregation_temporality, ProtoTemporality::Cumulative as i32);
                sum.data_points[0].value.clone()
            }
            Some(ProtoData::Gauge(gauge)) => gauge.data_points[0].value.clone(),
            _ => panic!("Expected a number"),
        })
        .collect();
    let expected: Vec<Option<PointValue>> = [10.0, 1.0, 15.0, 2.0, 100.0, 15.5, 7.0, 8.0]
        .iter()
        .map(|value| Some(PointValue::AsDouble(*value)))
        .collect();
    assert_eq!(values, expected);
}

#[test]
fn state_remembers_totals() {
    let mut state = MetricSet::new();
    let normalizer = OtlpMetricNormalize {};
    for (value, expected) in [(10.0, 10.0), (5.0, 15.0), (-20.0, -5.0)] {
        let counter = MetricValue::Counter { value: double(value) };
        let total = normalizer.normalize(&mut state, change("m", counter)).unwrap();
        assert_eq!(total.kind, MetricKind::Absolute);
        assert_eq!(total.name, "m");
        assert!(matches!(total.value, MetricValue::Counter { value } if value == double(expected)));
    }
}

#[test]
fn totals_go_on_between_batches() {
    let encoder = OtlpEncoder::new_default();
    let counter = |value: f64| {
        Event::Metric(change("c", MetricValue::Counter { value: double(value) }))
    };
    let mut state = MetricSet::new();
    let mut values = Vec::new();
    for batch in [vec![10.0, 5.0], vec![1.0], vec![2.0, 2.0]] {
        let events = batch.into_iter().map(counter).collect();
        let bytes = encoder.encode_input(&mut state, events);
        let request = ExportMetricsServiceRequest::decode(bytes.as_slice()).unwrap();
        for i in 0..request.resource_metrics.len() {
            let Some(ProtoData::Sum(sum)) = &only(&request, i).data else {
                panic!("Expected a sum");
            };
            values.push(sum.data_points[0].value.clone());
        }
    }
    let expected: Vec<Option<PointValue>> = [10.0, 15.0, 16.0, 18.0, 20.0]
        .iter()
        .map(|value| Some(PointValue::AsDouble(*value)))
        .collect();
    assert_eq!(values, expected);
}

#[test]
fn total_is_no_base_of_changes() {
    let mut state = MetricSet::new();
    let counter = |value: f64| MetricValue::Counter { value: double(value) };
    let total = metric("m", MetricKind::Absolute, counter(42.0));
    let total = state.make_absolute(total).unwrap();
    assert!(matches!(total.value, MetricValue::Counter { value } if value == double(42.0)));
    let total = state.make_absolute(change("m", counter(10.0))).unwrap();
    assert!(matches!(total.value, MetricValue::Counter { value } if value == double(10.0)));
}

#[test]
fn values_of_all_kinds_are_added() {
    let sum = |a: MetricValue, b: MetricValue| a.plus(&b);
    let set = |texts: &[&str]| {
        let mut values = TextSet::new();
        for text in texts {
            values.insert(text.to_string());
        }
        MetricValue::UniqueValues { values }
    };
    let Some(MetricValue::UniqueValues { values }) = sum(set(&["a", "c"]), set(&["b", "c"])) else {
        panic!("Expected a set");
    };
    assert_eq!((0..3).map(|i| values.member(i).as_str()).collect::<String>(), "abc");
    assert_eq!(values.len(), 3);
    let Some(MetricValue::Distribution { samples, .. }) =
        sum(distribution(&[1.0]), distribution(&[2.0, 3.0]))
    else {
        panic!("Expected a distribution");
    };
    assert_eq!(samples.len(), 3);
    assert_eq!(samples[2].value, double(3.0));
    let other = MetricValue::Distribution { samples: vec![], statistic: StatisticKind::Summary };
    assert!(sum(distribution(&[1.0]), other).is_none());
    let histogram = |limit: f64, count: u64| MetricValue::AggregatedHistogram {
        buckets: vec![
            Bucket { upper_limit: double(limit), count },
            Bucket { upper_limit: double(f64::INFINITY), count: 1 },
        ],
        count,
        sum: double(0.5),
    };
    let Some(MetricValue::AggregatedHistogram { buckets, count, sum: total }) =
        sum(histogram(0.0, 3), histogram(-0.0, u64::MAX))
    else {
        panic!("Expected a histogram");
    };
    assert_eq!(buckets[0].count, 3u64.wrapping_add(u64::MAX));
    assert_eq!(buckets[1].count, 2);
    assert_eq!(count, 2);
    assert_eq!(total, double(1.0));
    assert!(sum(histogram(1.0, 3), histogram(2.0, 3)).is_none());
    assert!(sum(histogram(f64::NAN, 3), histogram(f64::NAN, 3)).is_none());
    let gauge = MetricValue::Gauge { value: double(1.0) };
    assert!(sum(gauge.copy(), histogram(1.0, 1)).is_none());
    let summary = || MetricValue::AggregatedSummary {
        quantiles: vec![],
        count: 1,
        sum: double(1.0),
    };
    assert!(sum(summary(), summary()).is_none());
    assert!(sum(sketch(3, [None; 7]), sketch(3, [None; 7]).copy()).is_none());
}

#[test]
fn set_counts_its_members_once() {
    let mut values = TextSet::new();
    for text in ["b", "a", "b", "c", "a"] {
        values.insert(text.to_string());
    }
    assert_eq!(values.len(), 3);
    let request = decode(vec![absolute("s", MetricValue::UniqueValues { values })]);
    let Some(ProtoData::Gauge(gauge)) = &only(&request, 0).data else {
        panic!("Expected a gauge");
    };
    assert_eq!(gauge.data_points[0].value, Some(PointValue::AsDouble(3.0)));
}

#[test]
fn samples_are_added_in_their_order() {
    for values in [
        vec![0.1, 0.2, 0.3],
        vec![1e16, 1.0, -1e16],
        vec![f64::MAX, f64::MAX, -f64::MAX],
        vec![-0.0, -0.0],
    ] {
        let request = decode(vec![absolute("d", distribution(&values))]);
        let Some(ProtoData::Histogram(histogram)) = &only(&request, 0).data else {
            panic!("Expected a histogram");
        };
        let sum = values.iter().fold(0.0, |sum, value| sum + value);
        assert_eq!(histogram.data_points[0].sum.map(f64::to_bits), Some(f64::to_bits(sum)));
    }
}

#[test]
fn negative_zero_of_a_summary_is_left_out_as_zero() {
    let request = decode(vec![absolute(
        "s",
        MetricValue::AggregatedSummary { quantiles: vec![], count: 1, sum: double(-0.0) },
    )]);
    let Some(ProtoData::Summary(summary)) = &only(&request, 0).data else {
        panic!("Expected a summary");
    };
    assert_eq!(summary.data_points[0].sum.to_bits(), 0);
}

#[test]
fn metrics_payload_of_two_batches_is_the_two_payloads_in_a_row() {
    let encoder = OtlpEncoder::new_default();
    let event = |name: &str| absolute(name, MetricValue::Gauge { value: double(2.5) });
    let mut one = encoder
        .encode_metrics(&mut MetricSet::new(), vec![event("x"), event("y")]).unwrap();
    let two = encoder.encode_metrics(&mut MetricSet::new(), vec![event("z")]).unwrap();
    let both = encoder
        .encode_metrics(&mut MetricSet::new(), vec![event("x"), event("y"), event("z")]).unwrap();
    one.extend_from_slice(&two);
    assert_eq!(one, both);
}
