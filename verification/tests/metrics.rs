use prometheus_metric_storage::error::StorageError;
use prometheus_metric_storage::group::MetricGroup;
use prometheus_metric_storage::labels::ConstLabels;
use prometheus_metric_storage::metric::{Handle, Metric, MetricOpts};
use prometheus_metric_storage::schema::{FieldSpec, MetricGroupSchema, MetricKind, Number};

const KINDS: [MetricKind; 6] = [
    MetricKind::Counter,
    MetricKind::Gauge,
    MetricKind::Histogram,
    MetricKind::CounterVec,
    MetricKind::GaugeVec,
    MetricKind::HistogramVec,
];

const NUMBERS: [Number; 2] = [Number::Float, Number::Integer];

fn labels(pairs: &[(&str, &str)]) -> ConstLabels {
    let mut labels = ConstLabels::new();
    for (name, value) in pairs {
        labels.insert(name.to_string(), value.to_string());
    }
    labels
}

fn opts(name: &str, help: &str, consts: &[(&str, &str)], vars: &[&str]) -> MetricOpts {
    MetricOpts {
        name: name.to_string(),
        help: help.to_string(),
        const_labels: labels(consts),
        variable_labels: vars.iter().map(|l| l.to_string()).collect(),
        buckets: None,
    }
}

fn init(kind: MetricKind, name: &str, help: &str, consts: &[(&str, &str)], vars: &[&str]) -> Result<Metric, StorageError> {
    Metric::init(kind, Number::Integer, opts(name, help, consts, vars))
}

fn is_vec(kind: MetricKind) -> bool {
    matches!(kind, MetricKind::CounterVec | MetricKind::GaugeVec | MetricKind::HistogramVec)
}

fn bounds(values: Vec<f64>) -> Option<prometheus::HistogramOpts> {
    Some(prometheus::HistogramOpts::new("unused", "unused").buckets(values))
}

fn with_bounds(name: &str, vars: &[&str], values: Vec<f64>) -> MetricOpts {
    let mut opts = opts(name, "help", &[], vars);
    opts.buckets = bounds(values);
    opts
}

#[test]
fn every_kind_is_created_from_plain_options() {
    for kind in KINDS {
        for number in NUMBERS {
            let metric = Metric::init(kind, number, opts("requests", "help", &[("endpoint", "a")], &[])).unwrap();
            assert_eq!(metric.kind(), kind);
            assert_eq!(metric.handle.kind(), kind);
        }
    }
}

#[test]
fn handle_is_of_the_kind_and_number_asked_for() {
    let handle = |kind, number| Metric::init(kind, number, opts("m", "help", &[], &[])).unwrap().handle;
    assert!(matches!(handle(MetricKind::Counter, Number::Float), Handle::Counter(_)));
    assert!(matches!(handle(MetricKind::Counter, Number::Integer), Handle::IntCounter(_)));
    assert!(matches!(handle(MetricKind::Gauge, Number::Float), Handle::Gauge(_)));
    assert!(matches!(handle(MetricKind::Gauge, Number::Integer), Handle::IntGauge(_)));
    assert!(matches!(handle(MetricKind::Histogram, Number::Float), Handle::Histogram(_)));
    assert!(matches!(handle(MetricKind::Histogram, Number::Integer), Handle::Histogram(_)));
    assert!(matches!(handle(MetricKind::CounterVec, Number::Float), Handle::CounterVec(_)));
    assert!(matches!(handle(MetricKind::CounterVec, Number::Integer), Handle::IntCounterVec(_)));
    assert!(matches!(handle(MetricKind::GaugeVec, Number::Float), Handle::GaugeVec(_)));
    assert!(matches!(handle(MetricKind::GaugeVec, Number::Integer), Handle::IntGaugeVec(_)));
    assert!(matches!(handle(MetricKind::HistogramVec, Number::Float), Handle::HistogramVec(_)));
    assert!(matches!(handle(MetricKind::HistogramVec, Number::Integer), Handle::HistogramVec(_)));
}

#[test]
fn accessors_give_the_handle_of_their_kind_only() {
    let metric = |kind, number| Metric::init(kind, number, opts("m", "help", &[], &[])).unwrap();
    let counter = metric(MetricKind::Counter, Number::Float);
    counter.as_counter().unwrap().handle.inc_by(1.5);
    assert_eq!(counter.as_counter().unwrap().handle.get(), 1.5);
    assert!(counter.as_int_counter().is_none() && counter.as_gauge().is_none());
    let gauge = metric(MetricKind::Gauge, Number::Float);
    gauge.as_gauge().unwrap().handle.set(-2.5);
    assert_eq!(gauge.as_gauge().unwrap().handle.get(), -2.5);
    assert!(gauge.as_int_gauge().is_none() && gauge.as_counter().is_none());
    let gauge = metric(MetricKind::Gauge, Number::Integer);
    gauge.as_int_gauge().unwrap().handle.set(-2);
    assert_eq!(gauge.as_int_gauge().unwrap().handle.get(), -2);
    assert!(gauge.as_gauge().is_none() && gauge.as_histogram().is_none());
    let histogram = metric(MetricKind::Histogram, Number::Float);
    histogram.as_histogram().unwrap().observe(1.0);
    assert_eq!(histogram.as_histogram().unwrap().get_sample_count(), 1);
    assert!(histogram.as_histogram_vec().is_none());
    let vector = metric(MetricKind::CounterVec, Number::Float);
    assert!(vector.as_counter_vec().is_some() && vector.as_int_counter_vec().is_none());
    let vector = metric(MetricKind::CounterVec, Number::Integer);
    assert!(vector.as_int_counter_vec().is_some() && vector.as_counter_vec().is_none());
    let vector = metric(MetricKind::GaugeVec, Number::Float);
    assert!(vector.as_gauge_vec().is_some() && vector.as_int_gauge_vec().is_none());
    let vector = metric(MetricKind::GaugeVec, Number::Integer);
    assert!(vector.as_int_gauge_vec().is_some() && vector.as_gauge_vec().is_none());
    let vector = metric(MetricKind::HistogramVec, Number::Float);
    assert!(vector.as_histogram_vec().is_some() && vector.as_histogram().is_none());
}

#[test]
fn metric_holds_the_options_it_was_created_from() {
    for kind in KINDS {
        let vars: &[&str] = if is_vec(kind) { &["status", "method"] } else { &[] };
        let mut given = opts("requests", "Requests served.", &[("endpoint", "a"), ("region", "eu")], vars);
        given.buckets = bounds(vec![1.0, 2.0]);
        let metric = Metric::init(kind, Number::Float, given).unwrap();
        assert_eq!(metric.opts.name, "requests");
        assert_eq!(metric.opts.help, "Requests served.");
        assert_eq!(metric.opts.const_labels.len(), 2);
        assert_eq!(metric.opts.const_labels.get("endpoint").unwrap(), "a");
        assert_eq!(metric.opts.const_labels.get("region").unwrap(), "eu");
        assert_eq!(metric.opts.variable_labels, vars.iter().map(|v| v.to_string()).collect::<Vec<_>>());
        let kept = metric.opts.buckets.as_ref().map(|b| b.buckets.clone());
        if kind.is_histogram() {
            assert_eq!(kept, Some(vec![1.0, 2.0]));
        } else {
            assert_eq!(kept, None);
        }
    }
}

#[test]
fn created_metric_reports_under_its_options() {
    for kind in [MetricKind::Counter, MetricKind::Gauge, MetricKind::Histogram] {
        for number in NUMBERS {
            let metric =
                Metric::init(kind, number, opts("requests", "Requests served.", &[("endpoint", "a")], &[])).unwrap();
            let registry = prometheus_metric_storage::registry::StorageRegistry::default();
            registry.register(&metric).unwrap();
            let families = registry.gather();
            assert_eq!(families.len(), 1);
            assert_eq!(families[0].get_name(), "requests");
            assert_eq!(families[0].get_help(), "Requests served.");
            let seen: Vec<(&str, &str)> =
                families[0].get_metric()[0].get_label().iter().map(|l| (l.get_name(), l.get_value())).collect();
            assert_eq!(seen, vec![("endpoint", "a")]);
            registry.unregister(&metric).unwrap();
            assert!(registry.gather().is_empty());
        }
    }
}

#[test]
fn vectors_report_under_their_variable_labels_in_order() {
    for number in NUMBERS {
        let metric =
            Metric::init(MetricKind::GaugeVec, number, opts("open", "help", &[("endpoint", "a")], &["status", "method"]))
                .unwrap();
        match &metric.handle {
            Handle::GaugeVec(vector) => vector.handle.with_label_values(&["200", "GET"]).set(2.0),
            Handle::IntGaugeVec(vector) => vector.handle.with_label_values(&["200", "GET"]).set(2),
            other => panic!("unexpected: {:?}", other),
        }
        let registry = prometheus_metric_storage::registry::StorageRegistry::default();
        registry.register(&metric).unwrap();
        assert!(matches!(registry.register(&metric), Err(StorageError::AlreadyRegistered)));
        let families = registry.gather();
        let mut seen: Vec<(&str, &str)> =
            families[0].get_metric()[0].get_label().iter().map(|l| (l.get_name(), l.get_value())).collect();
        seen.sort();
        assert_eq!(seen, vec![("endpoint", "a"), ("method", "GET"), ("status", "200")]);
        assert_eq!(families[0].get_metric()[0].get_gauge().get_value(), 2.0);
        registry.unregister(&metric).unwrap();
        assert!(matches!(registry.unregister(&metric), Err(StorageError::Metrics(_))));
    }
    for (kind, number) in [
        (MetricKind::CounterVec, Number::Float),
        (MetricKind::CounterVec, Number::Integer),
        (MetricKind::HistogramVec, Number::Float),
    ] {
        let metric = Metric::init(kind, number, opts("calls", "help", &[], &["status"])).unwrap();
        match &metric.handle {
            Handle::CounterVec(vector) => vector.handle.with_label_values(&["200"]).inc(),
            Handle::IntCounterVec(vector) => vector.handle.with_label_values(&["200"]).inc(),
            Handle::HistogramVec(vector) => vector.handle.with_label_values(&["200"]).observe(1.0),
            other => panic!("unexpected: {:?}", other),
        }
        let registry = prometheus_metric_storage::registry::StorageRegistry::default();
        registry.register(&metric).unwrap();
        assert!(matches!(registry.register(&metric), Err(StorageError::AlreadyRegistered)));
        assert_eq!(registry.gather()[0].get_name(), "calls");
        registry.unregister(&metric).unwrap();
        assert!(registry.gather().is_empty());
    }
}

#[test]
fn empty_help_is_refused() {
    for kind in KINDS {
        for number in NUMBERS {
            let made = Metric::init(kind, number, opts("requests", "", &[], &[]));
            assert!(matches!(made, Err(StorageError::Metrics(_))));
        }
    }
}

#[test]
fn names_follow_the_metric_name_rules() {
    for kind in KINDS {
        for number in NUMBERS {
            for good in [":", "_", "a", "Z", ":9", "a_b_9_d:x_", "transport_inflight"] {
                assert!(Metric::init(kind, number, opts(good, "help", &[], &[])).is_ok(), "{:?} {}", kind, good);
            }
            for bad in ["", "9", "9a", "a-", "a b", "é", "a.b", "0_"] {
                assert!(
                    matches!(Metric::init(kind, number, opts(bad, "help", &[], &[])), Err(StorageError::Metrics(_))),
                    "{:?} {}",
                    kind,
                    bad
                );
            }
        }
    }
}

#[test]
fn constant_labels_follow_the_label_name_rules() {
    for kind in KINDS {
        for good in ["_", "a", "Z9", "a_b"] {
            assert!(init(kind, "m", "help", &[(good, "v")], &[]).is_ok(), "{:?} {}", kind, good);
        }
        for bad in ["", ":", "a:b", "9", "a-b", "é"] {
            assert!(
                matches!(init(kind, "m", "help", &[(bad, "v")], &[]), Err(StorageError::Metrics(_))),
                "{:?} {}",
                kind,
                bad
            );
        }
    }
}

#[test]
fn variable_labels_are_for_vectors_only() {
    for kind in KINDS {
        for number in NUMBERS {
            let made = Metric::init(kind, number, opts("m", "help", &[("endpoint", "a")], &["status", "method"]));
            assert_eq!(made.is_ok(), is_vec(kind), "{:?}", kind);
        }
    }
}

#[test]
fn vectors_need_no_variable_label() {
    for kind in [MetricKind::CounterVec, MetricKind::GaugeVec, MetricKind::HistogramVec] {
        for number in NUMBERS {
            assert!(Metric::init(kind, number, opts("m", "help", &[], &[])).is_ok());
        }
    }
}

#[test]
fn variable_labels_follow_the_label_name_rules_and_occur_once() {
    for kind in [MetricKind::CounterVec, MetricKind::GaugeVec, MetricKind::HistogramVec] {
        for number in NUMBERS {
            let init = |vars: &[&str]| Metric::init(kind, number, opts("m", "help", &[], vars));
            assert!(init(&["a", "b_9", "_"]).is_ok());
            assert!(Metric::init(kind, number, opts("m", "help", &[("a", "v")], &["a"])).is_ok());
            for bad in ["", "a:b", "9", "a-b"] {
                assert!(init(&["a", bad]).is_err(), "{:?} {}", kind, bad);
            }
            assert!(init(&["a", "b", "a"]).is_err());
        }
    }
}

#[test]
fn a_single_histogram_takes_no_constant_label_le() {
    for kind in KINDS {
        for number in NUMBERS {
            let made = Metric::init(kind, number, opts("m", "help", &[("le", "v")], &[]));
            assert_eq!(made.is_ok(), kind != MetricKind::Histogram, "{:?}", kind);
        }
    }
    assert!(init(MetricKind::Histogram, "m", "help", &[("lee", "v"), ("l", "v")], &[]).is_ok());
    let mut own = opts("m", "help", &[("le", "v")], &[]);
    own.buckets = bounds(vec![1.0]);
    assert!(Metric::init(MetricKind::Histogram, Number::Float, own).is_err());
}

#[test]
fn bounds_of_its_own_decide_for_a_single_histogram() {
    let init = |name: &str, values: Vec<f64>| Metric::init(MetricKind::Histogram, Number::Float, with_bounds(name, &[], values));
    assert!(init("m", vec![0.1, 0.5, 1.0, 5.0]).is_ok());
    assert!(init("m", vec![]).is_ok());
    assert!(matches!(init("m", vec![1.0, 0.5]), Err(StorageError::Metrics(_))));
    assert!(matches!(init("9", vec![0.1, 0.5]), Err(StorageError::Metrics(_))));
}

#[test]
fn a_histogram_vector_reads_its_bounds_later() {
    let made = Metric::init(MetricKind::HistogramVec, Number::Float, with_bounds("m", &["status"], vec![1.0, 0.5]));
    let metric = made.unwrap();
    assert!(metric.as_histogram_vec().unwrap().handle.get_metric_with_label_values(&["200"]).is_err());
    let made = Metric::init(MetricKind::HistogramVec, Number::Float, with_bounds("m", &["status"], vec![0.5, 1.0]));
    let metric = made.unwrap();
    let vector = &metric.as_histogram_vec().unwrap().handle;
    vector.with_label_values(&["200"]).observe(0.7);
    let family = &prometheus::core::Collector::collect(vector)[0];
    let buckets = family.get_metric()[0].get_histogram().get_bucket();
    let counts: Vec<u64> = buckets.iter().map(|b| b.get_cumulative_count()).collect();
    assert_eq!(counts, vec![0, 1]);
    assert!(Metric::init(MetricKind::HistogramVec, Number::Float, with_bounds("9", &["status"], vec![0.5])).is_err());
}

#[test]
fn other_kinds_do_not_read_bounds() {
    for kind in [MetricKind::Counter, MetricKind::Gauge, MetricKind::CounterVec, MetricKind::GaugeVec] {
        for number in NUMBERS {
            let made = Metric::init(kind, number, with_bounds("m", &[], vec![1.0, 0.5]));
            let metric = made.unwrap();
            assert_eq!(metric.kind(), kind);
            assert!(metric.opts.buckets.is_none());
        }
    }
}

fn histogram_schema(own: Option<prometheus::HistogramOpts>) -> MetricGroupSchema {
    MetricGroupSchema {
        group_name: "Latency".to_string(),
        subsystem: "rpc".to_string(),
        const_labels: Vec::new(),
        fields: vec![FieldSpec {
            name: "duration_seconds".to_string(),
            help: "Time taken.".to_string(),
            kind: MetricKind::Histogram,
            number: Number::Float,
            variable_labels: Vec::new(),
            buckets: own,
        }],
    }
}

#[test]
fn field_options_are_what_the_field_and_the_group_say() {
    let field = FieldSpec {
        name: "duration_seconds".to_string(),
        help: "Time taken.".to_string(),
        kind: MetricKind::HistogramVec,
        number: Number::Float,
        variable_labels: vec!["status".to_string(), "method".to_string()],
        buckets: bounds(vec![0.5, 1.5]),
    };
    let made = field.opts("rpc", &labels(&[("endpoint", "a")]));
    assert_eq!(made.name, "rpc_duration_seconds");
    assert_eq!(made.help, "Time taken.");
    assert_eq!(made.const_labels.len(), 1);
    assert_eq!(made.const_labels.get("endpoint").unwrap(), "a");
    assert_eq!(made.variable_labels, vec!["status".to_string(), "method".to_string()]);
    assert_eq!(made.buckets.unwrap().buckets, vec![0.5, 1.5]);
    let made = field.opts("", &ConstLabels::new());
    assert_eq!(made.name, "duration_seconds");
    assert!(made.const_labels.is_empty());
    let counter = FieldSpec { kind: MetricKind::CounterVec, ..field };
    assert!(counter.opts("rpc", &ConstLabels::new()).buckets.is_none());
}

#[test]
fn group_metrics_hold_the_options_of_their_fields() {
    let mut schema = histogram_schema(bounds(vec![0.1, 0.5]));
    schema.fields.push(FieldSpec::new(MetricKind::CounterVec, "calls", "Calls made.").integer().variable_label("status"));
    let consts = labels(&[("endpoint", "a"), ("region", "eu")]);
    let group = MetricGroup::from_const_labels_unregistered(&schema, &consts).unwrap();
    let first = &group.metrics[0].opts;
    assert_eq!((first.name.as_str(), first.help.as_str()), ("rpc_duration_seconds", "Time taken."));
    assert!(first.variable_labels.is_empty());
    assert_eq!(first.buckets.as_ref().unwrap().buckets, vec![0.1, 0.5]);
    let second = &group.metrics[1].opts;
    assert_eq!((second.name.as_str(), second.help.as_str()), ("rpc_calls", "Calls made."));
    assert_eq!(second.variable_labels, vec!["status".to_string()]);
    assert!(second.buckets.is_none());
    for metric in &group.metrics {
        assert_eq!(metric.opts.const_labels.len(), 2);
        assert_eq!(metric.opts.const_labels.get("endpoint").unwrap(), "a");
        assert_eq!(metric.opts.const_labels.get("region").unwrap(), "eu");
    }
    assert!(group.metrics[1].as_int_counter_vec().is_some());
}

#[test]
fn observation_counts_in_the_buckets_at_or_above_it() {
    let schema = histogram_schema(bounds(vec![0.1, 0.5, 1.0, 5.0]));
    let registry = prometheus::Registry::new();
    let group = MetricGroup::from_const_labels(&registry, &schema, &ConstLabels::new()).unwrap();
    group.metrics[0].as_histogram().unwrap().observe(0.3);
    let families = registry.gather();
    assert_eq!(families.len(), 1);
    assert_eq!(families[0].get_name(), "rpc_duration_seconds");
    let histogram = families[0].get_metric()[0].get_histogram();
    let seen: Vec<(f64, u64)> =
        histogram.get_bucket().iter().map(|b| (b.get_upper_bound(), b.get_cumulative_count())).collect();
    assert_eq!(seen, vec![(0.1, 0), (0.5, 1), (1.0, 1), (5.0, 1)]);
    assert_eq!(histogram.get_sample_count(), 1);
}

#[test]
fn histogram_without_bounds_has_the_default_buckets() {
    let group = MetricGroup::from_const_labels_unregistered(&histogram_schema(None), &ConstLabels::new()).unwrap();
    let histogram = group.metrics[0].as_histogram().unwrap();
    let family = &prometheus::core::Collector::collect(histogram)[0];
    assert_eq!(family.get_metric()[0].get_histogram().get_bucket().len(), 11);
}

#[test]
fn group_has_one_metric_for_each_field() {
    let mut schema = histogram_schema(None);
    for (i, kind) in KINDS.iter().enumerate() {
        for number in NUMBERS {
            schema.fields.push(FieldSpec {
                name: format!("field_{}_{:?}", i, number),
                help: "help".to_string(),
                kind: *kind,
                number,
                variable_labels: if is_vec(*kind) { vec!["status".to_string()] } else { Vec::new() },
                buckets: None,
            });
        }
    }
    let group = MetricGroup::from_const_labels_unregistered(&schema, &labels(&[("endpoint", "a")])).unwrap();
    assert_eq!(group.metrics.len(), 13);
    for (metric, field) in group.metrics.iter().zip(schema.fields.iter()) {
        assert_eq!(metric.kind(), field.kind);
        let integer = matches!(
            metric.handle,
            Handle::IntCounter(_) | Handle::IntGauge(_) | Handle::IntCounterVec(_) | Handle::IntGaugeVec(_)
        );
        if !field.kind.is_histogram() {
            assert_eq!(integer, field.number == Number::Integer);
        }
    }
    let registry = prometheus::Registry::new();
    assert!(group.register(&registry).is_ok());
    let names: Vec<String> = registry.gather().iter().map(|f| f.get_name().to_string()).collect();
    assert_eq!(
        names,
        vec![
            "rpc_duration_seconds",
            "rpc_field_0_Float",
            "rpc_field_0_Integer",
            "rpc_field_1_Float",
            "rpc_field_1_Integer",
            "rpc_field_2_Float",
            "rpc_field_2_Integer"
        ]
    );
}

#[test]
fn constant_labels_are_passed_on_as_given() {
    let registry = prometheus::Registry::new();
    let consts = labels(&[("endpoint", "a"), ("region", "eu")]);
    MetricGroup::from_const_labels(&registry, &histogram_schema(None), &consts).unwrap();
    let families = registry.gather();
    let seen: Vec<(&str, &str)> =
        families[0].get_metric()[0].get_label().iter().map(|l| (l.get_name(), l.get_value())).collect();
    assert_eq!(seen, vec![("endpoint", "a"), ("region", "eu")]);
    assert_eq!(families[0].get_help(), "Time taken.");
}

#[test]
fn first_refused_field_ends_the_creation() {
    let mut schema = histogram_schema(None);
    schema.fields[0].name = "9".to_string();
    let made = MetricGroup::from_const_labels_unregistered(&schema, &ConstLabels::new());
    assert!(made.is_ok());
    schema.subsystem = String::new();
    let made = MetricGroup::from_const_labels_unregistered(&schema, &ConstLabels::new());
    assert!(matches!(made, Err(StorageError::Metrics(prometheus::Error::Msg(_)))));
    schema.fields[0].name = String::new();
    let made = MetricGroup::from_const_labels_unregistered(&schema, &ConstLabels::new());
    assert!(matches!(made, Err(StorageError::MissingName { field: 0 })));
}

#[test]
fn registering_twice_is_refused_and_not_rolled_back() {
    let mut schema = histogram_schema(None);
    schema.fields.push(FieldSpec::new(MetricKind::Counter, "calls", "Calls made.").integer());
    let registry = prometheus::Registry::new();
    let first = MetricGroup::from_const_labels(&registry, &schema, &ConstLabels::new()).unwrap();
    let second = MetricGroup::from_const_labels(&registry, &schema, &ConstLabels::new());
    assert!(matches!(second, Err(StorageError::AlreadyRegistered)));
    assert!(matches!(first.register(&registry), Err(StorageError::AlreadyRegistered)));

    let partly = prometheus::Registry::new();
    let taken = prometheus::IntCounter::new("rpc_calls", "Calls made.").unwrap();
    partly.register(Box::new(taken)).unwrap();
    assert!(matches!(first.register(&partly), Err(StorageError::AlreadyRegistered)));
    let names: Vec<String> = partly.gather().iter().map(|f| f.get_name().to_string()).collect();
    assert_eq!(names, vec!["rpc_calls", "rpc_duration_seconds"]);
}

#[test]
fn empty_group_is_always_registered() {
    let mut schema = histogram_schema(None);
    schema.fields.clear();
    let registry = prometheus::Registry::new();
    let group = MetricGroup::from_const_labels(&registry, &schema, &ConstLabels::new()).unwrap();
    assert!(group.metrics.is_empty());
    assert!(group.register(&registry).is_ok());
}

#[test]
fn registry_refuses_a_name_with_another_help_text() {
    let schema = histogram_schema(None);
    let registry = prometheus::Registry::new();
    MetricGroup::from_const_labels(&registry, &schema, &labels(&[("endpoint", "a")])).unwrap();
    let mut other = histogram_schema(None);
    other.fields[0].help = "Something else.".to_string();
    let made = MetricGroup::from_const_labels(&registry, &other, &labels(&[("endpoint", "b")]));
    assert!(matches!(made, Err(StorageError::Metrics(_))));
}
