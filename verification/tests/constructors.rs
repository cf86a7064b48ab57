use prometheus_metric_storage::error::StorageError;
use prometheus_metric_storage::group::MetricGroup;
use prometheus_metric_storage::labels::ConstLabels;
use prometheus_metric_storage::registry::StorageRegistry;
use prometheus_metric_storage::schema::{FieldSpec, MetricGroupSchema, MetricKind, Number};

fn schema() -> MetricGroupSchema {
    MetricGroupSchema::new("Requests", "http")
        .const_label("endpoint")
        .const_label("region")
        .field(FieldSpec::new(MetricKind::Counter, "total", "Requests served.").integer())
        .field(FieldSpec::new(MetricKind::GaugeVec, "open", "Requests open.").variable_label("method"))
        .field(
            FieldSpec::new(MetricKind::Histogram, "seconds", "Time taken.")
                .buckets(prometheus::HistogramOpts::new("unused", "unused").buckets(vec![1.0, 2.0])),
        )
}

fn values(list: &[&str]) -> Vec<String> {
    list.iter().map(|v| v.to_string()).collect()
}

#[test]
fn builders_fill_the_schema() {
    let schema = schema();
    assert_eq!(schema.group_name, "Requests");
    assert_eq!(schema.subsystem, "http");
    assert_eq!(schema.const_labels, values(&["endpoint", "region"]));
    assert_eq!(schema.fields.len(), 3);
    assert_eq!(schema.fields[0].kind, MetricKind::Counter);
    assert_eq!(schema.fields[0].number, Number::Integer);
    assert_eq!(schema.fields[1].number, Number::Float);
    assert_eq!(schema.fields[0].name, "total");
    assert_eq!(schema.fields[0].help, "Requests served.");
    assert!(schema.fields[0].variable_labels.is_empty());
    assert!(schema.fields[0].buckets.is_none());
    assert_eq!(schema.fields[1].variable_labels, values(&["method"]));
    assert_eq!(schema.fields[2].buckets.as_ref().unwrap().buckets, vec![1.0, 2.0]);
    assert!(schema.validate().is_ok());
}

#[test]
fn kinds_know_what_they_are() {
    assert!(MetricKind::CounterVec.is_vector() && MetricKind::GaugeVec.is_vector());
    assert!(MetricKind::HistogramVec.is_vector() && !MetricKind::Histogram.is_vector());
    assert!(!MetricKind::Counter.is_vector() && !MetricKind::Gauge.is_vector());
    assert!(MetricKind::Histogram.is_histogram() && MetricKind::HistogramVec.is_histogram());
    assert!(!MetricKind::Counter.is_histogram() && !MetricKind::GaugeVec.is_histogram());
}

#[test]
fn values_go_to_the_labels_by_position() {
    let names = values(&["a", "b", "c"]);
    let labels = ConstLabels::from_values(&names, &values(&["1", "2", "3"])).unwrap();
    assert_eq!(labels.len(), 3);
    assert_eq!(labels.get("a").unwrap(), "1");
    assert_eq!(labels.get("b").unwrap(), "2");
    assert_eq!(labels.get("c").unwrap(), "3");
    let twice = ConstLabels::from_values(&values(&["a", "a"]), &values(&["1", "2"])).unwrap();
    assert_eq!(twice.len(), 1);
    assert_eq!(twice.get("a").unwrap(), "2");
    assert!(matches!(
        ConstLabels::from_values(&names, &values(&["1"])),
        Err(StorageError::LabelMismatch { expected: 3, actual: 1, missing: None })
    ));
}

#[test]
fn unregistered_group_is_created_from_positional_values() {
    let group = MetricGroup::new_unregistered(&schema(), &values(&["a", "eu"])).unwrap();
    assert_eq!(group.len(), 3);
    assert!(group.get(3).is_none());
    assert!(group.get(0).unwrap().as_int_counter().is_some());
    assert!(group.get(0).unwrap().as_counter().is_none());
    assert!(group.get(0).unwrap().as_gauge().is_none());
    assert!(group.get(0).unwrap().as_int_gauge().is_none());
    assert!(group.get(1).unwrap().as_gauge_vec().is_some());
    assert!(group.get(1).unwrap().as_int_gauge_vec().is_none());
    assert!(group.get(1).unwrap().as_counter_vec().is_none());
    assert!(group.get(1).unwrap().as_int_counter_vec().is_none());
    assert!(group.get(2).unwrap().as_histogram().is_some());
    assert!(group.get(2).unwrap().as_histogram_vec().is_none());
    let registry = prometheus::Registry::new();
    group.register(&registry).unwrap();
    let families = registry.gather();
    assert_eq!(families[0].get_name(), "http_seconds");
    let labels: Vec<(&str, &str)> =
        families[0].get_metric()[0].get_label().iter().map(|l| (l.get_name(), l.get_value())).collect();
    assert_eq!(labels, vec![("endpoint", "a"), ("region", "eu")]);
    assert!(matches!(
        MetricGroup::new_unregistered(&schema(), &values(&["a"])),
        Err(StorageError::LabelMismatch { expected: 2, actual: 1, missing: None })
    ));
}

#[test]
fn registered_group_is_created_once() {
    let registry = prometheus::Registry::new();
    let group = MetricGroup::new(&registry, &schema(), &values(&["a", "eu"])).unwrap();
    group.metrics[0].as_int_counter().unwrap().handle.inc();
    assert_eq!(registry.gather().len(), 2);
    assert!(matches!(
        MetricGroup::new(&registry, &schema(), &values(&["a", "eu"])),
        Err(StorageError::AlreadyRegistered)
    ));
    assert!(MetricGroup::new(&registry, &schema(), &values(&["b", "eu"])).is_ok());
    assert!(matches!(
        MetricGroup::new(&registry, &schema(), &values(&["a", "eu", "x"])),
        Err(StorageError::LabelMismatch { expected: 2, actual: 3, missing: None })
    ));
}

#[test]
fn instance_is_created_once_and_found_again() {
    let schema = schema();
    let mut storage = StorageRegistry::default();
    let first = MetricGroup::instance(&mut storage, &schema, &values(&["a", "eu"])).unwrap();
    first.metrics[0].as_int_counter().unwrap().handle.inc_by(3);
    let again = MetricGroup::instance(&mut storage, &schema, &values(&["a", "eu"])).unwrap();
    assert_eq!(again.metrics[0].as_int_counter().unwrap().handle.get(), 3);
    let other = MetricGroup::instance(&mut storage, &schema, &values(&["eu", "a"])).unwrap();
    assert_eq!(other.metrics[0].as_int_counter().unwrap().handle.get(), 0);
    assert_eq!(storage.len(), 2);
    assert!(matches!(
        MetricGroup::instance(&mut storage, &schema, &values(&[])),
        Err(StorageError::LabelMismatch { expected: 2, actual: 0, missing: None })
    ));
    assert_eq!(storage.len(), 2);
}
