//! The metrics of the Prometheus client library, and what this library
//! asks of it: to create a metric from its options, and to register,
//! unregister and gather metrics.

use vstd::prelude::*;
use crate::error::StorageError;
use crate::labels::ConstLabels;
use crate::schema::{texts, MetricKind, Number};

verus! {

/// `prometheus::Registry`, the registry of the metrics library. What
/// it holds is shared with its clones and hidden from this library.
#[verifier::external_type_specification]
#[verifier::external_body]
pub struct ExRegistry(prometheus::Registry);

/// `prometheus::Histogram`, a single histogram.
#[verifier::external_type_specification]
#[verifier::external_body]
pub struct ExHistogram(prometheus::Histogram);

/// `prometheus::proto::MetricFamily`, what the metrics of one name
/// report when they are gathered.
#[verifier::external_type_specification]
#[verifier::external_body]
pub struct ExMetricFamily(prometheus::proto::MetricFamily);

/// A counter of floating point value: `prometheus::Counter`.
#[verifier::external_body]
#[derive(Debug)]
pub struct Counter {
    pub handle: prometheus::Counter,
}

/// An integer counter: `prometheus::IntCounter`.
#[verifier::external_body]
#[derive(Debug)]
pub struct IntCounter {
    pub handle: prometheus::IntCounter,
}

/// A gauge of floating point value: `prometheus::Gauge`.
#[verifier::external_body]
#[derive(Debug)]
pub struct Gauge {
    pub handle: prometheus::Gauge,
}

/// An integer gauge: `prometheus::IntGauge`.
#[verifier::external_body]
#[derive(Debug)]
pub struct IntGauge {
    pub handle: prometheus::IntGauge,
}

/// Counters of floating point value that share a name and differ in the values of their
/// variable labels: `prometheus::CounterVec`.
#[verifier::external_body]
#[derive(Debug)]
pub struct CounterVec {
    pub handle: prometheus::CounterVec,
}

/// Integer counters that share a name and differ in the values of their
/// variable labels: `prometheus::IntCounterVec`.
#[verifier::external_body]
#[derive(Debug)]
pub struct IntCounterVec {
    pub handle: prometheus::IntCounterVec,
}

/// Gauges of floating point value that share a name and differ in the values of their
/// variable labels: `prometheus::GaugeVec`.
#[verifier::external_body]
#[derive(Debug)]
pub struct GaugeVec {
    pub handle: prometheus::GaugeVec,
}

/// Integer gauges that share a name and differ in the values of their
/// variable labels: `prometheus::IntGaugeVec`.
#[verifier::external_body]
#[derive(Debug)]
pub struct IntGaugeVec {
    pub handle: prometheus::IntGaugeVec,
}

/// Histograms that share a name and differ in the values of their
/// variable labels: `prometheus::HistogramVec`.
#[verifier::external_body]
#[derive(Debug)]
pub struct HistogramVec {
    pub handle: prometheus::HistogramVec,
}

/// The handle of a live metric, by which it is updated and read.
#[derive(Debug)]
pub enum Handle {
    Counter(Counter),
    IntCounter(IntCounter),
    Gauge(Gauge),
    IntGauge(IntGauge),
    Histogram(prometheus::Histogram),
    CounterVec(CounterVec),
    IntCounterVec(IntCounterVec),
    GaugeVec(GaugeVec),
    IntGaugeVec(IntGaugeVec),
    HistogramVec(HistogramVec),
}

/// The options that a metric is created from.
#[derive(Debug)]
pub struct MetricOpts {
    /// The name under which the metric is exported.
    pub name: String,
    /// What the metric measures.
    pub help: String,
    /// The constant labels and their values.
    pub const_labels: ConstLabels,
    /// The names of the variable labels, in the order of their values.
    pub variable_labels: Vec<String>,
    /// Histogram options whose bucket bounds the metric takes; `None`
    /// for the default buckets.
    pub buckets: Option<prometheus::HistogramOpts>,
}

/// The options that a metric is created from, as character sequences.
pub struct OptsView {
    pub name: Seq<char>,
    pub help: Seq<char>,
    pub const_labels: Map<Seq<char>, Seq<char>>,
    pub variable_labels: Seq<Seq<char>>,
    pub buckets: Option<prometheus::HistogramOpts>,
}

impl View for MetricOpts {
    type V = OptsView;

    open spec fn view(&self) -> OptsView {
        OptsView {
            name: self.name@,
            help: self.help@,
            const_labels: self.const_labels@,
            variable_labels: texts(self.variable_labels@),
            buckets: self.buckets,
        }
    }
}

/// A live metric: its handle, and the options that the handle was
/// created from.
#[derive(Debug)]
pub struct Metric {
    pub opts: MetricOpts,
    pub handle: Handle,
}

/// A letter of the ASCII alphabet, an underscore or, where `colon` is
/// set, a colon.
pub open spec fn is_name_start(c: char, colon: bool) -> bool {
    ('a' <= c && c <= 'z') || ('A' <= c && c <= 'Z') || c == '_' || (colon && c == ':')
}

/// What may start a name, or an ASCII digit.
pub open spec fn is_name_part(c: char, colon: bool) -> bool {
    is_name_start(c, colon) || ('0' <= c && c <= '9')
}

/// The text is not empty, starts with what may start a name and goes
/// on with what may be part of one.
pub open spec fn is_identifier(text: Seq<char>, colon: bool) -> bool {
    &&& text.len() > 0
    &&& is_name_start(text[0], colon)
    &&& forall|i: int| 0 < i < text.len() ==> is_name_part(#[trigger] text[i], colon)
}

/// The metrics library takes these options as the description of a
/// metric: the help text is not empty, the name is a metric name
/// (colons allowed), each label is a label name (no colon), and no
/// variable label occurs twice.
pub open spec fn description_accepted(opts: OptsView) -> bool {
    &&& opts.help.len() > 0
    &&& is_identifier(opts.name, true)
    &&& forall|label: Seq<char>| opts.const_labels.contains_key(label) ==> is_identifier(label, false)
    &&& forall|i: int|
        0 <= i < opts.variable_labels.len() ==> is_identifier(
            #[trigger] opts.variable_labels[i],
            false,
        )
    &&& opts.variable_labels.no_duplicates()
}

/// The options are accepted for a single counter or gauge: as a
/// description, and without variable labels.
pub open spec fn scalar_accepted(opts: OptsView) -> bool {
    &&& description_accepted(opts)
    &&& opts.variable_labels.len() == 0
}

/// The options are accepted for a single histogram, its buckets left
/// aside: as for a counter, and no constant label is called `le`.
pub open spec fn histogram_accepted(opts: OptsView) -> bool {
    &&& scalar_accepted(opts)
    &&& !opts.const_labels.contains_key(seq!['l', 'e'])
}

/// `<prometheus::HistogramOpts as Clone>::clone`: histogram options
/// with the same settings and the same bucket bounds.
#[verifier::external_body]
pub(crate) fn copy_bounds(bounds: &prometheus::HistogramOpts) -> (same: prometheus::HistogramOpts)
    ensures
        same == *bounds,
{
    bounds.clone()
}

impl Counter {
    /// `prometheus::Counter::with_opts`, on options with the name, help text,
    /// constant labels and variable labels of `opts`, and no namespace
    /// or subsystem. It succeeds exactly on the options that
    /// `scalar_accepted` describes, and the metric holds the options
    /// it was created from.
    #[verifier::external_body]
    pub(crate) fn init(opts: MetricOpts) -> (made: Result<Metric, prometheus::Error>)
        ensures
            made is Ok <==> scalar_accepted(opts@),
            made matches Ok(metric) ==> metric.opts == opts && metric.handle is Counter,
    {
        let outside = prometheus::Opts::new(opts.name.as_str(), opts.help.as_str())
            .const_labels(opts.const_labels.entries.iter().cloned().collect())
            .variable_labels(opts.variable_labels.clone());
        match prometheus::Counter::with_opts(outside) {
            Ok(handle) => Ok(Metric { opts, handle: Handle::Counter(Counter { handle }) }),
            Err(e) => Err(e),
        }
    }

    /// `prometheus::Registry::register`, with a clone of the handle.
    /// Whether it succeeds depends on what the registry holds.
    #[verifier::external_body]
    pub(crate) fn register_in(&self, registry: &prometheus::Registry) -> (done: Result<
        (),
        prometheus::Error,
    >) {
        registry.register(Box::new(self.handle.clone()))
    }

    /// `prometheus::Registry::unregister`, with a clone of the handle.
    /// Whether it succeeds depends on what the registry holds.
    #[verifier::external_body]
    pub(crate) fn unregister_from(&self, registry: &prometheus::Registry) -> (done: Result<
        (),
        prometheus::Error,
    >) {
        registry.unregister(Box::new(self.handle.clone()))
    }
}

impl IntCounter {
    /// `prometheus::IntCounter::with_opts`, on options with the name, help text,
    /// constant labels and variable labels of `opts`, and no namespace
    /// or subsystem. It succeeds exactly on the options that
    /// `scalar_accepted` describes, and the metric holds the options
    /// it was created from.
    #[verifier::external_body]
    pub(crate) fn init(opts: MetricOpts) -> (made: Result<Metric, prometheus::Error>)
        ensures
            made is Ok <==> scalar_accepted(opts@),
            made matches Ok(metric) ==> metric.opts == opts && metric.handle is IntCounter,
    {
        let outside = prometheus::Opts::new(opts.name.as_str(), opts.help.as_str())
            .const_labels(opts.const_labels.entries.iter().cloned().collect())
            .variable_labels(opts.variable_labels.clone());
        match prometheus::IntCounter::with_opts(outside) {
            Ok(handle) => Ok(Metric { opts, handle: Handle::IntCounter(IntCounter { handle }) }),
            Err(e) => Err(e),
        }
    }

    /// `prometheus::Registry::register`, with a clone of the handle.
    /// Whether it succeeds depends on what the registry holds.
    #[verifier::external_body]
    pub(crate) fn register_in(&self, registry: &prometheus::Registry) -> (done: Result<
        (),
        prometheus::Error,
    >) {
        registry.register(Box::new(self.handle.clone()))
    }

    /// `prometheus::Registry::unregister`, with a clone of the handle.
    /// Whether it succeeds depends on what the registry holds.
    #[verifier::external_body]
    pub(crate) fn unregister_from(&self, registry: &prometheus::Registry) -> (done: Result<
        (),
        prometheus::Error,
    >) {
        registry.unregister(Box::new(self.handle.clone()))
    }
}

impl Gauge {
    /// `prometheus::Gauge::with_opts`, on options with the name, help text,
    /// constant labels and variable labels of `opts`, and no namespace
    /// or subsystem. It succeeds exactly on the options that
    /// `scalar_accepted` describes, and the metric holds the options
    /// it was created from.
    #[verifier::external_body]
    pub(crate) fn init(opts: MetricOpts) -> (made: Result<Metric, prometheus::Error>)
        ensures
            made is Ok <==> scalar_accepted(opts@),
            made matches Ok(metric) ==> metric.opts == opts && metric.handle is Gauge,
    {
        let outside = prometheus::Opts::new(opts.name.as_str(), opts.help.as_str())
            .const_labels(opts.const_labels.entries.iter().cloned().collect())
            .variable_labels(opts.variable_labels.clone());
        match prometheus::Gauge::with_opts(outside) {
            Ok(handle) => Ok(Metric { opts, handle: Handle::Gauge(Gauge { handle }) }),
            Err(e) => Err(e),
        }
    }

    /// `prometheus::Registry::register`, with a clone of the handle.
    /// Whether it succeeds depends on what the registry holds.
    #[verifier::external_body]
    pub(crate) fn register_in(&self, registry: &prometheus::Registry) -> (done: Result<
        (),
        prometheus::Error,
    >) {
        registry.register(Box::new(self.handle.clone()))
    }

    /// `prometheus::Registry::unregister`, with a clone of the handle.
    /// Whether it succeeds depends on what the registry holds.
    #[verifier::external_body]
    pub(crate) fn unregister_from(&self, registry: &prometheus::Registry) -> (done: Result<
        (),
        prometheus::Error,
    >) {
        registry.unregister(Box::new(self.handle.clone()))
    }
}

impl IntGauge {
    /// `prometheus::IntGauge::with_opts`, on options with the name, help text,
    /// constant labels and variable labels of `opts`, and no namespace
    /// or subsystem. It succeeds exactly on the options that
    /// `scalar_accepted` describes, and the metric holds the options
    /// it was created from.
    #[verifier::external_body]
    pub(crate) fn init(opts: MetricOpts) -> (made: Result<Metric, prometheus::Error>)
        ensures
            made is Ok <==> scalar_accepted(opts@),
            made matches Ok(metric) ==> metric.opts == opts && metric.handle is IntGauge,
    {
        let outside = prometheus::Opts::new(opts.name.as_str(), opts.help.as_str())
            .const_labels(opts.const_labels.entries.iter().cloned().collect())
            .variable_labels(opts.variable_labels.clone());
        match prometheus::IntGauge::with_opts(outside) {
            Ok(handle) => Ok(Metric { opts, handle: Handle::IntGauge(IntGauge { handle }) }),
            Err(e) => Err(e),
        }
    }

    /// `prometheus::Registry::register`, with a clone of the handle.
    /// Whether it succeeds depends on what the registry holds.
    #[verifier::external_body]
    pub(crate) fn register_in(&self, registry: &prometheus::Registry) -> (done: Result<
        (),
        prometheus::Error,
    >) {
        registry.register(Box::new(self.handle.clone()))
    }

    /// `prometheus::Registry::unregister`, with a clone of the handle.
    /// Whether it succeeds depends on what the registry holds.
    #[verifier::external_body]
    pub(crate) fn unregister_from(&self, registry: &prometheus::Registry) -> (done: Result<
        (),
        prometheus::Error,
    >) {
        registry.unregister(Box::new(self.handle.clone()))
    }
}

impl CounterVec {
    /// `prometheus::CounterVec::new`, on options with the name, help text and
    /// constant labels of `opts`, no namespace or subsystem, and the
    /// variable labels of `opts`. It succeeds exactly on the options
    /// that `description_accepted` describes, and the metric holds the
    /// options it was created from.
    #[verifier::external_body]
    pub(crate) fn init(opts: MetricOpts) -> (made: Result<Metric, prometheus::Error>)
        ensures
            made is Ok <==> description_accepted(opts@),
            made matches Ok(metric) ==> metric.opts == opts && metric.handle is CounterVec,
    {
        let outside = prometheus::Opts::new(opts.name.as_str(), opts.help.as_str())
            .const_labels(opts.const_labels.entries.iter().cloned().collect());
        let labels: Vec<&str> = opts.variable_labels.iter().map(String::as_str).collect();
        match prometheus::CounterVec::new(outside, &labels) {
            Ok(handle) => Ok(Metric { opts, handle: Handle::CounterVec(CounterVec { handle }) }),
            Err(e) => Err(e),
        }
    }

    /// `prometheus::Registry::register`, with a clone of the handle.
    /// Whether it succeeds depends on what the registry holds.
    #[verifier::external_body]
    pub(crate) fn register_in(&self, registry: &prometheus::Registry) -> (done: Result<
        (),
        prometheus::Error,
    >) {
        registry.register(Box::new(self.handle.clone()))
    }

    /// `prometheus::Registry::unregister`, with a clone of the handle.
    /// Whether it succeeds depends on what the registry holds.
    #[verifier::external_body]
    pub(crate) fn unregister_from(&self, registry: &prometheus::Registry) -> (done: Result<
        (),
        prometheus::Error,
    >) {
        registry.unregister(Box::new(self.handle.clone()))
    }
}

impl IntCounterVec {
    /// `prometheus::IntCounterVec::new`, on options with the name, help text and
    /// constant labels of `opts`, no namespace or subsystem, and the
    /// variable labels of `opts`. It succeeds exactly on the options
    /// that `description_accepted` describes, and the metric holds the
    /// options it was created from.
    #[verifier::external_body]
    pub(crate) fn init(opts: MetricOpts) -> (made: Result<Metric, prometheus::Error>)
        ensures
            made is Ok <==> description_accepted(opts@),
            made matches Ok(metric) ==> metric.opts == opts && metric.handle is IntCounterVec,
    {
        let outside = prometheus::Opts::new(opts.name.as_str(), opts.help.as_str())
            .const_labels(opts.const_labels.entries.iter().cloned().collect());
        let labels: Vec<&str> = opts.variable_labels.iter().map(String::as_str).collect();
        match prometheus::IntCounterVec::new(outside, &labels) {
            Ok(handle) => Ok(Metric { opts, handle: Handle::IntCounterVec(IntCounterVec { handle }) }),
            Err(e) => Err(e),
        }
    }

    /// `prometheus::Registry::register`, with a clone of the handle.
    /// Whether it succeeds depends on what the registry holds.
    #[verifier::external_body]
    pub(crate) fn register_in(&self, registry: &prometheus::Registry) -> (done: Result<
        (),
        prometheus::Error,
    >) {
        registry.register(Box::new(self.handle.clone()))
    }

    /// `prometheus::Registry::unregister`, with a clone of the handle.
    /// Whether it succeeds depends on what the registry holds.
    #[verifier::external_body]
    pub(crate) fn unregister_from(&self, registry: &prometheus::Registry) -> (done: Result<
        (),
        prometheus::Error,
    >) {
        registry.unregister(Box::new(self.handle.clone()))
    }
}

impl GaugeVec {
    /// `prometheus::GaugeVec::new`, on options with the name, help text and
    /// constant labels of `opts`, no namespace or subsystem, and the
    /// variable labels of `opts`. It succeeds exactly on the options
    /// that `description_accepted` describes, and the metric holds the
    /// options it was created from.
    #[verifier::external_body]
    pub(crate) fn init(opts: MetricOpts) -> (made: Result<Metric, prometheus::Error>)
        ensures
            made is Ok <==> description_accepted(opts@),
            made matches Ok(metric) ==> metric.opts == opts && metric.handle is GaugeVec,
    {
        let outside = prometheus::Opts::new(opts.name.as_str(), opts.help.as_str())
            .const_labels(opts.const_labels.entries.iter().cloned().collect());
        let labels: Vec<&str> = opts.variable_labels.iter().map(String::as_str).collect();
        match prometheus::GaugeVec::new(outside, &labels) {
            Ok(handle) => Ok(Metric { opts, handle: Handle::GaugeVec(GaugeVec { handle }) }),
            Err(e) => Err(e),
        }
    }

    /// `prometheus::Registry::register`, with a clone of the handle.
    /// Whether it succeeds depends on what the registry holds.
    #[verifier::external_body]
    pub(crate) fn register_in(&self, registry: &prometheus::Registry) -> (done: Result<
        (),
        prometheus::Error,
    >) {
        registry.register(Box::new(self.handle.clone()))
    }

    /// `prometheus::Registry::unregister`, with a clone of the handle.
    /// Whether it succeeds depends on what the registry holds.
    #[verifier::external_body]
    pub(crate) fn unregister_from(&self, registry: &prometheus::Registry) -> (done: Result<
        (),
        prometheus::Error,
    >) {
        registry.unregister(Box::new(self.handle.clone()))
    }
}

impl IntGaugeVec {
    /// `prometheus::IntGaugeVec::new`, on options with the name, help text and
    /// constant labels of `opts`, no namespace or subsystem, and the
    /// variable labels of `opts`. It succeeds exactly on the options
    /// that `description_accepted` describes, and the metric holds the
    /// options it was created from.
    #[verifier::external_body]
    pub(crate) fn init(opts: MetricOpts) -> (made: Result<Metric, prometheus::Error>)
        ensures
            made is Ok <==> description_accepted(opts@),
            made matches Ok(metric) ==> metric.opts == opts && metric.handle is IntGaugeVec,
    {
        let outside = prometheus::Opts::new(opts.name.as_str(), opts.help.as_str())
            .const_labels(opts.const_labels.entries.iter().cloned().collect());
        let labels: Vec<&str> = opts.variable_labels.iter().map(String::as_str).collect();
        match prometheus::IntGaugeVec::new(outside, &labels) {
            Ok(handle) => Ok(Metric { opts, handle: Handle::IntGaugeVec(IntGaugeVec { handle }) }),
            Err(e) => Err(e),
        }
    }

    /// `prometheus::Registry::register`, with a clone of the handle.
    /// Whether it succeeds depends on what the registry holds.
    #[verifier::external_body]
    pub(crate) fn register_in(&self, registry: &prometheus::Registry) -> (done: Result<
        (),
        prometheus::Error,
    >) {
        registry.register(Box::new(self.handle.clone()))
    }

    /// `prometheus::Registry::unregister`, with a clone of the handle.
    /// Whether it succeeds depends on what the registry holds.
    #[verifier::external_body]
    pub(crate) fn unregister_from(&self, registry: &prometheus::Registry) -> (done: Result<
        (),
        prometheus::Error,
    >) {
        registry.unregister(Box::new(self.handle.clone()))
    }
}

/// `prometheus::Histogram::with_opts`, on options with the name, help
/// text, constant labels and variable labels of `opts`, no namespace
/// or subsystem, and the library's default buckets. It succeeds
/// exactly on the options that `histogram_accepted` describes, and the
/// metric holds the options it was created from.
#[verifier::external_body]
pub(crate) fn init_histogram(opts: MetricOpts) -> (made: Result<Metric, prometheus::Error>)
    requires
        opts.buckets is None,
    ensures
        made is Ok <==> histogram_accepted(opts@),
        made matches Ok(metric) ==> metric.opts == opts && metric.handle is Histogram,
{
    let outside = prometheus::Opts::new(opts.name.as_str(), opts.help.as_str())
        .const_labels(opts.const_labels.entries.iter().cloned().collect())
        .variable_labels(opts.variable_labels.clone());
    match prometheus::Histogram::with_opts(prometheus::HistogramOpts::from(outside)) {
        Ok(handle) => Ok(Metric { opts, handle: Handle::Histogram(handle) }),
        Err(e) => Err(e),
    }
}

/// `prometheus::Histogram::with_opts`, as `init_histogram` but with
/// the bucket bounds that `opts` holds. It fails on the options that
/// `histogram_accepted` leaves out; on the others the bounds decide.
#[verifier::external_body]
pub(crate) fn init_histogram_with_buckets(opts: MetricOpts) -> (made: Result<
    Metric,
    prometheus::Error,
>)
    requires
        opts.buckets is Some,
    ensures
        made is Ok ==> histogram_accepted(opts@),
        made matches Ok(metric) ==> metric.opts == opts && metric.handle is Histogram,
{
    let outside = prometheus::Opts::new(opts.name.as_str(), opts.help.as_str())
        .const_labels(opts.const_labels.entries.iter().cloned().collect())
        .variable_labels(opts.variable_labels.clone());
    let bounds = opts.buckets.as_ref().map(|own| own.buckets.clone()).unwrap_or_default();
    match prometheus::Histogram::with_opts(prometheus::HistogramOpts::from(outside).buckets(bounds)) {
        Ok(handle) => Ok(Metric { opts, handle: Handle::Histogram(handle) }),
        Err(e) => Err(e),
    }
}

/// `prometheus::Registry::register`, with a clone of the histogram.
/// Whether it succeeds depends on what the registry holds.
#[verifier::external_body]
pub(crate) fn register_histogram(
    histogram: &prometheus::Histogram,
    registry: &prometheus::Registry,
) -> (done: Result<(), prometheus::Error>) {
    registry.register(Box::new(histogram.clone()))
}

/// `prometheus::Registry::unregister`, with a clone of the histogram.
/// Whether it succeeds depends on what the registry holds.
#[verifier::external_body]
pub(crate) fn unregister_histogram(
    histogram: &prometheus::Histogram,
    registry: &prometheus::Registry,
) -> (done: Result<(), prometheus::Error>) {
    registry.unregister(Box::new(histogram.clone()))
}

impl HistogramVec {
    /// `prometheus::HistogramVec::new`, on options with the name, help
    /// text and constant labels of `opts`, no namespace or subsystem,
    /// the library's default buckets, and the variable labels of
    /// `opts`. It succeeds exactly on the options that
    /// `description_accepted` describes, and the metric holds the
    /// options it was created from.
    #[verifier::external_body]
    pub(crate) fn init(opts: MetricOpts) -> (made: Result<Metric, prometheus::Error>)
        requires
            opts.buckets is None,
        ensures
            made is Ok <==> description_accepted(opts@),
            made matches Ok(metric) ==> metric.opts == opts && metric.handle is HistogramVec,
    {
        let outside = prometheus::Opts::new(opts.name.as_str(), opts.help.as_str())
            .const_labels(opts.const_labels.entries.iter().cloned().collect());
        let labels: Vec<&str> = opts.variable_labels.iter().map(String::as_str).collect();
        match prometheus::HistogramVec::new(prometheus::HistogramOpts::from(outside), &labels) {
            Ok(handle) => Ok(Metric { opts, handle: Handle::HistogramVec(HistogramVec { handle }) }),
            Err(e) => Err(e),
        }
    }

    /// `prometheus::HistogramVec::new`, as `init` but with the bucket
    /// bounds that `opts` holds, which it does not look at: they are
    /// read when a histogram of the vector is first asked for.
    #[verifier::external_body]
    pub(crate) fn init_with_buckets(opts: MetricOpts) -> (made: Result<Metric, prometheus::Error>)
        requires
            opts.buckets is Some,
        ensures
            made is Ok <==> description_accepted(opts@),
            made matches Ok(metric) ==> metric.opts == opts && metric.handle is HistogramVec,
    {
        let outside = prometheus::Opts::new(opts.name.as_str(), opts.help.as_str())
            .const_labels(opts.const_labels.entries.iter().cloned().collect());
        let labels: Vec<&str> = opts.variable_labels.iter().map(String::as_str).collect();
        let bounds = opts.buckets.as_ref().map(|own| own.buckets.clone()).unwrap_or_default();
        let outside = prometheus::HistogramOpts::from(outside).buckets(bounds);
        match prometheus::HistogramVec::new(outside, &labels) {
            Ok(handle) => Ok(Metric { opts, handle: Handle::HistogramVec(HistogramVec { handle }) }),
            Err(e) => Err(e),
        }
    }

    /// `prometheus::Registry::register`, with a clone of the handle.
    /// Whether it succeeds depends on what the registry holds.
    #[verifier::external_body]
    pub(crate) fn register_in(&self, registry: &prometheus::Registry) -> (done: Result<
        (),
        prometheus::Error,
    >) {
        registry.register(Box::new(self.handle.clone()))
    }

    /// `prometheus::Registry::unregister`, with a clone of the handle.
    /// Whether it succeeds depends on what the registry holds.
    #[verifier::external_body]
    pub(crate) fn unregister_from(&self, registry: &prometheus::Registry) -> (done: Result<
        (),
        prometheus::Error,
    >) {
        registry.unregister(Box::new(self.handle.clone()))
    }
}

/// Whether the metrics library certainly creates a metric of this
/// kind from these options. For a histogram with bucket bounds of its
/// own this is never certain: the bounds decide too.
pub open spec fn must_accept(kind: MetricKind, opts: OptsView) -> bool {
    match kind {
        MetricKind::Counter | MetricKind::Gauge => scalar_accepted(opts),
        MetricKind::Histogram => opts.buckets is None && histogram_accepted(opts),
        MetricKind::CounterVec | MetricKind::GaugeVec | MetricKind::HistogramVec => {
            description_accepted(opts)
        },
    }
}

/// Whether the metrics library can create a metric of this kind from
/// these options.
pub open spec fn may_accept(kind: MetricKind, opts: OptsView) -> bool {
    match kind {
        MetricKind::Counter | MetricKind::Gauge => scalar_accepted(opts),
        MetricKind::Histogram => histogram_accepted(opts),
        MetricKind::CounterVec | MetricKind::GaugeVec | MetricKind::HistogramVec => {
            description_accepted(opts)
        },
    }
}

/// The options that a metric of this kind reads: all of them for a
/// histogram or a vector of histograms, and all but the bucket bounds
/// for the other kinds.
pub open spec fn options_read(kind: MetricKind, opts: OptsView) -> OptsView {
    if kind.is_histogram() {
        opts
    } else {
        OptsView { buckets: None, ..opts }
    }
}

/// Variable labels are for vectors: the metrics library creates no
/// single counter, gauge or histogram from options that name one.
pub proof fn lemma_variable_labels_need_a_vector(kind: MetricKind, opts: OptsView)
    requires
        !kind.is_vector(),
        opts.variable_labels.len() > 0,
    ensures
        !may_accept(kind, opts),
{
}

impl Handle {
    /// The kind of metric that this handle is for.
    pub open spec fn kind_spec(&self) -> MetricKind {
        match self {
            Handle::Counter(_) => MetricKind::Counter,
            Handle::IntCounter(_) => MetricKind::Counter,
            Handle::Gauge(_) => MetricKind::Gauge,
            Handle::IntGauge(_) => MetricKind::Gauge,
            Handle::Histogram(_) => MetricKind::Histogram,
            Handle::CounterVec(_) => MetricKind::CounterVec,
            Handle::IntCounterVec(_) => MetricKind::CounterVec,
            Handle::GaugeVec(_) => MetricKind::GaugeVec,
            Handle::IntGaugeVec(_) => MetricKind::GaugeVec,
            Handle::HistogramVec(_) => MetricKind::HistogramVec,
        }
    }

    /// The kind of metric that this handle is for.
    #[verifier::when_used_as_spec(kind_spec)]
    pub fn kind(&self) -> (kind: MetricKind)
        ensures
            kind == self.kind_spec(),
    {
        match self {
            Handle::Counter(_) => MetricKind::Counter,
            Handle::IntCounter(_) => MetricKind::Counter,
            Handle::Gauge(_) => MetricKind::Gauge,
            Handle::IntGauge(_) => MetricKind::Gauge,
            Handle::Histogram(_) => MetricKind::Histogram,
            Handle::CounterVec(_) => MetricKind::CounterVec,
            Handle::IntCounterVec(_) => MetricKind::CounterVec,
            Handle::GaugeVec(_) => MetricKind::GaugeVec,
            Handle::IntGaugeVec(_) => MetricKind::GaugeVec,
            Handle::HistogramVec(_) => MetricKind::HistogramVec,
        }
    }

    /// Whether this handle is for a metric of this kind and, where it
    /// is a counter or a gauge, for this sort of number.
    pub open spec fn fits(&self, kind: MetricKind, number: Number) -> bool {
        match self {
            Handle::Counter(_) => kind is Counter && number is Float,
            Handle::IntCounter(_) => kind is Counter && number is Integer,
            Handle::Gauge(_) => kind is Gauge && number is Float,
            Handle::IntGauge(_) => kind is Gauge && number is Integer,
            Handle::Histogram(_) => kind is Histogram,
            Handle::CounterVec(_) => kind is CounterVec && number is Float,
            Handle::IntCounterVec(_) => kind is CounterVec && number is Integer,
            Handle::GaugeVec(_) => kind is GaugeVec && number is Float,
            Handle::IntGaugeVec(_) => kind is GaugeVec && number is Integer,
            Handle::HistogramVec(_) => kind is HistogramVec,
        }
    }

    /// Registers a clone of the handle with the registry.
    pub(crate) fn register_in(&self, registry: &prometheus::Registry) -> (done: Result<
        (),
        prometheus::Error,
    >) {
        match self {
            Handle::Counter(handle) => handle.register_in(registry),
            Handle::IntCounter(handle) => handle.register_in(registry),
            Handle::Gauge(handle) => handle.register_in(registry),
            Handle::IntGauge(handle) => handle.register_in(registry),
            Handle::Histogram(handle) => register_histogram(handle, registry),
            Handle::CounterVec(handle) => handle.register_in(registry),
            Handle::IntCounterVec(handle) => handle.register_in(registry),
            Handle::GaugeVec(handle) => handle.register_in(registry),
            Handle::IntGaugeVec(handle) => handle.register_in(registry),
            Handle::HistogramVec(handle) => handle.register_in(registry),
        }
    }

    /// Takes what equals the handle out of the registry.
    pub(crate) fn unregister_from(&self, registry: &prometheus::Registry) -> (done: Result<
        (),
        prometheus::Error,
    >) {
        match self {
            Handle::Counter(handle) => handle.unregister_from(registry),
            Handle::IntCounter(handle) => handle.unregister_from(registry),
            Handle::Gauge(handle) => handle.unregister_from(registry),
            Handle::IntGauge(handle) => handle.unregister_from(registry),
            Handle::Histogram(handle) => unregister_histogram(handle, registry),
            Handle::CounterVec(handle) => handle.unregister_from(registry),
            Handle::IntCounterVec(handle) => handle.unregister_from(registry),
            Handle::GaugeVec(handle) => handle.unregister_from(registry),
            Handle::IntGaugeVec(handle) => handle.unregister_from(registry),
            Handle::HistogramVec(handle) => handle.unregister_from(registry),
        }
    }
}

impl Metric {
    /// The kind of this metric.
    pub open spec fn kind_spec(&self) -> MetricKind {
        self.handle.kind()
    }

    /// The kind of this metric.
    #[verifier::when_used_as_spec(kind_spec)]
    pub fn kind(&self) -> (kind: MetricKind)
        ensures
            kind == self.kind_spec(),
    {
        self.handle.kind()
    }

    /// The counter of floating point value, where the metric is one.
    pub fn as_counter(&self) -> (handle: Option<&Counter>)
        ensures
            match handle {
                Some(h) => self.handle == Handle::Counter(*h),
                None => !(self.handle is Counter),
            },
    {
        match &self.handle {
            Handle::Counter(handle) => Some(handle),
            _ => None,
        }
    }

    /// The integer counter, where the metric is one.
    pub fn as_int_counter(&self) -> (handle: Option<&IntCounter>)
        ensures
            match handle {
                Some(h) => self.handle == Handle::IntCounter(*h),
                None => !(self.handle is IntCounter),
            },
    {
        match &self.handle {
            Handle::IntCounter(handle) => Some(handle),
            _ => None,
        }
    }

    /// The gauge of floating point value, where the metric is one.
    pub fn as_gauge(&self) -> (handle: Option<&Gauge>)
        ensures
            match handle {
                Some(h) => self.handle == Handle::Gauge(*h),
                None => !(self.handle is Gauge),
            },
    {
        match &self.handle {
            Handle::Gauge(handle) => Some(handle),
            _ => None,
        }
    }

    /// The integer gauge, where the metric is one.
    pub fn as_int_gauge(&self) -> (handle: Option<&IntGauge>)
        ensures
            match handle {
                Some(h) => self.handle == Handle::IntGauge(*h),
                None => !(self.handle is IntGauge),
            },
    {
        match &self.handle {
            Handle::IntGauge(handle) => Some(handle),
            _ => None,
        }
    }

    /// The histogram, where the metric is one.
    pub fn as_histogram(&self) -> (handle: Option<&prometheus::Histogram>)
        ensures
            match handle {
                Some(h) => self.handle == Handle::Histogram(*h),
                None => !(self.handle is Histogram),
            },
    {
        match &self.handle {
            Handle::Histogram(handle) => Some(handle),
            _ => None,
        }
    }

    /// The vector of counters of floating point value, where the metric is one.
    pub fn as_counter_vec(&self) -> (handle: Option<&CounterVec>)
        ensures
            match handle {
                Some(h) => self.handle == Handle::CounterVec(*h),
                None => !(self.handle is CounterVec),
            },
    {
        match &self.handle {
            Handle::CounterVec(handle) => Some(handle),
            _ => None,
        }
    }

    /// The vector of integer counters, where the metric is one.
    pub fn as_int_counter_vec(&self) -> (handle: Option<&IntCounterVec>)
        ensures
            match handle {
                Some(h) => self.handle == Handle::IntCounterVec(*h),
                None => !(self.handle is IntCounterVec),
            },
    {
        match &self.handle {
            Handle::IntCounterVec(handle) => Some(handle),
            _ => None,
        }
    }

    /// The vector of gauges of floating point value, where the metric is one.
    pub fn as_gauge_vec(&self) -> (handle: Option<&GaugeVec>)
        ensures
            match handle {
                Some(h) => self.handle == Handle::GaugeVec(*h),
                None => !(self.handle is GaugeVec),
            },
    {
        match &self.handle {
            Handle::GaugeVec(handle) => Some(handle),
            _ => None,
        }
    }

    /// The vector of integer gauges, where the metric is one.
    pub fn as_int_gauge_vec(&self) -> (handle: Option<&IntGaugeVec>)
        ensures
            match handle {
                Some(h) => self.handle == Handle::IntGaugeVec(*h),
                None => !(self.handle is IntGaugeVec),
            },
    {
        match &self.handle {
            Handle::IntGaugeVec(handle) => Some(handle),
            _ => None,
        }
    }

    /// The vector of histograms, where the metric is one.
    pub fn as_histogram_vec(&self) -> (handle: Option<&HistogramVec>)
        ensures
            match handle {
                Some(h) => self.handle == Handle::HistogramVec(*h),
                None => !(self.handle is HistogramVec),
            },
    {
        match &self.handle {
            Handle::HistogramVec(handle) => Some(handle),
            _ => None,
        }
    }

    /// Creates a metric of the given kind, and for counters and gauges
    /// of the given sort of number, from the given options. Bucket
    /// bounds are read for histograms and vectors of histograms only.
    /// Whether the metric is created is for the metrics library to
    /// say; its error is passed on.
    pub fn init(kind: MetricKind, number: Number, opts: MetricOpts) -> (made: Result<
        Metric,
        StorageError,
    >)
        ensures
            match made {
                Ok(metric) => {
                    &&& metric.opts@ == options_read(kind, opts@)
                    &&& metric.handle.fits(kind, number)
                    &&& may_accept(kind, opts@)
                },
                Err(e) => e is Metrics && !must_accept(kind, options_read(kind, opts@)),
            },
    {
        let mut opts = opts;
        if !kind.is_histogram() {
            opts.buckets = None;
        }
        let made = match kind {
            MetricKind::Counter => match number {
                Number::Float => Counter::init(opts),
                Number::Integer => IntCounter::init(opts),
            },
            MetricKind::Gauge => match number {
                Number::Float => Gauge::init(opts),
                Number::Integer => IntGauge::init(opts),
            },
            MetricKind::Histogram => if opts.buckets.is_some() {
                init_histogram_with_buckets(opts)
            } else {
                init_histogram(opts)
            },
            MetricKind::CounterVec => match number {
                Number::Float => CounterVec::init(opts),
                Number::Integer => IntCounterVec::init(opts),
            },
            MetricKind::GaugeVec => match number {
                Number::Float => GaugeVec::init(opts),
                Number::Integer => IntGaugeVec::init(opts),
            },
            MetricKind::HistogramVec => if opts.buckets.is_some() {
                HistogramVec::init_with_buckets(opts)
            } else {
                HistogramVec::init(opts)
            },
        };
        match made {
            Ok(metric) => Ok(metric),
            Err(e) => Err(StorageError::Metrics(e)),
        }
    }
}

} // verus!
