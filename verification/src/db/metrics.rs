//! The metrics of the service.

use crate::decimal::{pow10, pow10_grows, Decimal, DecimalView};
use vstd::prelude::*;

verus! {

/// The kind of a metric.
#[derive(Clone, Copy, Debug, PartialEq, Eq, Structural)]
pub enum MetricKind {
    Counter,
    CounterVec,
    Gauge,
    GaugeVec,
    Histogram,
}

/// A metric: its name, what it measures, the labels that tell its series apart, and the
/// upper bounds of its buckets.
#[derive(Debug)]
pub struct Metric {
    pub name: &'static str,
    pub help: &'static str,
    pub kind: MetricKind,
    pub labels: Vec<&'static str>,
    pub buckets: Vec<Decimal>,
}

/// The contents of a metric.
pub struct MetricView {
    pub name: Seq<char>,
    pub help: Seq<char>,
    pub kind: MetricKind,
    pub labels: Seq<Seq<char>>,
    pub buckets: Seq<DecimalView>,
}

impl View for Metric {
    type V = MetricView;

    open spec fn view(&self) -> MetricView {
        MetricView {
            name: self.name@,
            help: self.help@,
            kind: self.kind,
            labels: Seq::new(self.labels@.len(), |i: int| self.labels@[i]@),
            buckets: Seq::new(self.buckets@.len(), |i: int| self.buckets@[i]@),
        }
    }
}

/// A metric without labels and buckets.
pub open spec fn plain(kind: MetricKind, name: Seq<char>, help: Seq<char>) -> MetricView {
    MetricView { name, help, kind, labels: Seq::empty(), buckets: Seq::empty() }
}

/// A metric with one label.
pub open spec fn labelled(
    kind: MetricKind,
    name: Seq<char>,
    help: Seq<char>,
    label: Seq<char>,
) -> MetricView {
    MetricView { name, help, kind, labels: seq![label], buckets: Seq::empty() }
}

/// A histogram.
pub open spec fn histogram(name: Seq<char>, help: Seq<char>, buckets: Seq<DecimalView>) -> MetricView {
    MetricView { name, help, kind: MetricKind::Histogram, labels: Seq::empty(), buckets }
}

/// The decimal `mantissa / 10^scale`.
pub open spec fn dec(mantissa: int, scale: nat) -> DecimalView {
    DecimalView { mantissa, scale }
}

/// The bucket bounds for the time a tick takes, in milliseconds.
pub open spec fn latency_buckets() -> Seq<DecimalView> {
    seq![
        dec(5, 2),
        dec(1, 1),
        dec(25, 2),
        dec(5, 1),
        dec(1, 0),
        dec(2, 0),
        dec(5, 0),
        dec(10, 0),
        dec(25, 0),
    ]
}

/// The bucket bounds for the time a flush takes, in milliseconds.
pub open spec fn flush_buckets() -> Seq<DecimalView> {
    seq![
        dec(1, 0),
        dec(5, 0),
        dec(10, 0),
        dec(25, 0),
        dec(50, 0),
        dec(100, 0),
        dec(250, 0),
        dec(500, 0),
    ]
}

/// The metrics of the service, in the order in which they are registered.
pub open spec fn catalogue() -> Seq<MetricView> {
    seq![
        plain(
            MetricKind::Counter,
            "hft_ticks_total"@,
            "Total number of market ticks generated"@,
        ),
        labelled(
            MetricKind::GaugeVec,
            "hft_asset_price"@,
            "Current price of the asset"@,
            "symbol"@,
        ),
        histogram(
            "hft_tick_latency_ms"@,
            "Tick generation wall-clock time in milliseconds"@,
            latency_buckets(),
        ),
        plain(MetricKind::Gauge, "hft_ws_clients"@, "Active WebSocket connections"@),
        plain(
            MetricKind::Counter,
            "hft_ws_lagged_total"@,
            "Broadcast lag events on WebSocket connections"@,
        ),
        labelled(
            MetricKind::CounterVec,
            "hft_db_errors_total"@,
            "ClickHouse operation error counts"@,
            "operation"@,
        ),
        histogram(
            "hft_db_flush_duration_ms"@,
            "ClickHouse batch flush duration in milliseconds"@,
            flush_buckets(),
        ),
    ]
}

fn plain_metric(kind: MetricKind, name: &'static str, help: &'static str) -> (r: Metric)
    ensures
        r@ == plain(kind, name@, help@),
{
    let r = Metric { name, help, kind, labels: Vec::new(), buckets: Vec::new() };
    assert(r@.labels =~= Seq::empty());
    assert(r@.buckets =~= Seq::empty());
    r
}

fn labelled_metric(
    kind: MetricKind,
    name: &'static str,
    help: &'static str,
    label: &'static str,
) -> (r: Metric)
    ensures
        r@ == labelled(kind, name@, help@, label@),
{
    let mut labels: Vec<&'static str> = Vec::new();
    labels.push(label);
    let r = Metric { name, help, kind, labels, buckets: Vec::new() };
    assert(r@.labels =~= seq![label@]);
    assert(r@.buckets =~= Seq::empty());
    r
}

fn histogram_metric(name: &'static str, help: &'static str, buckets: Vec<Decimal>) -> (r: Metric)
    ensures
        r@ == histogram(name@, help@, Seq::new(buckets@.len(), |i: int| buckets@[i]@)),
{
    let r = Metric { name, help, kind: MetricKind::Histogram, labels: Vec::new(), buckets };
    assert(r@.labels =~= Seq::empty());
    r
}

/// The metrics to register, in order. Their names are distinct, so none of them is refused
/// for the sake of another.
pub fn register_metrics() -> (r: Vec<Metric>)
    ensures
        Seq::new(r@.len(), |i: int| r@[i]@) == catalogue(),
{
    let mut latency: Vec<Decimal> = Vec::new();
    latency.push(Decimal::new(5, 2));
    latency.push(Decimal::new(1, 1));
    latency.push(Decimal::new(25, 2));
    latency.push(Decimal::new(5, 1));
    latency.push(Decimal::new(1, 0));
    latency.push(Decimal::new(2, 0));
    latency.push(Decimal::new(5, 0));
    latency.push(Decimal::new(10, 0));
    latency.push(Decimal::new(25, 0));
    assert(Seq::new(latency@.len(), |i: int| latency@[i]@) =~= latency_buckets());

    let mut flush: Vec<Decimal> = Vec::new();
    flush.push(Decimal::new(1, 0));
    flush.push(Decimal::new(5, 0));
    flush.push(Decimal::new(10, 0));
    flush.push(Decimal::new(25, 0));
    flush.push(Decimal::new(50, 0));
    flush.push(Decimal::new(100, 0));
    flush.push(Decimal::new(250, 0));
    flush.push(Decimal::new(500, 0));
    assert(Seq::new(flush@.len(), |i: int| flush@[i]@) =~= flush_buckets());

    let mut r: Vec<Metric> = Vec::new();
    r.push(
        plain_metric(
            MetricKind::Counter,
            "hft_ticks_total",
            "Total number of market ticks generated",
        ),
    );
    r.push(
        labelled_metric(
            MetricKind::GaugeVec,
            "hft_asset_price",
            "Current price of the asset",
            "symbol",
        ),
    );
    r.push(
        histogram_metric(
            "hft_tick_latency_ms",
            "Tick generation wall-clock time in milliseconds",
            latency,
        ),
    );
    r.push(plain_metric(MetricKind::Gauge, "hft_ws_clients", "Active WebSocket connections"));
    r.push(
        plain_metric(
            MetricKind::Counter,
            "hft_ws_lagged_total",
            "Broadcast lag events on WebSocket connections",
        ),
    );
    r.push(
        labelled_metric(
            MetricKind::CounterVec,
            "hft_db_errors_total",
            "ClickHouse operation error counts",
            "operation",
        ),
    );
    r.push(
        histogram_metric(
            "hft_db_flush_duration_ms",
            "ClickHouse batch flush duration in milliseconds",
            flush,
        ),
    );
    assert(Seq::new(r@.len(), |i: int| r@[i]@) =~= catalogue());
    r
}

/// No two metrics have the same name.
pub proof fn names_are_distinct(i: int, j: int)
    requires
        0 <= i < j < catalogue().len(),
    ensures
        catalogue()[i].name != catalogue()[j].name,
{
    reveal_strlit("hft_ticks_total");
    reveal_strlit("hft_asset_price");
    reveal_strlit("hft_tick_latency_ms");
    reveal_strlit("hft_ws_clients");
    reveal_strlit("hft_ws_lagged_total");
    reveal_strlit("hft_db_errors_total");
    reveal_strlit("hft_db_flush_duration_ms");
    let a = catalogue()[i].name;
    let b = catalogue()[j].name;
    if a == b {
        assert(a.len() == b.len());
        assert(a[4] == b[4]);
        assert(a[5] == b[5]);
    }
}

/// The bounds of the buckets of every histogram rise.
pub proof fn buckets_rise(i: int, j: int, k: int)
    requires
        0 <= i < catalogue().len(),
        0 <= j < k < catalogue()[i].buckets.len(),
    ensures
        catalogue()[i].buckets[j].units() < catalogue()[i].buckets[k].units(),
{
    bucket_units();
}

/// The bounds that occur in buckets, in units of 10^-28.
proof fn bucket_units()
    ensures
        forall|m: int| (#[trigger] dec(m, 0)).units() == 100 * (m * pow10(26)),
        forall|m: int| (#[trigger] dec(m, 1)).units() == 10 * (m * pow10(26)),
        forall|m: int| (#[trigger] dec(m, 2)).units() == m * pow10(26),
        pow10(26) >= 1,
{
    pow10_grows(0, 26);
    assert(pow10(28) == 10 * pow10(27));
    assert(pow10(27) == 10 * pow10(26));
    let p = pow10(26);
    assert forall|m: int| (#[trigger] dec(m, 0)).units() == 100 * (m * p) by {
        assert(m * (10 * (10 * p)) == 100 * (m * p)) by (nonlinear_arith);
    }
    assert forall|m: int| (#[trigger] dec(m, 1)).units() == 10 * (m * p) by {
        assert(m * (10 * p) == 10 * (m * p)) by (nonlinear_arith);
    }
}

/// The name begins with `hft_`.
pub open spec fn is_ours(name: Seq<char>) -> bool {
    name.len() > 4 && name[0] == 'h' && name[1] == 'f' && name[2] == 't' && name[3] == '_'
}

/// The name ends in the given text.
pub open spec fn ends_in(name: Seq<char>, end: Seq<char>) -> bool {
    name.len() >= end.len() && name.skip(name.len() - end.len()) == end
}

/// The kind of a metric, its labels and its name go together: exactly the kinds with series
/// have a label, exactly the histograms have buckets and a name in milliseconds, and exactly
/// the counters have a name of a total.
pub proof fn kinds_and_names_agree(i: int)
    requires
        0 <= i < catalogue().len(),
    ensures
        ({
            let m = catalogue()[i];
            &&& is_ours(m.name)
            &&& m.labels.len() == 1 <==> m.kind is CounterVec || m.kind is GaugeVec
            &&& m.labels.len() == 0 <==> m.kind is Counter || m.kind is Gauge || m.kind is Histogram
            &&& m.buckets.len() > 0 <==> m.kind is Histogram
            &&& m.kind is Histogram <==> ends_in(m.name, "_ms"@)
            &&& m.kind is Counter || m.kind is CounterVec <==> ends_in(m.name, "_total"@)
            &&& m.help.len() > 0
        }),
        catalogue().len() == 7,
{
    reveal_strlit("hft_ticks_total");
    reveal_strlit("hft_asset_price");
    reveal_strlit("hft_tick_latency_ms");
    reveal_strlit("hft_ws_clients");
    reveal_strlit("hft_ws_lagged_total");
    reveal_strlit("hft_db_errors_total");
    reveal_strlit("hft_db_flush_duration_ms");
    reveal_strlit("Total number of market ticks generated");
    reveal_strlit("Current price of the asset");
    reveal_strlit("Tick generation wall-clock time in milliseconds");
    reveal_strlit("Active WebSocket connections");
    reveal_strlit("Broadcast lag events on WebSocket connections");
    reveal_strlit("ClickHouse operation error counts");
    reveal_strlit("ClickHouse batch flush duration in milliseconds");
    reveal_strlit("_ms");
    reveal_strlit("_total");
    let name = catalogue()[i].name;
    let n = name.len() as int;
    let ms = name.skip(n - 3);
    let total = name.skip(n - 6);
    if i == 2 || i == 6 {
        assert(ms =~= "_ms"@);
    } else {
        assert(ms[1] == name[n - 2]);
        assert(ms[2] == name[n - 1]);
    }
    if i == 0 || i == 4 || i == 5 {
        assert(total =~= "_total"@);
    } else {
        assert(total[5] == name[n - 1]);
        assert(total[4] == name[n - 2]);
    }
}

/// The bounds of the buckets in hundredths of a millisecond.
pub open spec fn hundredths(i: int) -> Seq<int> {
    if i == 2 {
        seq![5, 10, 25, 50, 100, 200, 500, 1_000, 2_500]
    } else if i == 6 {
        seq![100, 500, 1_000, 2_500, 5_000, 10_000, 25_000, 50_000]
    } else {
        Seq::empty()
    }
}

/// The buckets reach from 0.05 to 25 milliseconds for a tick and from 1 to 500 milliseconds for
/// a flush, at fixed bounds.
pub proof fn buckets_have_their_bounds(i: int, j: int)
    requires
        0 <= i < catalogue().len(),
        0 <= j < catalogue()[i].buckets.len(),
    ensures
        catalogue()[i].buckets.len() == hundredths(i).len(),
        catalogue()[i].buckets[j].units() == hundredths(i)[j] * pow10(26),
{
    bucket_units();
}

/// Each metric says what it measures and by what its series are told apart.
pub proof fn metrics_say_what_they_measure()
    ensures
        catalogue()[0].name == "hft_ticks_total"@,
        catalogue()[0].help == "Total number of market ticks generated"@,
        catalogue()[1].name == "hft_asset_price"@,
        catalogue()[1].help == "Current price of the asset"@,
        catalogue()[1].labels == seq!["symbol"@],
        catalogue()[2].name == "hft_tick_latency_ms"@,
        catalogue()[2].help == "Tick generation wall-clock time in milliseconds"@,
        catalogue()[3].name == "hft_ws_clients"@,
        catalogue()[3].help == "Active WebSocket connections"@,
        catalogue()[3].kind is Gauge,
        catalogue()[4].name == "hft_ws_lagged_total"@,
        catalogue()[4].help == "Broadcast lag events on WebSocket connections"@,
        catalogue()[5].name == "hft_db_errors_total"@,
        catalogue()[5].help == "ClickHouse operation error counts"@,
        catalogue()[5].labels == seq!["operation"@],
        catalogue()[6].name == "hft_db_flush_duration_ms"@,
        catalogue()[6].help == "ClickHouse batch flush duration in milliseconds"@,
{
}

/// The contents of a metric are what its fields hold.
pub proof fn contents_are_the_metric(metric: Metric)
    ensures
        metric@.name == metric.name@,
        metric@.help == metric.help@,
        metric@.kind == metric.kind,
        metric@.labels.len() == metric.labels@.len(),
        forall|i: int|
            0 <= i < metric.labels@.len() ==> #[trigger] metric@.labels[i] == metric.labels@[i]@,
        metric@.buckets.len() == metric.buckets@.len(),
        forall|i: int|
            0 <= i < metric.buckets@.len() ==> #[trigger] metric@.buckets[i] == metric.buckets@[i]@,
{
}

} // verus!
