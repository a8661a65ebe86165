//! The boundary to the `prometheus` crate, which owns the text exposition
//! format.
//!
//! The library keeps its samples itself. To render them it fills fresh gauge
//! vectors of the `prometheus` crate, registers them and lets that crate gather
//! and encode. Nothing in this module is proved: each item states what the
//! `prometheus` crate does, as its source shows it.

use vstd::prelude::*;

verus! {

/// A gauge vector of the `prometheus` crate as plain values: how it was
/// created, and every write it has received, in order.
pub struct GaugeFamily {
    pub name: Seq<char>,
    pub help: Seq<char>,
    pub label_names: Seq<Seq<char>>,
    pub writes: Seq<(Seq<Seq<char>>, i64)>,
}

/// The strings of a vector as sequences of characters.
pub open spec fn texts(strings: Seq<String>) -> Seq<Seq<char>> {
    strings.map_values(|s: String| s@)
}

/// `c` may start a metric name (`colon`) or a label name (`!colon`).
pub open spec fn is_name_start(c: char, colon: bool) -> bool {
    ||| 'a' <= c <= 'z'
    ||| 'A' <= c <= 'Z'
    ||| c == '_'
    ||| (colon && c == ':')
}

/// `name` is a metric name (`colon`) or a label name (`!colon`) in the sense
/// of the Prometheus data model.
pub open spec fn is_name(name: Seq<char>, colon: bool) -> bool {
    &&& name.len() > 0
    &&& is_name_start(name[0], colon)
    &&& forall|i: int|
        0 < i < name.len() ==> is_name_start(#[trigger] name[i], colon) || '0' <= name[i] <= '9'
}

/// The `prometheus` crate accepts a gauge vector of this description.
pub open spec fn family_accepted(name: Seq<char>, help: Seq<char>, label_names: Seq<Seq<char>>) -> bool {
    &&& help.len() > 0
    &&& is_name(name, true)
    &&& forall|i: int| 0 <= i < label_names.len() ==> is_name(#[trigger] label_names[i], false)
    &&& forall|i: int, j: int|
        0 <= i < j < label_names.len() ==> #[trigger] label_names[i] != #[trigger] label_names[j]
}

/// An `IntGaugeVec` of the `prometheus` crate. The crate does not export all
/// the types that the vector's own type is made of, so it is held here.
#[verifier::external_body]
pub struct GaugeVec {
    inner: prometheus::IntGaugeVec,
}

/// `prometheus::Registry`, the set of collectors that is gathered together.
#[verifier::external_type_specification]
#[verifier::external_body]
pub struct ExRegistry(prometheus::Registry);

/// `prometheus::Error`.
#[verifier::external_type_specification]
#[verifier::external_body]
pub struct ExPrometheusError(prometheus::Error);

/// What a gauge vector holds: its description and the writes made to it.
pub uninterp spec fn gauge_family(gauges: GaugeVec) -> GaugeFamily;

/// What a registry holds: the gauge vectors registered with it, in the order
/// of their registration.
pub uninterp spec fn registry_families(registry: prometheus::Registry) -> Seq<GaugeFamily>;

/// Whether `prometheus::Registry::register` accepts `family` in a registry
/// that holds `registered`.
pub uninterp spec fn registration_accepted(registered: Seq<GaugeFamily>, family: GaugeFamily) -> bool;

/// The text that `prometheus::Registry::gather` followed by
/// `prometheus::TextEncoder::encode` gives for a registry that holds
/// `registered`; `None` where the encoder reports an error.
pub uninterp spec fn exposition(registered: Seq<GaugeFamily>) -> Option<Seq<u8>>;

/// `prometheus::IntGaugeVec::new` on `prometheus::Opts::new(name, help)`.
/// It fails exactly where the help text is empty, the name is no metric
/// name, a label name is no label name, or a label name occurs twice. The
/// new vector has received no write.
#[verifier::external_body]
pub(crate) fn gauge_new(name: &str, help: &str, label_names: &Vec<String>) -> (res: Result<
    GaugeVec,
    prometheus::Error,
>)
    ensures
        res is Ok <==> family_accepted(name@, help@, texts(label_names@)),
        res matches Ok(gauges) ==> gauge_family(gauges) == (GaugeFamily {
            name: name@,
            help: help@,
            label_names: texts(label_names@),
            writes: Seq::empty(),
        }),
{
    let names: Vec<&str> = label_names.iter().map(|s| s.as_str()).collect();
    let inner = prometheus::IntGaugeVec::new(prometheus::Opts::new(name, help), &names)?;
    Ok(GaugeVec { inner })
}

/// `with_label_values(labels).set(value)` on the vector. `with_label_values`
/// panics unless there are as many label values as label names. What the
/// vector then holds is only said to follow from its writes: the crate finds
/// a child by a hash of the label values, so two label tuples can share one.
#[verifier::external_body]
pub(crate) fn gauge_set(gauges: &mut GaugeVec, labels: &Vec<String>, value: i64)
    requires
        labels@.len() == gauge_family(*old(gauges)).label_names.len(),
    ensures
        gauge_family(*final(gauges)) == (GaugeFamily {
            writes: gauge_family(*old(gauges)).writes.push((texts(labels@), value)),
            ..gauge_family(*old(gauges))
        }),
{
    gauges.inner.with_label_values(labels).set(value)
}

/// `prometheus::Registry::new`: a registry without collectors.
#[verifier::external_body]
pub(crate) fn registry_new() -> (res: prometheus::Registry)
    ensures
        registry_families(res) == Seq::<GaugeFamily>::empty(),
{
    prometheus::Registry::new()
}

/// `prometheus::Registry::register`, which takes the vector over. Whether it
/// accepts depends on the vector's description and on what is registered
/// already; after a refusal nothing is said of the registry.
#[verifier::external_body]
pub(crate) fn registry_register(registry: &mut prometheus::Registry, gauges: GaugeVec) -> (res: Result<
    (),
    prometheus::Error,
>)
    ensures
        res is Ok <==> registration_accepted(
            registry_families(*old(registry)),
            gauge_family(gauges),
        ),
        res is Ok ==> registry_families(*final(registry)) == registry_families(
            *old(registry),
        ).push(gauge_family(gauges)),
{
    registry.register(Box::new(gauges.inner))
}

/// `prometheus::Registry::gather`, then `prometheus::TextEncoder::encode` into
/// an empty buffer. The bytes depend on nothing but what was registered.
#[verifier::external_body]
pub(crate) fn registry_render(registry: &prometheus::Registry) -> (res: Result<
    Vec<u8>,
    prometheus::Error,
>)
    ensures
        match res {
            Ok(bytes) => exposition(registry_families(*registry)) == Some(bytes@),
            Err(_) => exposition(registry_families(*registry)) is None,
        },
{
    let mut buffer = Vec::new();
    prometheus::Encoder::encode(&prometheus::TextEncoder::new(), &registry.gather(), &mut buffer)?;
    Ok(buffer)
}

/// `prometheus::TextEncoder::format_type`: the content type of the text
/// exposition format, which that crate fixes as the constant `TEXT_FORMAT`.
#[verifier::external_body]
pub(crate) fn text_format() -> (res: String)
    ensures
        res@ == "text/plain; version=0.0.4"@,
{
    prometheus::Encoder::format_type(&prometheus::TextEncoder::new()).to_owned()
}

} // verus!
