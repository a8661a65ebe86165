//! The registry of gauges: named, labelled integer samples, each written in
//! place on every scrape.

use vstd::prelude::*;

use crate::assoc::{
    collected, distinct_keys, has_key, lemma_distinct_is_last, lemma_push_keeps_distinct,
    lemma_update_keeps_distinct, lemma_written_dom, lemma_written_last_wins, lemma_written_push,
    lemma_written_update,
};
use crate::exposition::{
    exposition, family_accepted, gauge_family, gauge_new, gauge_set, is_name,
    registration_accepted, registry_families, registry_new, registry_register, registry_render,
    texts, GaugeFamily,
};

verus! {

/// The gauge families that the exporter publishes.
#[derive(Clone, Copy, Debug, PartialEq, Eq, Structural)]
pub enum Metric {
    BuildInfo,
    Online,
    CurrentWatts,
    TodayWattHours,
    LifetimeWattHours,
    InverterLastWatts,
}

impl Metric {
    /// The number of labels that a sample of the family carries.
    pub open spec fn arity(self) -> nat {
        match self {
            Metric::BuildInfo => 3,
            Metric::Online => 2,
            Metric::CurrentWatts => 2,
            Metric::TodayWattHours => 2,
            Metric::LifetimeWattHours => 2,
            Metric::InverterLastWatts => 3,
        }
    }

    /// The name under which the family is published.
    pub open spec fn name_text(self) -> Seq<char> {
        match self {
            Metric::BuildInfo => "envoy_build_info"@,
            Metric::Online => "envoy_online"@,
            Metric::CurrentWatts => "envoy_current_watts"@,
            Metric::TodayWattHours => "envoy_today_watt_hours"@,
            Metric::LifetimeWattHours => "envoy_lifetime_watt_hours"@,
            Metric::InverterLastWatts => "envoy_inverter_last_watts"@,
        }
    }

    /// The help text that is published with the family.
    pub open spec fn help_text(self) -> Seq<char> {
        match self {
            Metric::BuildInfo => "A metric with a constant '1' value labeled by version, revision and rustversion"@,
            Metric::Online => "Metric scraping successful"@,
            Metric::CurrentWatts => "Number of watts being produced"@,
            Metric::TodayWattHours => "Number of watt hours produced today"@,
            Metric::LifetimeWattHours => "Number of watt hours ever produced"@,
            Metric::InverterLastWatts => "Number of watts last reported produced by an inverter"@,
        }
    }

    /// The names of the family's labels, in the order of a sample's values.
    pub open spec fn label_texts(self) -> Seq<Seq<char>> {
        match self {
            Metric::BuildInfo => seq!["version"@, "revision"@, "rustversion"@],
            Metric::InverterLastWatts => seq!["host"@, "envoy"@, "inverter"@],
            _ => seq!["host"@, "envoy"@],
        }
    }

    /// The number of labels that a sample of the family carries.
    pub fn label_count(self) -> (res: usize)
        ensures
            res == self.arity(),
            res == self.label_texts().len(),
    {
        match self {
            Metric::BuildInfo => 3,
            Metric::Online => 2,
            Metric::CurrentWatts => 2,
            Metric::TodayWattHours => 2,
            Metric::LifetimeWattHours => 2,
            Metric::InverterLastWatts => 3,
        }
    }

    /// The name under which the family is published.
    pub fn name(self) -> (res: &'static str)
        ensures
            res@ == self.name_text(),
    {
        match self {
            Metric::BuildInfo => "envoy_build_info",
            Metric::Online => "envoy_online",
            Metric::CurrentWatts => "envoy_current_watts",
            Metric::TodayWattHours => "envoy_today_watt_hours",
            Metric::LifetimeWattHours => "envoy_lifetime_watt_hours",
            Metric::InverterLastWatts => "envoy_inverter_last_watts",
        }
    }

    /// The help text that is published with the family.
    pub fn help(self) -> (res: &'static str)
        ensures
            res@ == self.help_text(),
    {
        match self {
            Metric::BuildInfo => "A metric with a constant '1' value labeled by version, revision and rustversion",
            Metric::Online => "Metric scraping successful",
            Metric::CurrentWatts => "Number of watts being produced",
            Metric::TodayWattHours => "Number of watt hours produced today",
            Metric::LifetimeWattHours => "Number of watt hours ever produced",
            Metric::InverterLastWatts => "Number of watts last reported produced by an inverter",
        }
    }

    /// The names of the family's labels, in the order of a sample's values.
    pub fn label_names(self) -> (res: Vec<String>)
        ensures
            texts(res@) == self.label_texts(),
    {
        let mut names: Vec<String> = Vec::new();
        match self {
            Metric::BuildInfo => {
                names.push("version".to_owned());
                names.push("revision".to_owned());
                names.push("rustversion".to_owned());
            },
            Metric::InverterLastWatts => {
                names.push("host".to_owned());
                names.push("envoy".to_owned());
                names.push("inverter".to_owned());
            },
            _ => {
                names.push("host".to_owned());
                names.push("envoy".to_owned());
            },
        }
        assert(texts(names@) =~= self.label_texts());
        names
    }

    /// The families in the order in which they are handed to the encoder.
    pub open spec fn all_spec() -> Seq<Metric> {
        seq![
            Metric::BuildInfo,
            Metric::Online,
            Metric::CurrentWatts,
            Metric::TodayWattHours,
            Metric::LifetimeWattHours,
            Metric::InverterLastWatts,
        ]
    }

    /// The families in the order in which they are handed to the encoder.
    pub fn all() -> (res: Vec<Metric>)
        ensures
            res@ == Metric::all_spec(),
    {
        let mut metrics: Vec<Metric> = Vec::new();
        metrics.push(Metric::BuildInfo);
        metrics.push(Metric::Online);
        metrics.push(Metric::CurrentWatts);
        metrics.push(Metric::TodayWattHours);
        metrics.push(Metric::LifetimeWattHours);
        metrics.push(Metric::InverterLastWatts);
        assert(metrics@ =~= Metric::all_spec());
        metrics
    }
}

/// A sample is found by its family and its label values.
pub type SampleKey = (Metric, Seq<Seq<char>>);

/// One labelled value of a family.
struct Sample {
    labels: Vec<String>,
    value: i64,
}

/// The samples of one family. No label tuple is held twice, and each has as
/// many values as the family has labels.
struct Family {
    arity: usize,
    samples: Vec<Sample>,
}

/// Whether two vectors hold the same strings.
pub fn same_texts(a: &Vec<String>, b: &Vec<String>) -> (res: bool)
    ensures
        res == (texts(a@) == texts(b@)),
{
    if a.len() != b.len() {
        assert(texts(a@).len() != texts(b@).len());
        return false;
    }
    let mut i: usize = 0;
    while i < a.len()
        invariant
            a.len() == b.len(),
            i <= a.len(),
            forall|j: int| 0 <= j < i ==> a@[j]@ == b@[j]@,
        decreases a.len() - i,
    {
        if a[i] != b[i] {
            assert(texts(a@)[i as int] != texts(b@)[i as int]);
            return false;
        }
        i += 1;
    }
    assert(texts(a@) =~= texts(b@));
    true
}

impl Family {
    /// The samples as entries of label values and value, in the order held.
    spec fn entries(&self) -> Seq<(Seq<Seq<char>>, i64)> {
        self.samples@.map_values(|s: Sample| (texts(s.labels@), s.value))
    }

    /// The samples as a map from label values to value.
    spec fn samples(&self) -> Map<Seq<Seq<char>>, i64> {
        collected(self.entries())
    }

    /// The number of labels of the family.
    spec fn arity(&self) -> nat {
        self.arity as nat
    }

    /// No label tuple is held twice, and each has as many values as the
    /// family has labels.
    spec fn wf(&self) -> bool {
        &&& distinct_keys(self.entries())
        &&& forall|i: int|
            0 <= i < self.entries().len() ==> (#[trigger] self.entries()[i]).0.len() == self.arity
    }

    /// A family of `arity` labels without samples.
    fn new(arity: usize) -> (res: Family)
        ensures
            res.wf(),
            res.arity() == arity,
            res.entries() == Seq::<(Seq<Seq<char>>, i64)>::empty(),
            res.samples() == Map::<Seq<Seq<char>>, i64>::empty(),
    {
        let res = Family { arity, samples: Vec::new() };
        assert(res.entries() =~= Seq::<(Seq<Seq<char>>, i64)>::empty());
        res
    }

    /// The place of the sample with these label values, if there is one.
    fn find(&self, labels: &Vec<String>) -> (res: Option<usize>)
        ensures
            match res {
                Some(i) => i < self.entries().len() && self.entries()[i as int].0 == texts(labels@),
                None => !has_key(self.entries(), texts(labels@)),
            },
    {
        let mut i: usize = 0;
        while i < self.samples.len()
            invariant
                i <= self.samples.len(),
                forall|j: int| 0 <= j < i ==> (#[trigger] self.entries()[j]).0 != texts(labels@),
            decreases self.samples.len() - i,
        {
            if same_texts(&self.samples[i].labels, labels) {
                return Some(i);
            }
            i += 1;
        }
        None
    }

    /// The value held for these label values.
    fn get(&self, labels: &Vec<String>) -> (res: Option<i64>)
        requires
            self.wf(),
        ensures
            res == if self.samples().dom().contains(texts(labels@)) {
                Some(self.samples()[texts(labels@)])
            } else {
                None
            },
    {
        proof {
            lemma_written_dom(Map::empty(), self.entries(), texts(labels@));
        }
        match self.find(labels) {
            Some(i) => {
                proof {
                    lemma_written_last_wins(Map::empty(), self.entries(), i as int);
                }
                Some(self.samples[i].value)
            },
            None => None,
        }
    }

    /// Writes `value` under these label values, in place of what was held for
    /// them.
    fn set(&mut self, labels: Vec<String>, value: i64)
        requires
            old(self).wf(),
            labels@.len() == old(self).arity(),
        ensures
            final(self).wf(),
            final(self).arity() == old(self).arity(),
            final(self).samples() == old(self).samples().insert(texts(labels@), value),
    {
        let ghost key = texts(labels@);
        let ghost before = self.entries();
        match self.find(&labels) {
            Some(i) => {
                self.samples.set(i, Sample { labels, value });
                proof {
                    assert(self.entries() =~= before.update(i as int, (before[i as int].0, value)));
                    lemma_distinct_is_last(before, i as int);
                    lemma_written_update(Map::empty(), before, i as int, value);
                    lemma_update_keeps_distinct(before, i as int, value);
                }
            },
            None => {
                self.samples.push(Sample { labels, value });
                proof {
                    assert(self.entries() =~= before.push((key, value)));
                    lemma_written_push(Map::empty(), before, key, value);
                    lemma_push_keeps_distinct(before, key, value);
                }
            },
        }
    }
}

/// Every family is described in a way that the encoding library accepts: its
/// help text is not empty, its name is a metric name, and its label names are
/// label names that differ from one another.
pub proof fn lemma_descriptions_are_accepted(metric: Metric)
    ensures
        family_accepted(metric.name_text(), metric.help_text(), metric.label_texts()),
{
    reveal_strlit("envoy_build_info");
    reveal_strlit("envoy_online");
    reveal_strlit("envoy_current_watts");
    reveal_strlit("envoy_today_watt_hours");
    reveal_strlit("envoy_lifetime_watt_hours");
    reveal_strlit("envoy_inverter_last_watts");
    reveal_strlit("A metric with a constant '1' value labeled by version, revision and rustversion");
    reveal_strlit("Metric scraping successful");
    reveal_strlit("Number of watts being produced");
    reveal_strlit("Number of watt hours produced today");
    reveal_strlit("Number of watt hours ever produced");
    reveal_strlit("Number of watts last reported produced by an inverter");
    reveal_strlit("version");
    reveal_strlit("revision");
    reveal_strlit("rustversion");
    reveal_strlit("host");
    reveal_strlit("envoy");
    reveal_strlit("inverter");
    assert(is_name("version"@, false) && is_name("revision"@, false) && is_name(
        "rustversion"@,
        false,
    ));
    assert(is_name("host"@, false) && is_name("envoy"@, false) && is_name("inverter"@, false));
    assert("version"@ != "revision"@ && "version"@ != "rustversion"@ && "revision"@
        != "rustversion"@);
    assert("host"@ != "envoy"@ && "host"@ != "inverter"@ && "envoy"@ != "inverter"@);
    assert(is_name(metric.name_text(), true));
}

/// Why the registry could not be rendered.
#[derive(Clone, Copy, Debug, PartialEq, Eq, Structural)]
pub enum RenderError {
    /// The encoding library refused to register a family.
    Rejected,
    /// The encoding library could not encode what it had accepted.
    Unencodable,
}

/// The encoding library takes each of `families` into its registry, one
/// after another.
pub open spec fn registrable(families: Seq<GaugeFamily>) -> bool {
    forall|k: int|
        0 <= k < families.len() ==> registration_accepted(families.take(k), #[trigger] families[k])
}

/// What rendering `families` gives: the text that the encoding library
/// writes for them, or why there is none.
pub open spec fn rendered(families: Seq<GaugeFamily>) -> Result<Seq<u8>, RenderError> {
    if !registrable(families) {
        Err(RenderError::Rejected)
    } else {
        match exposition(families) {
            Some(bytes) => Ok(bytes),
            None => Err(RenderError::Unencodable),
        }
    }
}

/// `res` is what `render` may return for a registry whose rendering is
/// `rendering`.
pub open spec fn is_rendering(
    res: Result<Vec<u8>, RenderError>,
    rendering: Result<Seq<u8>, RenderError>,
) -> bool {
    match res {
        Ok(bytes) => rendering == Ok::<Seq<u8>, RenderError>(bytes@),
        Err(e) => rendering == Err::<Seq<u8>, RenderError>(e),
    }
}

/// Rendering is repeatable: two renderings of one registry, with no write
/// between them, succeed or fail alike, and where they succeed they give the
/// same bytes.
pub proof fn lemma_render_is_repeatable(
    registry: MetricsRegistry,
    first: Result<Vec<u8>, RenderError>,
    second: Result<Vec<u8>, RenderError>,
)
    requires
        is_rendering(first, registry.rendering()),
        is_rendering(second, registry.rendering()),
    ensures
        first is Ok <==> second is Ok,
        first is Ok ==> first->Ok_0@ == second->Ok_0@,
        first is Err ==> first->Err_0 == second->Err_0,
{
}

/// The gauges of the exporter. A sample is written in place: the last write
/// under a family and label values is the one that is held.
pub struct MetricsRegistry {
    build_info: Family,
    online: Family,
    current_watts: Family,
    today_watt_hours: Family,
    lifetime_watt_hours: Family,
    inverter_last_watts: Family,
}

impl View for MetricsRegistry {
    type V = Map<SampleKey, i64>;

    /// Every sample held, by family and label values.
    closed spec fn view(&self) -> Map<SampleKey, i64> {
        Map::new(
            |key: SampleKey| self.family(key.0).samples().dom().contains(key.1),
            |key: SampleKey| self.family(key.0).samples()[key.1],
        )
    }
}

impl MetricsRegistry {
    #[verifier::type_invariant]
    closed spec fn inv(&self) -> bool {
        forall|metric: Metric|
            (#[trigger] self.family(metric)).wf() && self.family(metric).arity() == metric.arity()
    }

    /// The samples of one family.
    spec fn family(&self, metric: Metric) -> Family {
        match metric {
            Metric::BuildInfo => self.build_info,
            Metric::Online => self.online,
            Metric::CurrentWatts => self.current_watts,
            Metric::TodayWattHours => self.today_watt_hours,
            Metric::LifetimeWattHours => self.lifetime_watt_hours,
            Metric::InverterLastWatts => self.inverter_last_watts,
        }
    }

    /// What is handed to the encoder for one family: its description and its
    /// samples in the order held.
    spec fn described(&self, metric: Metric) -> GaugeFamily {
        GaugeFamily {
            name: metric.name_text(),
            help: metric.help_text(),
            label_names: metric.label_texts(),
            writes: self.family(metric).entries(),
        }
    }

    /// What is handed to the encoder: every family, in the order of
    /// `Metric::all`.
    pub closed spec fn published(&self) -> Seq<GaugeFamily> {
        Metric::all_spec().map_values(|metric: Metric| self.described(metric))
    }

    /// What `render` gives for this registry.
    pub open spec fn rendering(&self) -> Result<Seq<u8>, RenderError> {
        rendered(self.published())
    }

    /// What is handed to the encoder is the registry and nothing else: the
    /// families of `Metric::all`, each described as `Metric` says, each
    /// holding every sample of that family once.
    pub open spec fn publishes_its_samples(&self) -> bool {
        &&& self.published().len() == Metric::all_spec().len()
        &&& forall|k: int|
            0 <= k < Metric::all_spec().len() ==> {
                let metric = Metric::all_spec()[k];
                let family = #[trigger] self.published()[k];
                &&& family.name == metric.name_text()
                &&& family.help == metric.help_text()
                &&& family.label_names == metric.label_texts()
                &&& distinct_keys(family.writes)
                &&& forall|labels: Seq<Seq<char>>|
                    #![trigger self@.dom().contains((metric, labels))]
                    {
                        &&& collected(family.writes).dom().contains(labels) == self@.dom().contains(
                            (metric, labels),
                        )
                        &&& self@.dom().contains((metric, labels)) ==> collected(
                            family.writes,
                        )[labels] == self@[(metric, labels)]
                    }
            }
    }

    /// A registry without samples.
    pub fn new() -> (res: MetricsRegistry)
        ensures
            res@ == Map::<SampleKey, i64>::empty(),
    {
        let res = MetricsRegistry {
            build_info: Family::new(3),
            online: Family::new(2),
            current_watts: Family::new(2),
            today_watt_hours: Family::new(2),
            lifetime_watt_hours: Family::new(2),
            inverter_last_watts: Family::new(3),
        };
        assert(res@ =~= Map::<SampleKey, i64>::empty());
        res
    }

    fn family_of(&self, metric: Metric) -> (res: &Family)
        ensures
            *res == self.family(metric),
    {
        match metric {
            Metric::BuildInfo => &self.build_info,
            Metric::Online => &self.online,
            Metric::CurrentWatts => &self.current_watts,
            Metric::TodayWattHours => &self.today_watt_hours,
            Metric::LifetimeWattHours => &self.lifetime_watt_hours,
            Metric::InverterLastWatts => &self.inverter_last_watts,
        }
    }

    /// The value held under a family and label values, if any.
    pub fn get(&self, metric: Metric, labels: &Vec<String>) -> (res: Option<i64>)
        ensures
            res == if self@.dom().contains((metric, texts(labels@))) {
                Some(self@[(metric, texts(labels@))])
            } else {
                None
            },
    {
        proof {
            use_type_invariant(self);
            assert(self.family(metric).wf());
        }
        self.family_of(metric).get(labels)
    }

    /// Writes `value` under a family and label values, in place of what was
    /// held there; every other sample stays as it was.
    fn set(&mut self, metric: Metric, labels: Vec<String>, value: i64)
        requires
            labels@.len() == metric.arity(),
        ensures
            final(self)@ == old(self)@.insert((metric, texts(labels@)), value),
    {
        proof {
            use_type_invariant(&*self);
            assert(self.family(metric).wf());
        }
        let ghost before = *self;
        let ghost key = texts(labels@);
        let mut taken = MetricsRegistry::new();
        core::mem::swap(self, &mut taken);
        let MetricsRegistry {
            mut build_info,
            mut online,
            mut current_watts,
            mut today_watt_hours,
            mut lifetime_watt_hours,
            mut inverter_last_watts,
        } = taken;
        match metric {
            Metric::BuildInfo => build_info.set(labels, value),
            Metric::Online => online.set(labels, value),
            Metric::CurrentWatts => current_watts.set(labels, value),
            Metric::TodayWattHours => today_watt_hours.set(labels, value),
            Metric::LifetimeWattHours => lifetime_watt_hours.set(labels, value),
            Metric::InverterLastWatts => inverter_last_watts.set(labels, value),
        }
        let ghost after = MetricsRegistry {
            build_info,
            online,
            current_watts,
            today_watt_hours,
            lifetime_watt_hours,
            inverter_last_watts,
        };
        proof {
            assert forall|other: Metric| other != metric implies #[trigger] after.family(other)
                == before.family(other) by {}
            assert forall|other: Metric|
                (#[trigger] after.family(other)).wf() && after.family(other).arity()
                    == other.arity() by {
                assert(before.family(other).wf());
            }
            assert(after@ =~= before@.insert((metric, key), value));
        }
        *self = MetricsRegistry {
            build_info,
            online,
            current_watts,
            today_watt_hours,
            lifetime_watt_hours,
            inverter_last_watts,
        };
    }

    /// Records whether the device `serial` at `host` answered the last poll:
    /// 1 if it did, 0 if not.
    pub fn set_online(&mut self, host: &str, serial: &str, up: bool)
        ensures
            final(self)@ == old(self)@.insert(
                (Metric::Online, seq![host@, serial@]),
                if up { 1i64 } else { 0i64 },
            ),
    {
        let value: i64 = if up { 1 } else { 0 };
        self.set(Metric::Online, pair(host, serial), value);
    }

    /// Records the power that the device produces now.
    pub fn set_current_watts(&mut self, host: &str, serial: &str, watts: i64)
        ensures
            final(self)@ == old(self)@.insert((Metric::CurrentWatts, seq![host@, serial@]), watts),
    {
        self.set(Metric::CurrentWatts, pair(host, serial), watts);
    }

    /// Records the energy that the device has produced over its lifetime.
    pub fn set_lifetime_watt_hours(&mut self, host: &str, serial: &str, watt_hours: i64)
        ensures
            final(self)@ == old(self)@.insert(
                (Metric::LifetimeWattHours, seq![host@, serial@]),
                watt_hours,
            ),
    {
        self.set(Metric::LifetimeWattHours, pair(host, serial), watt_hours);
    }

    /// Records the energy that the device has produced today.
    pub fn set_today_watt_hours(&mut self, host: &str, serial: &str, watt_hours: i64)
        ensures
            final(self)@ == old(self)@.insert(
                (Metric::TodayWattHours, seq![host@, serial@]),
                watt_hours,
            ),
    {
        self.set(Metric::TodayWattHours, pair(host, serial), watt_hours);
    }

    /// Records the power that one inverter of the device last reported.
    pub fn set_inverter_watts(&mut self, host: &str, serial: &str, inverter_serial: &str, watts: i64)
        ensures
            final(self)@ == old(self)@.insert(
                (Metric::InverterLastWatts, seq![host@, serial@, inverter_serial@]),
                watts,
            ),
    {
        self.set(Metric::InverterLastWatts, triple(host, serial, inverter_serial), watts);
    }

    /// Records the build that is running, as a sample of constant value 1.
    pub fn set_build_info(&mut self, version: &str, revision: &str, runtime_version: &str)
        ensures
            final(self)@ == old(self)@.insert(
                (Metric::BuildInfo, seq![version@, revision@, runtime_version@]),
                1i64,
            ),
    {
        self.set(Metric::BuildInfo, triple(version, revision, runtime_version), 1);
    }

    /// The registry in the text exposition format, as the encoding library
    /// writes it. The bytes depend on nothing but the samples held: rendering
    /// the same registry again gives the same bytes.
    pub fn render(&self) -> (res: Result<Vec<u8>, RenderError>)
        ensures
            is_rendering(res, self.rendering()),
            self.publishes_its_samples(),
    {
        proof {
            use_type_invariant(self);
            assert forall|k: int| 0 <= k < Metric::all_spec().len() implies {
                let metric = Metric::all_spec()[k];
                distinct_keys((#[trigger] self.published()[k]).writes) && self.published()[k]
                    == self.described(metric)
            } by {
                assert(self.family(Metric::all_spec()[k]).wf());
            }
        }
        let metrics = Metric::all();
        let ghost families = self.published();
        let mut registry = registry_new();
        let mut k: usize = 0;
        while k < metrics.len()
            invariant
                self.inv(),
                metrics@ == Metric::all_spec(),
                families == self.published(),
                k <= metrics.len(),
                registry_families(registry) == families.take(k as int),
                forall|j: int|
                    0 <= j < k ==> registration_accepted(families.take(j), #[trigger] families[j]),
            decreases metrics.len() - k,
        {
            let metric = metrics[k];
            let family = self.family_of(metric);
            assert(families[k as int] == self.described(metric));
            assert(self.family(metric).wf() && self.family(metric).arity() == metric.arity());
            let label_names = metric.label_names();
            let mut gauges = match gauge_new(metric.name(), metric.help(), &label_names) {
                Ok(gauges) => gauges,
                Err(_) => {
                    proof {
                        lemma_descriptions_are_accepted(metric);
                    }
                    return Err(RenderError::Rejected);
                },
            };
            let mut i: usize = 0;
            assert(family.entries().take(0) =~= Seq::<(Seq<Seq<char>>, i64)>::empty());
            while i < family.samples.len()
                invariant
                    family.wf(),
                    family.arity() == metric.arity(),
                    i <= family.samples.len(),
                    gauge_family(gauges) == (GaugeFamily {
                        name: metric.name_text(),
                        help: metric.help_text(),
                        label_names: metric.label_texts(),
                        writes: family.entries().take(i as int),
                    }),
                decreases family.samples.len() - i,
            {
                let sample = &family.samples[i];
                assert(family.entries()[i as int].0.len() == family.arity());
                gauge_set(&mut gauges, &sample.labels, sample.value);
                assert(family.entries().take(i as int).push(family.entries()[i as int])
                    =~= family.entries().take(i + 1));
                i += 1;
            }
            assert(family.entries().take(i as int) =~= family.entries());
            match registry_register(&mut registry, gauges) {
                Ok(()) => {},
                Err(_) => {
                    return Err(RenderError::Rejected);
                },
            }
            assert(families.take(k as int).push(families[k as int]) =~= families.take(k + 1));
            k += 1;
        }
        assert(families.take(k as int) =~= families);
        match registry_render(&registry) {
            Ok(bytes) => Ok(bytes),
            Err(_) => Err(RenderError::Unencodable),
        }
    }
}

/// Two label values as a vector.
fn pair(first: &str, second: &str) -> (res: Vec<String>)
    ensures
        texts(res@) == seq![first@, second@],
        res@.len() == 2,
{
    let mut labels: Vec<String> = Vec::new();
    labels.push(first.to_owned());
    labels.push(second.to_owned());
    assert(texts(labels@) =~= seq![first@, second@]);
    labels
}

/// Three label values as a vector.
fn triple(first: &str, second: &str, third: &str) -> (res: Vec<String>)
    ensures
        texts(res@) == seq![first@, second@, third@],
        res@.len() == 3,
{
    let mut labels: Vec<String> = Vec::new();
    labels.push(first.to_owned());
    labels.push(second.to_owned());
    labels.push(third.to_owned());
    assert(texts(labels@) =~= seq![first@, second@, third@]);
    labels
}

} // verus!
