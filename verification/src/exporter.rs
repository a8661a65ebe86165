//! The scrape handler: what a request is answered with, and what a scrape
//! writes into the registry.
//!
//! The caller owns the sockets. For a request to the metrics path it polls
//! each configured device and hands the outcomes to `Exporter::scrape`; for
//! any other request it sends `Exporter::landing_page`.

use vstd::prelude::*;
use vstd::string::*;

use crate::config::{Config, DeviceConfig, DeviceModel};
use crate::envoy_reader::{EnvoyError, EnvoyStatus, StatusModel};
use crate::exposition::text_format;
use crate::gauges::{Metric, MetricsRegistry, RenderError, SampleKey};
use crate::assoc::{agree_at, collected, lemma_written_push};

verus! {

/// The page that every path but the metrics path is answered with.
pub const LANDING_PAGE: &'static str =
    "<html>\n<head><title>Enphase Envoy Exporter</title></head>\n<body>\n<h1>Enphase Envoy Exporter</h1>\n<p><a href=\"/metrics\">Metrics</a></p>\n</body>\n";

/// The path under which the metrics are served.
pub const METRICS_PATH: &'static str = "/metrics";

/// The status of every response: device failures show in the samples, never
/// in the status.
pub const STATUS_OK: u16 = 200;

/// The build that is running, as the labels of the build-info sample.
#[derive(Debug)]
pub struct BuildInfo {
    pub version: String,
    pub revision: String,
    pub rust_version: String,
}

/// The target of a request, as far as the handler tells targets apart.
#[derive(Debug)]
pub enum RequestTarget {
    /// An absolute path, query included, as the request line holds it.
    AbsolutePath(String),
    /// Any other form of target.
    Other,
}

/// What a request asks for.
#[derive(Clone, Copy, Debug, PartialEq, Eq, Structural)]
pub enum Route {
    /// A scrape: poll the devices and send the metrics.
    Metrics,
    /// The landing page.
    Landing,
}

/// What is sent back.
#[derive(Debug)]
pub struct Response {
    pub status: u16,
    pub content_type: String,
    pub body: Vec<u8>,
}

/// The outcome of polling one device.
pub type Outcome = Result<EnvoyStatus, EnvoyError>;

/// The outcome of polling one device, as plain mathematical values.
pub type OutcomeModel = Result<StatusModel, EnvoyError>;

/// An outcome as plain mathematical values.
pub open spec fn outcome_model(outcome: Outcome) -> OutcomeModel {
    match outcome {
        Ok(status) => Ok(status@),
        Err(e) => Err(e),
    }
}

/// Outcomes as plain mathematical values.
pub open spec fn outcome_models(outcomes: Seq<Outcome>) -> Seq<OutcomeModel> {
    outcomes.map_values(|outcome: Outcome| outcome_model(outcome))
}

/// The key of a sample that a device has one of.
pub open spec fn device_key(metric: Metric, host: Seq<char>, sn: Seq<char>) -> SampleKey {
    (metric, seq![host, sn])
}

/// The key of the sample of one inverter of a device.
pub open spec fn inverter_key(host: Seq<char>, sn: Seq<char>, serial: Seq<char>) -> SampleKey {
    (Metric::InverterLastWatts, seq![host, sn, serial])
}

/// `key` is the key of one of `inverters`, as inverters of the device `sn` at
/// `host`.
pub open spec fn is_inverter_key(
    key: SampleKey,
    host: Seq<char>,
    sn: Seq<char>,
    inverters: Map<Seq<char>, i64>,
) -> bool {
    &&& key.0 == Metric::InverterLastWatts
    &&& key.1.len() == 3
    &&& key.1[0] == host
    &&& key.1[1] == sn
    &&& inverters.dom().contains(key.1[2])
}

/// `samples` after each of `inverters` was written as an inverter of the
/// device `sn` at `host`.
pub open spec fn with_inverters(
    samples: Map<SampleKey, i64>,
    host: Seq<char>,
    sn: Seq<char>,
    inverters: Map<Seq<char>, i64>,
) -> Map<SampleKey, i64> {
    Map::new(
        |key: SampleKey| samples.dom().contains(key) || is_inverter_key(key, host, sn, inverters),
        |key: SampleKey|
            if is_inverter_key(key, host, sn, inverters) {
                inverters[key.1[2]]
            } else {
                samples[key]
            },
    )
}

/// 1 for an online device, 0 for an offline one.
pub open spec fn online_value(online: bool) -> i64 {
    if online {
        1
    } else {
        0
    }
}

/// `samples` after the outcome of polling the device `sn` at `host` was
/// written. A snapshot writes every one of its fields. A failure writes the
/// online sample, as 0, and nothing else.
pub open spec fn recorded(
    samples: Map<SampleKey, i64>,
    host: Seq<char>,
    sn: Seq<char>,
    outcome: OutcomeModel,
) -> Map<SampleKey, i64> {
    match outcome {
        Err(_) => samples.insert(device_key(Metric::Online, host, sn), 0),
        Ok(status) => with_inverters(
            samples.insert(device_key(Metric::Online, host, sn), online_value(status.online)).insert(
                device_key(Metric::CurrentWatts, host, sn),
                status.watts_now,
            ).insert(
                device_key(Metric::LifetimeWattHours, host, sn),
                status.watt_hours_lifetime,
            ).insert(device_key(Metric::TodayWattHours, host, sn), status.watt_hours_today),
            host,
            sn,
            status.inverters,
        ),
    }
}

/// `samples` after the outcomes of the first `n` devices were written, in the
/// order of the devices.
pub open spec fn scraped(
    samples: Map<SampleKey, i64>,
    devices: Seq<DeviceModel>,
    outcomes: Seq<OutcomeModel>,
    n: nat,
) -> Map<SampleKey, i64>
    decreases n,
{
    if n == 0 {
        samples
    } else {
        recorded(
            scraped(samples, devices, outcomes, (n - 1) as nat),
            devices[n - 1].host,
            devices[n - 1].sn,
            outcomes[n - 1],
        )
    }
}

/// The number of devices that a scrape with `outcomes` outcomes writes: each
/// outcome belongs to the device at its place.
pub open spec fn polled(devices: nat, outcomes: nat) -> nat {
    if devices <= outcomes {
        devices
    } else {
        outcomes
    }
}

/// `samples` after a scrape: the outcomes are written for as many devices as
/// there are outcomes, then the build-info sample.
pub open spec fn after_scrape(
    samples: Map<SampleKey, i64>,
    devices: Seq<DeviceModel>,
    outcomes: Seq<OutcomeModel>,
    build: Seq<Seq<char>>,
) -> Map<SampleKey, i64> {
    scraped(samples, devices, outcomes, polled(devices.len(), outcomes.len())).insert(
        (Metric::BuildInfo, build),
        1,
    )
}

/// `key` is the key of a sample of the device `sn` at `host`.
pub open spec fn belongs_to(key: SampleKey, host: Seq<char>, sn: Seq<char>) -> bool {
    &&& key.0 != Metric::BuildInfo
    &&& key.1.len() >= 2
    &&& key.1[0] == host
    &&& key.1[1] == sn
}

/// Two devices carry the same labels.
pub open spec fn same_labels(a: DeviceModel, b: DeviceModel) -> bool {
    a.host == b.host && a.sn == b.sn
}

/// `samples` hold every field of `status` as a sample of the device `sn` at
/// `host`.
pub open spec fn shows(
    samples: Map<SampleKey, i64>,
    host: Seq<char>,
    sn: Seq<char>,
    status: StatusModel,
) -> bool {
    &&& samples.dom().contains(device_key(Metric::Online, host, sn))
    &&& samples[device_key(Metric::Online, host, sn)] == online_value(status.online)
    &&& samples.dom().contains(device_key(Metric::CurrentWatts, host, sn))
    &&& samples[device_key(Metric::CurrentWatts, host, sn)] == status.watts_now
    &&& samples.dom().contains(device_key(Metric::LifetimeWattHours, host, sn))
    &&& samples[device_key(Metric::LifetimeWattHours, host, sn)] == status.watt_hours_lifetime
    &&& samples.dom().contains(device_key(Metric::TodayWattHours, host, sn))
    &&& samples[device_key(Metric::TodayWattHours, host, sn)] == status.watt_hours_today
    &&& forall|serial: Seq<char>|
        status.inverters.dom().contains(serial) ==> {
            &&& samples.dom().contains(#[trigger] inverter_key(host, sn, serial))
            &&& samples[inverter_key(host, sn, serial)] == status.inverters[serial]
        }
}

/// Writing no inverter changes nothing.
pub proof fn lemma_with_no_inverters(samples: Map<SampleKey, i64>, host: Seq<char>, sn: Seq<char>)
    ensures
        with_inverters(samples, host, sn, Map::empty()) == samples,
{
    assert(with_inverters(samples, host, sn, Map::empty()) =~= samples);
}

/// Writing one more inverter is one `insert`.
pub proof fn lemma_with_one_more_inverter(
    samples: Map<SampleKey, i64>,
    host: Seq<char>,
    sn: Seq<char>,
    inverters: Map<Seq<char>, i64>,
    serial: Seq<char>,
    watts: i64,
)
    ensures
        with_inverters(samples, host, sn, inverters).insert(inverter_key(host, sn, serial), watts)
            == with_inverters(samples, host, sn, inverters.insert(serial, watts)),
{
    let key = inverter_key(host, sn, serial);
    let left = with_inverters(samples, host, sn, inverters).insert(key, watts);
    let right = with_inverters(samples, host, sn, inverters.insert(serial, watts));
    assert(key.1[0] == host && key.1[1] == sn && key.1[2] == serial);
    assert forall|k: SampleKey| #[trigger] left.dom().contains(k) == right.dom().contains(k) && (
    left.dom().contains(k) ==> left[k] == right[k]) by {
        if k != key && k.0 == Metric::InverterLastWatts && k.1.len() == 3 && k.1[0] == host
            && k.1[1] == sn && k.1[2] == serial {
            assert(k.1 =~= key.1);
        }
    }
    assert(left =~= right);
}

/// Writing the outcome of one device touches the samples of that device
/// only.
pub proof fn lemma_record_touches_own_samples(
    samples: Map<SampleKey, i64>,
    host: Seq<char>,
    sn: Seq<char>,
    outcome: OutcomeModel,
    key: SampleKey,
)
    requires
        !belongs_to(key, host, sn),
    ensures
        agree_at(recorded(samples, host, sn, outcome), samples, key),
{
    assert(device_key(Metric::Online, host, sn).1[0] == host);
    assert(device_key(Metric::Online, host, sn).1[1] == sn);
}

/// A failed poll sets the device's online sample to 0 and leaves every other
/// sample as it was.
pub proof fn lemma_failure_marks_offline_only(
    samples: Map<SampleKey, i64>,
    host: Seq<char>,
    sn: Seq<char>,
    error: EnvoyError,
    key: SampleKey,
)
    ensures
        recorded(samples, host, sn, Err(error)).dom().contains(device_key(Metric::Online, host, sn)),
        recorded(samples, host, sn, Err(error))[device_key(Metric::Online, host, sn)] == 0,
        key != device_key(Metric::Online, host, sn) ==> agree_at(
            recorded(samples, host, sn, Err(error)),
            samples,
            key,
        ),
{
}

/// A snapshot shows in the samples with every one of its fields.
pub proof fn lemma_snapshot_is_written(
    samples: Map<SampleKey, i64>,
    host: Seq<char>,
    sn: Seq<char>,
    status: StatusModel,
)
    ensures
        shows(recorded(samples, host, sn, Ok(status)), host, sn, status),
{
    let after = recorded(samples, host, sn, Ok(status));
    assert(device_key(Metric::Online, host, sn).1.len() == 2);
    assert forall|serial: Seq<char>| status.inverters.dom().contains(serial) implies {
        &&& after.dom().contains(#[trigger] inverter_key(host, sn, serial))
        &&& after[inverter_key(host, sn, serial)] == status.inverters[serial]
    } by {
        let key = inverter_key(host, sn, serial);
        assert(key.1[0] == host && key.1[1] == sn && key.1[2] == serial);
    }
}

/// The samples of a device that no polled device carries the labels of are
/// as they were before the scrape.
pub proof fn lemma_scrape_touches_polled_devices(
    samples: Map<SampleKey, i64>,
    devices: Seq<DeviceModel>,
    outcomes: Seq<OutcomeModel>,
    n: nat,
    key: SampleKey,
)
    requires
        n <= devices.len(),
        forall|j: int| 0 <= j < n ==> !belongs_to(key, (#[trigger] devices[j]).host, devices[j].sn),
    ensures
        agree_at(scraped(samples, devices, outcomes, n), samples, key),
    decreases n,
{
    if n > 0 {
        lemma_scrape_touches_polled_devices(samples, devices, outcomes, (n - 1) as nat, key);
        assert(!belongs_to(key, devices[n - 1].host, devices[n - 1].sn));
        lemma_record_touches_own_samples(
            scraped(samples, devices, outcomes, (n - 1) as nat),
            devices[n - 1].host,
            devices[n - 1].sn,
            outcomes[n - 1],
            key,
        );
    }
}

/// One device's failure never keeps another device's samples out of the
/// response: after a scrape, the snapshot of a device that answered shows
/// with every one of its fields, whatever the outcomes of the other devices
/// were. (Where a device polled later carries the same labels, that one's
/// outcome is what shows: the law speaks of a device whose outcome no later
/// device of the same labels replaces by another.)
pub proof fn lemma_answer_shows_whatever_others_did(
    samples: Map<SampleKey, i64>,
    devices: Seq<DeviceModel>,
    outcomes: Seq<OutcomeModel>,
    build: Seq<Seq<char>>,
    i: int,
)
    requires
        0 <= i < polled(devices.len(), outcomes.len()),
        outcomes[i] is Ok,
        forall|j: int|
            i < j < polled(devices.len(), outcomes.len()) && same_labels(
                #[trigger] devices[j],
                devices[i],
            ) ==> outcomes[j] == outcomes[i],
    ensures
        shows(
            after_scrape(samples, devices, outcomes, build),
            devices[i].host,
            devices[i].sn,
            outcomes[i]->Ok_0,
        ),
{
    let n = polled(devices.len(), outcomes.len());
    lemma_scraped_answer_shows(samples, devices, outcomes, n, i);
    let host = devices[i].host;
    let sn = devices[i].sn;
    let status = outcomes[i]->Ok_0;
    let before = scraped(samples, devices, outcomes, n);
    let after = after_scrape(samples, devices, outcomes, build);
    assert forall|serial: Seq<char>| status.inverters.dom().contains(serial) implies {
        &&& after.dom().contains(#[trigger] inverter_key(host, sn, serial))
        &&& after[inverter_key(host, sn, serial)] == status.inverters[serial]
    } by {
        assert(before.dom().contains(inverter_key(host, sn, serial)));
    }
}

proof fn lemma_scraped_answer_shows(
    samples: Map<SampleKey, i64>,
    devices: Seq<DeviceModel>,
    outcomes: Seq<OutcomeModel>,
    n: nat,
    i: int,
)
    requires
        0 <= i < n <= devices.len(),
        outcomes[i] is Ok,
        forall|j: int|
            i < j < n && same_labels(#[trigger] devices[j], devices[i]) ==> outcomes[j]
                == outcomes[i],
    ensures
        shows(
            scraped(samples, devices, outcomes, n),
            devices[i].host,
            devices[i].sn,
            outcomes[i]->Ok_0,
        ),
    decreases n,
{
    let host = devices[i].host;
    let sn = devices[i].sn;
    let status = outcomes[i]->Ok_0;
    let earlier = scraped(samples, devices, outcomes, (n - 1) as nat);
    let after = scraped(samples, devices, outcomes, n);
    let other = devices[n - 1];
    if i == n - 1 || same_labels(other, devices[i]) {
        lemma_snapshot_is_written(earlier, host, sn, status);
    } else {
        lemma_scraped_answer_shows(samples, devices, outcomes, (n - 1) as nat, i);
        lemma_keeps_what_shows(earlier, host, sn, status, other.host, other.sn, outcomes[n - 1]);
    }
}

/// Writing the outcome of a device with other labels keeps what shows of a
/// device.
proof fn lemma_keeps_what_shows(
    samples: Map<SampleKey, i64>,
    host: Seq<char>,
    sn: Seq<char>,
    status: StatusModel,
    other_host: Seq<char>,
    other_sn: Seq<char>,
    outcome: OutcomeModel,
)
    requires
        shows(samples, host, sn, status),
        !(other_host == host && other_sn == sn),
    ensures
        shows(recorded(samples, other_host, other_sn, outcome), host, sn, status),
{
    let after = recorded(samples, other_host, other_sn, outcome);
    assert forall|metric: Metric| metric != Metric::BuildInfo implies agree_at(
        after,
        samples,
        #[trigger] device_key(metric, host, sn),
    ) by {
        let key = device_key(metric, host, sn);
        assert(key.1[0] == host && key.1[1] == sn);
        lemma_record_touches_own_samples(samples, other_host, other_sn, outcome, key);
    }
    assert forall|serial: Seq<char>| status.inverters.dom().contains(serial) implies {
        &&& after.dom().contains(#[trigger] inverter_key(host, sn, serial))
        &&& after[inverter_key(host, sn, serial)] == status.inverters[serial]
    } by {
        let key = inverter_key(host, sn, serial);
        assert(key.1[0] == host && key.1[1] == sn);
        lemma_record_touches_own_samples(samples, other_host, other_sn, outcome, key);
    }
}

/// After a scrape in which a device failed, its online sample is 0, and every
/// other sample of that device is as it was before the scrape. (Where the
/// configuration names the labels of the device more than once, this is
/// stated of a scrape in which every device of these labels failed.)
pub proof fn lemma_failed_device_is_offline_and_untouched(
    samples: Map<SampleKey, i64>,
    devices: Seq<DeviceModel>,
    outcomes: Seq<OutcomeModel>,
    build: Seq<Seq<char>>,
    i: int,
    key: SampleKey,
)
    requires
        0 <= i < polled(devices.len(), outcomes.len()),
        outcomes[i] is Err,
        forall|j: int|
            0 <= j < polled(devices.len(), outcomes.len()) && same_labels(
                #[trigger] devices[j],
                devices[i],
            ) ==> outcomes[j] is Err,
        belongs_to(key, devices[i].host, devices[i].sn),
    ensures
        after_scrape(samples, devices, outcomes, build).dom().contains(
            device_key(Metric::Online, devices[i].host, devices[i].sn),
        ),
        after_scrape(samples, devices, outcomes, build)[device_key(
            Metric::Online,
            devices[i].host,
            devices[i].sn,
        )] == 0,
        key != device_key(Metric::Online, devices[i].host, devices[i].sn) ==> agree_at(
            after_scrape(samples, devices, outcomes, build),
            samples,
            key,
        ),
{
    let n = polled(devices.len(), outcomes.len());
    lemma_scraped_failed_device(samples, devices, outcomes, n, i, key);
}

proof fn lemma_scraped_failed_device(
    samples: Map<SampleKey, i64>,
    devices: Seq<DeviceModel>,
    outcomes: Seq<OutcomeModel>,
    n: nat,
    i: int,
    key: SampleKey,
)
    requires
        n <= devices.len(),
        0 <= i < devices.len(),
        forall|j: int|
            0 <= j < n && same_labels(#[trigger] devices[j], devices[i]) ==> outcomes[j] is Err,
        belongs_to(key, devices[i].host, devices[i].sn),
    ensures
        i < n ==> {
            &&& scraped(samples, devices, outcomes, n).dom().contains(
                device_key(Metric::Online, devices[i].host, devices[i].sn),
            )
            &&& scraped(samples, devices, outcomes, n)[device_key(
                Metric::Online,
                devices[i].host,
                devices[i].sn,
            )] == 0
        },
        key != device_key(Metric::Online, devices[i].host, devices[i].sn) ==> agree_at(
            scraped(samples, devices, outcomes, n),
            samples,
            key,
        ),
    decreases n,
{
    if n > 0 {
        let host = devices[i].host;
        let sn = devices[i].sn;
        let online = device_key(Metric::Online, host, sn);
        let earlier = scraped(samples, devices, outcomes, (n - 1) as nat);
        lemma_scraped_failed_device(samples, devices, outcomes, (n - 1) as nat, i, key);
        let other = devices[n - 1];
        if same_labels(other, devices[i]) {
            assert(outcomes[n - 1] is Err);
            lemma_failure_marks_offline_only(earlier, host, sn, outcomes[n - 1]->Err_0, key);
        } else {
            assert(online.1[0] == host && online.1[1] == sn);
            lemma_record_touches_own_samples(earlier, other.host, other.sn, outcomes[n - 1], key);
            lemma_record_touches_own_samples(
                earlier,
                other.host,
                other.sn,
                outcomes[n - 1],
                online,
            );
        }
    }
}

impl BuildInfo {
    /// The build of the given version. A revision or a compiler version that
    /// is not known counts as the empty string.
    pub fn new(version: &str, revision: Option<&str>, rust_version: Option<&str>) -> (res: BuildInfo)
        ensures
            res.version@ == version@,
            res.revision@ == (match revision {
                Some(text) => text@,
                None => Seq::empty(),
            }),
            res.rust_version@ == (match rust_version {
                Some(text) => text@,
                None => Seq::empty(),
            }),
    {
        BuildInfo {
            version: version.to_owned(),
            revision: match revision {
                Some(text) => text.to_owned(),
                None => String::new(),
            },
            rust_version: match rust_version {
                Some(text) => text.to_owned(),
                None => String::new(),
            },
        }
    }

    /// The label values of the sample that stands for this build.
    pub open spec fn labels(&self) -> Seq<Seq<char>> {
        seq![self.version@, self.revision@, self.rust_version@]
    }
}

/// The exporter: the configured devices, the build it reports, and the
/// registry that every scrape writes into.
pub struct Exporter {
    devices: Vec<DeviceConfig>,
    build: BuildInfo,
    registry: MetricsRegistry,
}

impl Exporter {
    /// The configured devices, in the order of the configuration.
    pub closed spec fn device_models(&self) -> Seq<DeviceModel> {
        self.devices@.map_values(|device: DeviceConfig| device@)
    }

    /// The label values of the build-info sample.
    pub closed spec fn build_labels(&self) -> Seq<Seq<char>> {
        self.build.labels()
    }

    /// Every sample that the registry holds.
    pub closed spec fn samples(&self) -> Map<SampleKey, i64> {
        self.registry@
    }

    /// What rendering the registry gives.
    pub closed spec fn rendering(&self) -> Result<Seq<u8>, RenderError> {
        self.registry.rendering()
    }

    /// An exporter for the devices of `config`, with an empty registry.
    pub fn new(config: &Config, build: BuildInfo) -> (res: Exporter)
        ensures
            res.device_models() == config.device_models(),
            res.build_labels() == build.labels(),
            res.samples() == Map::<SampleKey, i64>::empty(),
    {
        Exporter { devices: config.devices(), build, registry: MetricsRegistry::new() }
    }

    /// The configured devices, in the order in which a scrape polls them.
    pub fn devices(&self) -> (res: &Vec<DeviceConfig>)
        ensures
            res@.map_values(|device: DeviceConfig| device@) == self.device_models(),
    {
        &self.devices
    }

    /// The registry.
    pub fn registry(&self) -> (res: &MetricsRegistry)
        ensures
            res@ == self.samples(),
            res.rendering() == self.rendering(),
    {
        &self.registry
    }

    /// What a request for `target` asks for: the metrics on exactly the
    /// metrics path, the landing page on everything else.
    pub fn route(target: &RequestTarget) -> (res: Route)
        ensures
            res == Route::Metrics <==> (target matches RequestTarget::AbsolutePath(path) && path@
                == METRICS_PATH@),
    {
        match target {
            RequestTarget::AbsolutePath(path) => {
                let metrics = METRICS_PATH.to_owned();
                if *path == metrics {
                    Route::Metrics
                } else {
                    Route::Landing
                }
            },
            RequestTarget::Other => Route::Landing,
        }
    }

    /// The landing page, as HTML. It depends on nothing.
    pub fn landing_page() -> (res: Response)
        ensures
            res.status == STATUS_OK,
            res.content_type@ == "text/html"@,
            res.body@ == LANDING_PAGE.spec_bytes(),
    {
        Response {
            status: STATUS_OK,
            content_type: "text/html".to_owned(),
            body: LANDING_PAGE.as_bytes_vec(),
        }
    }

    /// Writes the outcome of polling the device at place `device` into the
    /// registry. A snapshot writes every one of its fields. A failure sets
    /// the device's online sample to 0 and leaves every other sample as it
    /// was. A place that names no device changes nothing.
    pub fn record(&mut self, device: usize, outcome: &Outcome)
        ensures
            final(self).device_models() == old(self).device_models(),
            final(self).build_labels() == old(self).build_labels(),
            final(self).samples() == if device < old(self).device_models().len() {
                recorded(
                    old(self).samples(),
                    old(self).device_models()[device as int].host,
                    old(self).device_models()[device as int].sn,
                    outcome_model(*outcome),
                )
            } else {
                old(self).samples()
            },
    {
        if device >= self.devices.len() {
            return ;
        }
        let host = self.devices[device].host.as_str();
        let sn = self.devices[device].sn.as_str();
        assert(self.device_models()[device as int] == self.devices@[device as int]@);
        match outcome {
            Err(_) => {
                self.registry.set_online(host, sn, false);
            },
            Ok(status) => {
                self.registry.set_online(host, sn, status.online);
                self.registry.set_current_watts(host, sn, status.watts_now);
                self.registry.set_lifetime_watt_hours(host, sn, status.watt_hours_lifetime);
                self.registry.set_today_watt_hours(host, sn, status.watt_hours_today);
                let ghost base = self.registry@;
                let ghost entries = status.entries();
                proof {
                    lemma_with_no_inverters(base, host@, sn@);
                    assert(entries.take(0) =~= Seq::<(Seq<char>, i64)>::empty());
                }
                let mut i: usize = 0;
                while i < status.inverters.len()
                    invariant
                        i <= status.inverters.len(),
                        entries == status.entries(),
                        self.devices == old(self).devices,
                        self.build == old(self).build,
                        self.registry@ == with_inverters(
                            base,
                            host@,
                            sn@,
                            collected(entries.take(i as int)),
                        ),
                    decreases status.inverters.len() - i,
                {
                    let reading = &status.inverters[i];
                    self.registry.set_inverter_watts(
                        host,
                        sn,
                        reading.serial_number.as_str(),
                        reading.last_report_watts,
                    );
                    proof {
                        let written = collected(entries.take(i as int));
                        lemma_with_one_more_inverter(
                            base,
                            host@,
                            sn@,
                            written,
                            entries[i as int].0,
                            entries[i as int].1,
                        );
                        lemma_written_push(
                            Map::empty(),
                            entries.take(i as int),
                            entries[i as int].0,
                            entries[i as int].1,
                        );
                        assert(entries.take(i as int).push(entries[i as int]) =~= entries.take(
                            i + 1,
                        ));
                    }
                    i += 1;
                }
                assert(entries.take(i as int) =~= entries);
            },
        }
    }

    /// One scrape. Outcome `i` is that of polling device `i`; the outcomes
    /// are written in that order, then the build-info sample, and the
    /// registry is rendered. The response is always of status 200 and of the
    /// encoder's content type.
    pub fn scrape(&mut self, outcomes: &Vec<Outcome>) -> (res: Result<Response, RenderError>)
        ensures
            final(self).device_models() == old(self).device_models(),
            final(self).build_labels() == old(self).build_labels(),
            final(self).samples() == after_scrape(
                old(self).samples(),
                old(self).device_models(),
                outcome_models(outcomes@),
                old(self).build_labels(),
            ),
            match res {
                Ok(response) => {
                    &&& final(self).rendering() == Ok::<Seq<u8>, RenderError>(response.body@)
                    &&& response.status == STATUS_OK
                    &&& response.content_type@ == "text/plain; version=0.0.4"@
                },
                Err(e) => final(self).rendering() == Err::<Seq<u8>, RenderError>(e),
            },
    {
        let ghost before = self.samples();
        let ghost devices = self.device_models();
        let ghost models = outcome_models(outcomes@);
        let mut i: usize = 0;
        while i < self.devices.len() && i < outcomes.len()
            invariant
                i <= self.devices.len(),
                i <= outcomes.len(),
                devices == self.device_models(),
                devices == old(self).device_models(),
                self.build_labels() == old(self).build_labels(),
                models == outcome_models(outcomes@),
                self.samples() == scraped(before, devices, models, i as nat),
            decreases outcomes.len() - i,
        {
            self.record(i, &outcomes[i]);
            assert(models[i as int] == outcome_model(outcomes@[i as int]));
            i += 1;
        }
        assert(i == polled(devices.len(), outcomes@.len()));
        self.registry.set_build_info(
            self.build.version.as_str(),
            self.build.revision.as_str(),
            self.build.rust_version.as_str(),
        );
        match self.registry.render() {
            Ok(body) => Ok(Response { status: STATUS_OK, content_type: text_format(), body }),
            Err(e) => Err(e),
        }
    }
}

} // verus!
