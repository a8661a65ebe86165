//! One device's snapshot and the reader that assembles it.

use vstd::prelude::*;

use vstd::string::*;

use crate::assoc::{
    collected, distinct_keys, has_key, is_last_for_key, lemma_push_keeps_distinct,
    lemma_update_keeps_distinct, lemma_written_dom, lemma_written_last_wins, lemma_written_push,
    lemma_written_update, written,
};
use crate::json::{as_array, as_i64, as_str, json_parse, json_view, json_views, member, parse, Json};

verus! {

/// Why a poll of a device gave no snapshot.
#[derive(Clone, Copy, Debug, PartialEq, Eq, Structural)]
pub enum EnvoyError {
    /// The device could not be reached, or the exchange did not complete.
    Transport,
    /// The device answered with something that is not JSON.
    Decode,
    /// The device answered with JSON that lacks an expected field, or holds
    /// it with another type.
    Schema,
}

impl EnvoyError {
    /// The cause in words.
    pub open spec fn message_text(self) -> Seq<char> {
        match self {
            EnvoyError::Transport => "the device could not be reached"@,
            EnvoyError::Decode => "the reply is not valid JSON"@,
            EnvoyError::Schema => "the reply lacks an expected field"@,
        }
    }

    /// The cause in words, for a log line.
    pub fn message(self) -> (res: String)
        ensures
            res@ == self.message_text(),
    {
        match self {
            EnvoyError::Transport => "the device could not be reached".to_owned(),
            EnvoyError::Decode => "the reply is not valid JSON".to_owned(),
            EnvoyError::Schema => "the reply lacks an expected field".to_owned(),
        }
    }
}

/// What one inverter last reported.
#[derive(Debug)]
pub struct InverterReading {
    pub serial_number: String,
    pub last_report_watts: i64,
}

/// The state of one Envoy as seen by one poll.
#[derive(Debug)]
pub struct EnvoyStatus {
    pub online: bool,
    pub watt_hours_lifetime: i64,
    pub watt_hours_today: i64,
    pub watts_now: i64,
    pub inverters: Vec<InverterReading>,
}

/// An `EnvoyStatus` as plain mathematical values.
pub struct StatusModel {
    pub online: bool,
    pub watt_hours_lifetime: i64,
    pub watt_hours_today: i64,
    pub watts_now: i64,
    pub inverters: Map<Seq<char>, i64>,
}

impl View for EnvoyStatus {
    type V = StatusModel;

    open spec fn view(&self) -> StatusModel {
        StatusModel {
            online: self.online,
            watt_hours_lifetime: self.watt_hours_lifetime,
            watt_hours_today: self.watt_hours_today,
            watts_now: self.watts_now,
            inverters: collected(self.entries()),
        }
    }
}

impl EnvoyStatus {
    /// The inverter readings in the order in which they are held.
    pub open spec fn entries(&self) -> Seq<(Seq<char>, i64)> {
        self.inverters@.map_values(|r: InverterReading| (r.serial_number@, r.last_report_watts))
    }

    /// No serial number is held twice.
    pub open spec fn wf(&self) -> bool {
        distinct_keys(self.entries())
    }

    /// The snapshot of a device of which nothing is known yet: offline, all
    /// counters zero, no inverters.
    pub fn new() -> (res: EnvoyStatus)
        ensures
            res.wf(),
            res@ == (StatusModel {
                online: false,
                watt_hours_lifetime: 0,
                watt_hours_today: 0,
                watts_now: 0,
                inverters: Map::empty(),
            }),
            res.inverters@.len() == 0,
    {
        EnvoyStatus {
            online: false,
            watt_hours_lifetime: 0,
            watt_hours_today: 0,
            watts_now: 0,
            inverters: Vec::new(),
        }
    }

    /// The place of the last reading with this serial number, if there is
    /// one.
    fn find_last(&self, serial_number: &String) -> (res: Option<usize>)
        ensures
            match res {
                Some(i) => is_last_for_key(self.entries(), i as int) && self.entries()[i as int].0
                    == serial_number@,
                None => !has_key(self.entries(), serial_number@),
            },
    {
        let mut i: usize = self.inverters.len();
        while i > 0
            invariant
                i <= self.inverters.len(),
                forall|j: int|
                    i <= j < self.entries().len() ==> (#[trigger] self.entries()[j]).0
                        != serial_number@,
            decreases i,
        {
            i -= 1;
            if self.inverters[i].serial_number == *serial_number {
                return Some(i);
            }
        }
        None
    }

    /// What the inverter of this serial number last reported, if the
    /// snapshot holds it.
    pub fn inverter_watts(&self, serial_number: &str) -> (res: Option<i64>)
        ensures
            res == if self@.inverters.dom().contains(serial_number@) {
                Some(self@.inverters[serial_number@])
            } else {
                None
            },
    {
        let wanted = serial_number.to_owned();
        proof {
            lemma_written_dom(Map::empty(), self.entries(), wanted@);
        }
        match self.find_last(&wanted) {
            Some(i) => {
                proof {
                    lemma_written_last_wins(Map::empty(), self.entries(), i as int);
                }
                Some(self.inverters[i].last_report_watts)
            },
            None => None,
        }
    }

    /// Records what one inverter last reported, in place of what the snapshot
    /// held for that serial number.
    pub fn record_inverter(&mut self, serial_number: String, watts: i64)
        ensures
            final(self)@ == (StatusModel {
                inverters: old(self)@.inverters.insert(serial_number@, watts),
                ..old(self)@
            }),
            old(self).wf() ==> final(self).wf(),
    {
        let ghost before = self.entries();
        match self.find_last(&serial_number) {
            Some(i) => {
                self.inverters.set(
                    i,
                    InverterReading { serial_number, last_report_watts: watts },
                );
                proof {
                    assert(self.entries() =~= before.update(i as int, (before[i as int].0, watts)));
                    lemma_written_update(Map::empty(), before, i as int, watts);
                    if distinct_keys(before) {
                        lemma_update_keeps_distinct(before, i as int, watts);
                    }
                }
            },
            None => {
                self.inverters.push(InverterReading { serial_number, last_report_watts: watts });
                proof {
                    assert(self.entries() =~= before.push((serial_number@, watts)));
                    lemma_written_push(Map::empty(), before, serial_number@, watts);
                    if distinct_keys(before) {
                        lemma_push_keeps_distinct(before, serial_number@, watts);
                    }
                }
            },
        }
    }
}

/// The path of the production summary, behind a device's base URL.
pub const PRODUCTION_PATH: &'static str = "/api/v1/production";

/// The path of the inverter list, behind a device's base URL.
pub const INVERTERS_PATH: &'static str = "/api/v1/production/inverters";

/// A request that the caller is to make: one GET of `url` with these
/// credentials, by HTTP Digest authentication where `digest` is set.
#[derive(Debug)]
pub struct Request {
    pub url: String,
    pub user: String,
    pub pass: String,
    pub digest: bool,
}

/// A `Request` as plain mathematical values.
pub struct RequestModel {
    pub url: Seq<char>,
    pub user: Seq<char>,
    pub pass: Seq<char>,
    pub digest: bool,
}

impl View for Request {
    type V = RequestModel;

    open spec fn view(&self) -> RequestModel {
        RequestModel { url: self.url@, user: self.user@, pass: self.pass@, digest: self.digest }
    }
}

/// What came of a request.
#[derive(Debug)]
pub enum Reply {
    /// The exchange completed, with this body.
    Body(Vec<u8>),
    /// The device could not be reached, or the exchange did not complete.
    Unreachable,
}

impl View for Reply {
    type V = Option<Seq<u8>>;

    /// The body, where there is one.
    open spec fn view(&self) -> Option<Seq<u8>> {
        match self {
            Reply::Body(body) => Some(body@),
            Reply::Unreachable => None,
        }
    }
}

/// The three numbers of a production summary.
pub struct Production {
    pub watt_hours_lifetime: i64,
    pub watt_hours_today: i64,
    pub watts_now: i64,
}

/// The JSON value that a reply holds: a transport error where there is no
/// body, a decode error where the body is not JSON.
pub open spec fn decoded(reply: Option<Seq<u8>>) -> Result<Json, EnvoyError> {
    match reply {
        None => Err(EnvoyError::Transport),
        Some(body) => match json_parse(body) {
            Some(json) => Ok(json),
            None => Err(EnvoyError::Decode),
        },
    }
}

/// The production summary that a JSON value holds: the three members, each an
/// integer, taken as they are.
pub open spec fn production_of(json: Json) -> Option<Production> {
    match (
        json.member("wattHoursLifetime"@).as_i64(),
        json.member("wattHoursToday"@).as_i64(),
        json.member("wattsNow"@).as_i64(),
    ) {
        (Some(watt_hours_lifetime), Some(watt_hours_today), Some(watts_now)) => Some(
            Production { watt_hours_lifetime, watt_hours_today, watts_now },
        ),
        _ => None,
    }
}

/// The inverter reading that a JSON value holds: a serial number that is a
/// string and a last report that is an integer.
pub open spec fn inverter_of(json: Json) -> Option<(Seq<char>, i64)> {
    match (json.member("serialNumber"@).as_text(), json.member("lastReportWatts"@).as_i64()) {
        (Some(serial_number), Some(watts)) => Some((serial_number, watts)),
        _ => None,
    }
}

/// The inverter readings that a JSON value holds, in its order: the value is
/// an array, and every element holds a reading.
pub open spec fn inverters_of(json: Json) -> Option<Seq<(Seq<char>, i64)>> {
    match json.as_items() {
        None => None,
        Some(items) => if forall|i: int|
            0 <= i < items.len() ==> inverter_of(#[trigger] items[i]) is Some {
            Some(items.map_values(|item: Json| inverter_of(item)->Some_0))
        } else {
            None
        },
    }
}

/// The snapshot that the two replies of a device give. Both must hold what
/// is expected, or there is no snapshot: the first thing that is wrong, the
/// production summary before the inverter list, is the error. Of two
/// inverters with one serial number the later one stays.
pub open spec fn status_of(production: Option<Seq<u8>>, inverters: Option<Seq<u8>>) -> Result<
    StatusModel,
    EnvoyError,
> {
    match decoded(production) {
        Err(e) => Err(e),
        Ok(summary) => match production_of(summary) {
            None => Err(EnvoyError::Schema),
            Some(p) => match decoded(inverters) {
                Err(e) => Err(e),
                Ok(list) => match inverters_of(list) {
                    None => Err(EnvoyError::Schema),
                    Some(entries) => Ok(
                        StatusModel {
                            online: true,
                            watt_hours_lifetime: p.watt_hours_lifetime,
                            watt_hours_today: p.watt_hours_today,
                            watts_now: p.watts_now,
                            inverters: collected(entries),
                        },
                    ),
                },
            },
        },
    }
}

/// There is no snapshot unless both replies came and both are JSON: a device
/// that is unreachable on either path, or answers either request with
/// something malformed, gives an error.
pub proof fn lemma_no_snapshot_without_both_replies(
    production: Option<Seq<u8>>,
    inverters: Option<Seq<u8>>,
)
    requires
        decoded(production) is Err || decoded(inverters) is Err,
    ensures
        status_of(production, inverters) is Err,
{
}

/// The numbers of a snapshot are those of the production summary, exactly as
/// the device reported them.
pub proof fn lemma_numbers_are_as_reported(
    production: Seq<u8>,
    inverters: Option<Seq<u8>>,
    members: Map<Seq<char>, Json>,
    lifetime: i64,
    today: i64,
    now: i64,
)
    requires
        json_parse(production) == Some(Json::Object(members)),
        members.dom().contains("wattHoursLifetime"@),
        members["wattHoursLifetime"@] == Json::Integer(lifetime as int),
        members.dom().contains("wattHoursToday"@),
        members["wattHoursToday"@] == Json::Integer(today as int),
        members.dom().contains("wattsNow"@),
        members["wattsNow"@] == Json::Integer(now as int),
    ensures
        production_of(Json::Object(members)) == Some(
            Production { watt_hours_lifetime: lifetime, watt_hours_today: today, watts_now: now },
        ),
        status_of(Some(production), inverters) matches Ok(status) ==> {
            &&& status.watt_hours_lifetime == lifetime
            &&& status.watt_hours_today == today
            &&& status.watts_now == now
        },
{
}

/// Of the inverters of a list, the last one with a serial number is the one
/// that the snapshot holds for it.
pub proof fn lemma_last_inverter_wins(
    production: Option<Seq<u8>>,
    inverters: Seq<u8>,
    items: Seq<Json>,
    i: int,
)
    requires
        json_parse(inverters) == Some(Json::Array(items)),
        status_of(production, Some(inverters)) is Ok,
        0 <= i < items.len(),
        forall|j: int|
            i < j < items.len() ==> (inverter_of(#[trigger] items[j])->Some_0).0 != (inverter_of(
                items[i],
            )->Some_0).0,
    ensures
        inverter_of(items[i]) is Some,
        status_of(production, Some(inverters))->Ok_0.inverters.dom().contains(
            (inverter_of(items[i])->Some_0).0,
        ),
        status_of(production, Some(inverters))->Ok_0.inverters[(inverter_of(items[i])->Some_0).0]
            == (inverter_of(items[i])->Some_0).1,
{
    let entries = items.map_values(|item: Json| inverter_of(item)->Some_0);
    assert(inverters_of(Json::Array(items)) == Some(entries));
    assert(inverter_of(items[i]) is Some);
    assert forall|j: int| i < j < entries.len() implies (#[trigger] entries[j]).0
        != entries[i].0 by {
        assert((inverter_of(items[j])->Some_0).0 != (inverter_of(items[i])->Some_0).0);
    }
    lemma_written_last_wins(Map::empty(), entries, i);
}

/// How far a poll has come.
#[derive(Clone, Copy, Debug, PartialEq, Eq, Structural)]
pub enum Stage {
    /// The production summary is to be fetched.
    Production,
    /// The inverter list is to be fetched.
    Inverters,
    /// Both replies were read: the snapshot is complete.
    Done,
    /// A reply was missing or wrong: there is no snapshot.
    Failed(EnvoyError),
}

/// An `EnvoyReader` as plain mathematical values.
pub struct ReaderModel {
    pub url: Seq<char>,
    pub user: Seq<char>,
    pub pass: Seq<char>,
    pub status: StatusModel,
    pub stage: Stage,
}

impl ReaderModel {
    /// The reader with the production summary `p` taken over.
    pub open spec fn with_production(self, p: Production) -> ReaderModel {
        ReaderModel {
            status: StatusModel {
                watt_hours_lifetime: p.watt_hours_lifetime,
                watt_hours_today: p.watt_hours_today,
                watts_now: p.watts_now,
                ..self.status
            },
            ..self
        }
    }

    /// The reader with the inverter readings `entries` taken over, in their
    /// order.
    pub open spec fn with_inverters(self, entries: Seq<(Seq<char>, i64)>) -> ReaderModel {
        ReaderModel {
            status: StatusModel {
                inverters: written(self.status.inverters, entries),
                ..self.status
            },
            ..self
        }
    }

    /// The reader that failed with `e`.
    pub open spec fn failed(self, e: EnvoyError) -> ReaderModel {
        ReaderModel { stage: Stage::Failed(e), ..self }
    }

    /// The request that the reader waits for the reply to, if any: the base
    /// URL followed by the path of what is to be fetched, with the device's
    /// credentials, by Digest authentication.
    pub open spec fn request(self) -> Option<RequestModel> {
        match self.stage {
            Stage::Production => Some(
                RequestModel {
                    url: self.url + PRODUCTION_PATH@,
                    user: self.user,
                    pass: self.pass,
                    digest: true,
                },
            ),
            Stage::Inverters => Some(
                RequestModel {
                    url: self.url + INVERTERS_PATH@,
                    user: self.user,
                    pass: self.pass,
                    digest: true,
                },
            ),
            _ => None,
        }
    }

    /// The reader after the reply to its request. A reader that waits for
    /// nothing stays as it is.
    pub open spec fn after(self, reply: Option<Seq<u8>>) -> ReaderModel {
        match self.stage {
            Stage::Production => match decoded(reply) {
                Err(e) => self.failed(e),
                Ok(json) => match production_of(json) {
                    None => self.failed(EnvoyError::Schema),
                    Some(p) => ReaderModel { stage: Stage::Inverters, ..self.with_production(p) },
                },
            },
            Stage::Inverters => match decoded(reply) {
                Err(e) => self.failed(e),
                Ok(json) => match inverters_of(json) {
                    None => self.failed(EnvoyError::Schema),
                    Some(entries) => {
                        let filled = self.with_inverters(entries);
                        ReaderModel {
                            stage: Stage::Done,
                            status: StatusModel { online: true, ..filled.status },
                            ..filled
                        }
                    },
                },
            },
            _ => self,
        }
    }

    /// What the poll came to, once the reader waits for nothing more.
    pub open spec fn outcome(self) -> Option<Result<StatusModel, EnvoyError>> {
        match self.stage {
            Stage::Done => Some(Ok(self.status)),
            Stage::Failed(e) => Some(Err(e)),
            _ => None,
        }
    }
}

/// The readings of a vector as entries of serial number and watts.
pub open spec fn reading_entries(readings: Seq<InverterReading>) -> Seq<(Seq<char>, i64)> {
    readings.map_values(|r: InverterReading| (r.serial_number@, r.last_report_watts))
}

/// Polls one device: asks for its production summary, then for its inverter
/// list, and assembles the snapshot from the two replies. The reader decides;
/// the caller makes the requests.
pub struct EnvoyReader {
    url: String,
    user: String,
    pass: String,
    status: EnvoyStatus,
    stage: Stage,
}

impl View for EnvoyReader {
    type V = ReaderModel;

    closed spec fn view(&self) -> ReaderModel {
        ReaderModel {
            url: self.url@,
            user: self.user@,
            pass: self.pass@,
            status: self.status@,
            stage: self.stage,
        }
    }
}

impl EnvoyReader {
    #[verifier::type_invariant]
    closed spec fn inv(&self) -> bool {
        self.status.wf()
    }

    /// A reader for the device at `url`, about to ask for the production
    /// summary.
    pub fn new(url: &str, user: &str, pass: &str) -> (res: EnvoyReader)
        ensures
            res@ == (ReaderModel {
                url: url@,
                user: user@,
                pass: pass@,
                status: StatusModel {
                    online: false,
                    watt_hours_lifetime: 0,
                    watt_hours_today: 0,
                    watts_now: 0,
                    inverters: Map::empty(),
                },
                stage: Stage::Production,
            }),
    {
        EnvoyReader {
            url: url.to_owned(),
            user: user.to_owned(),
            pass: pass.to_owned(),
            status: EnvoyStatus::new(),
            stage: Stage::Production,
        }
    }

    /// The request to make next: the base URL followed by the path of what is
    /// to be fetched, with the device's credentials, by Digest
    /// authentication. `None` once the poll is over.
    pub fn request(&self) -> (res: Option<Request>)
        ensures
            match res {
                Some(request) => self@.request() == Some(request@),
                None => self@.request() is None,
            },
    {
        match self.stage {
            Stage::Production => Some(
                Request {
                    url: self.url.clone().concat(PRODUCTION_PATH),
                    user: self.user.clone(),
                    pass: self.pass.clone(),
                    digest: true,
                },
            ),
            Stage::Inverters => Some(
                Request {
                    url: self.url.clone().concat(INVERTERS_PATH),
                    user: self.user.clone(),
                    pass: self.pass.clone(),
                    digest: true,
                },
            ),
            _ => None,
        }
    }

    /// The JSON value of a reply.
    pub fn fetch_json(reply: &Reply) -> (res: Result<serde_json::Value, EnvoyError>)
        ensures
            match res {
                Ok(value) => decoded(reply@) == Ok::<Json, EnvoyError>(json_view(value)),
                Err(e) => decoded(reply@) == Err::<Json, EnvoyError>(e),
            },
    {
        match reply {
            Reply::Unreachable => Err(EnvoyError::Transport),
            Reply::Body(body) => match parse(body.as_slice()) {
                Ok(value) => Ok(value),
                Err(_) => Err(EnvoyError::Decode),
            },
        }
    }

    /// Takes the production summary over from its JSON value. Where a member
    /// is missing or no integer, the reader stays as it is.
    pub fn production(&mut self, json: &serde_json::Value) -> (res: Result<(), EnvoyError>)
        ensures
            match production_of(json_view(*json)) {
                Some(p) => res is Ok && final(self)@ == old(self)@.with_production(p),
                None => res == Err::<(), EnvoyError>(EnvoyError::Schema) && final(self)@ == old(
                    self,
                )@,
            },
    {
        proof {
            use_type_invariant(&*self);
        }
        let lifetime = as_i64(member(json, "wattHoursLifetime"));
        let today = as_i64(member(json, "wattHoursToday"));
        let now = as_i64(member(json, "wattsNow"));
        match (lifetime, today, now) {
            (Some(watt_hours_lifetime), Some(watt_hours_today), Some(watts_now)) => {
                self.status.watt_hours_lifetime = watt_hours_lifetime;
                self.status.watt_hours_today = watt_hours_today;
                self.status.watts_now = watts_now;
                Ok(())
            },
            _ => Err(EnvoyError::Schema),
        }
    }

    /// The inverter readings of a JSON value, all or none.
    fn read_inverters(json: &serde_json::Value) -> (res: Option<Vec<InverterReading>>)
        ensures
            match res {
                Some(readings) => inverters_of(json_view(*json)) == Some(
                    reading_entries(readings@),
                ),
                None => inverters_of(json_view(*json)) is None,
            },
    {
        let items = match as_array(json) {
            Some(items) => items,
            None => {
                return None;
            },
        };
        let ghost models = json_views(items@);
        let mut readings: Vec<InverterReading> = Vec::new();
        let mut i: usize = 0;
        while i < items.len()
            invariant
                i <= items.len(),
                models == json_views(items@),
                json_view(*json).as_items() == Some(models),
                readings@.len() == i,
                forall|j: int|
                    0 <= j < i ==> inverter_of(#[trigger] models[j]) == Some(
                        (readings@[j].serial_number@, readings@[j].last_report_watts),
                    ),
            decreases items.len() - i,
        {
            let item = &items[i];
            assert(models[i as int] == json_view(*item));
            let serial_number = match as_str(member(item, "serialNumber")) {
                Some(text) => text.to_owned(),
                None => {
                    assert(inverter_of(models[i as int]) is None);
                    return None;
                },
            };
            let last_report_watts = match as_i64(member(item, "lastReportWatts")) {
                Some(watts) => watts,
                None => {
                    assert(inverter_of(models[i as int]) is None);
                    return None;
                },
            };
            readings.push(InverterReading { serial_number, last_report_watts });
            i += 1;
        }
        assert(reading_entries(readings@) =~= models.map_values(
            |item: Json| inverter_of(item)->Some_0,
        ));
        Some(readings)
    }

    /// Takes the inverter readings over from their JSON value, in its order,
    /// so that of two readings with one serial number the later one stays.
    /// Where the value is no array, or an element lacks its serial number or
    /// its last report, the reader stays as it is.
    pub fn inverters(&mut self, json: &serde_json::Value) -> (res: Result<(), EnvoyError>)
        ensures
            match inverters_of(json_view(*json)) {
                Some(entries) => res is Ok && final(self)@ == old(self)@.with_inverters(entries),
                None => res == Err::<(), EnvoyError>(EnvoyError::Schema) && final(self)@ == old(
                    self,
                )@,
            },
    {
        let readings = match Self::read_inverters(json) {
            Some(readings) => readings,
            None => {
                return Err(EnvoyError::Schema);
            },
        };
        proof {
            use_type_invariant(&*self);
        }
        let ghost entries = reading_entries(readings@);
        let ghost before = self.status@;
        let mut status = EnvoyStatus::new();
        core::mem::swap(&mut self.status, &mut status);
        let mut i: usize = 0;
        assert(entries.take(0) =~= Seq::<(Seq<char>, i64)>::empty());
        while i < readings.len()
            invariant
                i <= readings.len(),
                entries == reading_entries(readings@),
                status.wf(),
                status@ == (StatusModel {
                    inverters: written(before.inverters, entries.take(i as int)),
                    ..before
                }),
            decreases readings.len() - i,
        {
            let reading = &readings[i];
            status.record_inverter(reading.serial_number.clone(), reading.last_report_watts);
            proof {
                lemma_written_push(
                    before.inverters,
                    entries.take(i as int),
                    entries[i as int].0,
                    entries[i as int].1,
                );
                assert(entries.take(i as int).push(entries[i as int]) =~= entries.take(i + 1));
            }
            i += 1;
        }
        assert(entries.take(i as int) =~= entries);
        core::mem::swap(&mut self.status, &mut status);
        Ok(())
    }

    /// Hands the reader the reply to the request it last asked for. After the
    /// production summary it goes on to the inverter list; after the inverter
    /// list the snapshot is complete and online; a reply that is missing,
    /// not JSON or not of the expected shape ends the poll with that error.
    /// A reader whose poll is over ignores the reply.
    pub fn receive(&mut self, reply: &Reply)
        ensures
            final(self)@ == old(self)@.after(reply@),
    {
        proof {
            use_type_invariant(&*self);
        }
        match self.stage {
            Stage::Production => match Self::fetch_json(reply) {
                Err(e) => {
                    self.stage = Stage::Failed(e);
                },
                Ok(json) => {
                    let taken = self.production(&json);
                    proof {
                        use_type_invariant(&*self);
                    }
                    match taken {
                        Err(e) => {
                            self.stage = Stage::Failed(e);
                        },
                        Ok(()) => {
                            self.stage = Stage::Inverters;
                        },
                    }
                },
            },
            Stage::Inverters => match Self::fetch_json(reply) {
                Err(e) => {
                    self.stage = Stage::Failed(e);
                },
                Ok(json) => {
                    let taken = self.inverters(&json);
                    proof {
                        use_type_invariant(&*self);
                    }
                    match taken {
                        Err(e) => {
                            self.stage = Stage::Failed(e);
                        },
                        Ok(()) => {
                            self.status.online = true;
                            self.stage = Stage::Done;
                        },
                    }
                },
            },
            _ => {},
        }
    }

    /// What the poll came to: the snapshot, or why there is none. `None`
    /// while the reader still waits for a reply.
    pub fn finish(self) -> (res: Option<Result<EnvoyStatus, EnvoyError>>)
        ensures
            match res {
                Some(Ok(status)) => self@.outcome() == Some(
                    Ok::<StatusModel, EnvoyError>(status@),
                ) && status.wf(),
                Some(Err(e)) => self@.outcome() == Some(Err::<StatusModel, EnvoyError>(e)),
                None => self@.outcome() is None,
            },
    {
        proof {
            use_type_invariant(&self);
        }
        match self.stage {
            Stage::Done => Some(Ok(self.status)),
            Stage::Failed(e) => Some(Err(e)),
            _ => None,
        }
    }

    /// The snapshot of a device, from the replies to the request for its
    /// production summary and to the request for its inverter list. The
    /// snapshot is online and holds the numbers of the replies as they are.
    /// There is none unless both replies hold what is expected.
    pub fn status(production: &Reply, inverters: &Reply) -> (res: Result<EnvoyStatus, EnvoyError>)
        ensures
            match res {
                Ok(status) => status_of(production@, inverters@) == Ok::<StatusModel, EnvoyError>(
                    status@,
                ) && status.wf(),
                Err(e) => status_of(production@, inverters@) == Err::<StatusModel, EnvoyError>(e),
            },
    {
        let mut reader = EnvoyReader::new("", "", "");
        reader.receive(production);
        reader.receive(inverters);
        proof {
            lemma_poll_gives_status(reader@.url, reader@.user, reader@.pass, production@, inverters@);
        }
        match reader.finish() {
            Some(outcome) => outcome,
            None => unreached(),
        }
    }
}

/// The reader as `EnvoyReader::new` makes it.
pub open spec fn fresh_reader(url: Seq<char>, user: Seq<char>, pass: Seq<char>) -> ReaderModel {
    ReaderModel {
        url,
        user,
        pass,
        status: StatusModel {
            online: false,
            watt_hours_lifetime: 0,
            watt_hours_today: 0,
            watts_now: 0,
            inverters: Map::empty(),
        },
        stage: Stage::Production,
    }
}

/// A poll comes to what `status_of` says of its two replies: a fresh reader
/// that is handed the reply for the production summary and then, if it still
/// asks, the reply for the inverter list.
pub proof fn lemma_poll_gives_status(
    url: Seq<char>,
    user: Seq<char>,
    pass: Seq<char>,
    production: Option<Seq<u8>>,
    inverters: Option<Seq<u8>>,
)
    ensures
        fresh_reader(url, user, pass).after(production).after(inverters).outcome() == Some(
            status_of(production, inverters),
        ),
        fresh_reader(url, user, pass).after(production).request() is None ==> fresh_reader(
            url,
            user,
            pass,
        ).after(production).outcome() == Some(status_of(production, inverters)),
{
}

} // verus!
