//! What the exporter is configured with.

use vstd::prelude::*;

verus! {

/// One monitored device as the configuration names it. A field that is left
/// out counts as the empty string.
#[derive(Debug)]
pub struct System {
    pub host: Option<String>,
    pub url: Option<String>,
    pub user: Option<String>,
    pub pass: Option<String>,
    pub sn: Option<String>,
}

/// The configuration of the exporter.
#[derive(Debug)]
pub struct Config {
    pub listen_port: Option<u16>,
    pub systems: Vec<System>,
}

/// One monitored device: the label of its host, the base URL of its API, the
/// credentials for it, and the serial number that labels its samples.
#[derive(Debug)]
pub struct DeviceConfig {
    pub host: String,
    pub url: String,
    pub user: String,
    pub pass: String,
    pub sn: String,
}

/// A `DeviceConfig` as plain mathematical values.
pub struct DeviceModel {
    pub host: Seq<char>,
    pub url: Seq<char>,
    pub user: Seq<char>,
    pub pass: Seq<char>,
    pub sn: Seq<char>,
}

impl View for DeviceConfig {
    type V = DeviceModel;

    open spec fn view(&self) -> DeviceModel {
        DeviceModel {
            host: self.host@,
            url: self.url@,
            user: self.user@,
            pass: self.pass@,
            sn: self.sn@,
        }
    }
}

/// The port on which the exporter listens where the configuration names none.
pub const DEFAULT_LISTEN_PORT: u16 = 9433;

/// The text of an optional field: empty where the field is left out.
pub open spec fn text_or_empty(field: Option<String>) -> Seq<char> {
    match field {
        Some(text) => text@,
        None => Seq::empty(),
    }
}

fn owned_or_empty(field: &Option<String>) -> (res: String)
    ensures
        res@ == text_or_empty(*field),
{
    match field {
        Some(text) => text.clone(),
        None => String::new(),
    }
}

impl System {
    /// The device that this entry of the configuration describes.
    pub open spec fn device_model(&self) -> DeviceModel {
        DeviceModel {
            host: text_or_empty(self.host),
            url: text_or_empty(self.url),
            user: text_or_empty(self.user),
            pass: text_or_empty(self.pass),
            sn: text_or_empty(self.sn),
        }
    }

    /// The device that this entry of the configuration describes.
    pub fn device(&self) -> (res: DeviceConfig)
        ensures
            res@ == self.device_model(),
    {
        DeviceConfig {
            host: owned_or_empty(&self.host),
            url: owned_or_empty(&self.url),
            user: owned_or_empty(&self.user),
            pass: owned_or_empty(&self.pass),
            sn: owned_or_empty(&self.sn),
        }
    }
}

impl Config {
    /// The port to listen on: the configured one, or 9433.
    pub fn port(&self) -> (res: u16)
        ensures
            res == match self.listen_port {
                Some(port) => port,
                None => DEFAULT_LISTEN_PORT,
            },
    {
        match self.listen_port {
            Some(port) => port,
            None => DEFAULT_LISTEN_PORT,
        }
    }

    /// The configured devices, in the order of the configuration.
    pub open spec fn device_models(&self) -> Seq<DeviceModel> {
        self.systems@.map_values(|system: System| system.device_model())
    }

    /// The configured devices, in the order of the configuration.
    pub fn devices(&self) -> (res: Vec<DeviceConfig>)
        ensures
            res@.map_values(|device: DeviceConfig| device@) == self.device_models(),
    {
        let mut devices: Vec<DeviceConfig> = Vec::new();
        let mut i: usize = 0;
        while i < self.systems.len()
            invariant
                i <= self.systems.len(),
                devices@.len() == i,
                forall|j: int| 0 <= j < i ==> (#[trigger] devices@[j])@ == self.systems@[j].device_model(),
            decreases self.systems.len() - i,
        {
            devices.push(self.systems[i].device());
            i += 1;
        }
        assert(devices@.map_values(|device: DeviceConfig| device@) =~= self.device_models());
        devices
    }
}

} // verus!
