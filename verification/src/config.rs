//! The hosts, services and settings that the monitor is configured with.

use vstd::prelude::*;
use vstd::string::StringExecFns;

verus! {

/// How a service is probed.
#[derive(Debug, Clone, Copy, PartialEq, Eq, Structural)]
pub enum Protocol {
    Tcp,
    Udp,
    Http,
    Https,
}

impl Protocol {
    /// The lower-case name of the protocol.
    pub open spec fn name(self) -> Seq<char> {
        match self {
            Protocol::Tcp => "tcp"@,
            Protocol::Udp => "udp"@,
            Protocol::Http => "http"@,
            Protocol::Https => "https"@,
        }
    }

    /// The protocol's name as shown to the operator.
    pub fn to_string(&self) -> (r: String)
        ensures
            r@ == self.name(),
    {
        match self {
            Protocol::Tcp => String::from_str("tcp"),
            Protocol::Udp => String::from_str("udp"),
            Protocol::Http => String::from_str("http"),
            Protocol::Https => String::from_str("https"),
        }
    }
}

/// One service of a host: where it listens and how it is probed.
#[derive(Debug, Clone, PartialEq, Eq)]
pub struct Service {
    pub name: String,
    pub port: u16,
    pub protocol: Protocol,
    pub path: Option<String>,
    pub description: Option<String>,
    pub timeout: u64,
}

/// One monitored host with its services, in configured order.
#[derive(Debug, Clone, PartialEq, Eq)]
pub struct Host {
    pub name: String,
    pub address: String,
    pub description: Option<String>,
    pub services: Vec<Service>,
    pub timeout: u64,
}

/// Settings that apply to the whole monitor.
#[derive(Debug, Clone, PartialEq, Eq)]
pub struct Settings {
    pub refresh_interval: u64,
    pub log_file: Option<String>,
    pub theme: String,
    pub timezone: String,
}

/// The complete configuration.
#[derive(Debug, Clone, PartialEq, Eq)]
pub struct Config {
    pub hosts: Vec<Host>,
    pub settings: Settings,
}

/// Seconds a host allows its probes when it names no timeout of its own.
pub fn default_timeout() -> (r: u64)
    ensures
        r == 5,
{
    5
}

/// Seconds a service's probe may take when the service names no timeout.
pub fn default_service_timeout() -> (r: u64)
    ensures
        r == 10,
{
    10
}

/// Seconds between two rounds of checks when the settings name none.
pub fn default_refresh_interval() -> (r: u64)
    ensures
        r == 5,
{
    5
}

/// The theme used when the settings name none.
pub fn default_theme() -> (r: String)
    ensures
        r@ == "default"@,
{
    String::from_str("default")
}

/// The time zone used when the settings name none.
pub fn default_timezone() -> (r: String)
    ensures
        r@ == "UTC"@,
{
    String::from_str("UTC")
}

impl Default for Settings {
    fn default() -> (r: Self)
        ensures
            r.refresh_interval == 5,
            r.log_file is None,
            r.theme@ == "default"@,
            r.timezone@ == "UTC"@,
    {
        Settings {
            refresh_interval: default_refresh_interval(),
            log_file: None,
            theme: default_theme(),
            timezone: default_timezone(),
        }
    }
}

impl Default for Config {
    fn default() -> (r: Self)
        ensures
            r.hosts@.len() == 0,
            r.settings.refresh_interval == 5,
            r.settings.log_file is None,
            r.settings.theme@ == "default"@,
            r.settings.timezone@ == "UTC"@,
    {
        Config { hosts: Vec::new(), settings: Settings::default() }
    }
}

impl Config {
    /// The number of configured (host, service) pairs among the first
    /// `upto` hosts.
    pub open spec fn pairs_before(self, upto: int) -> int
        decreases upto,
    {
        if upto <= 0 {
            0
        } else {
            self.pairs_before(upto - 1) + self.hosts@[upto - 1].services@.len()
        }
    }

    /// The number of configured (host, service) pairs.
    pub open spec fn pair_count(self) -> int {
        self.pairs_before(self.hosts@.len() as int)
    }
}

} // verus!
