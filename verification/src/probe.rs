//! What a probe of a service asks for, and how its outcome is judged.

use crate::config::{Host, Protocol, Service};
use crate::monitor::ServiceStatus;
use crate::text::{decimal, decimal_string, opt_text};
use vstd::prelude::*;
use vstd::string::StringExecFns;

verus! {

/// One bounded liveness check, ready to be carried out. Every timeout is in
/// seconds.
#[derive(Debug, PartialEq, Eq)]
pub enum ProbeRequest {
    /// Open a TCP connection to `target`, written `address:port`.
    TcpConnect { target: String, timeout: u64 },
    /// Bind a UDP socket to the local address `local`. The remote service is
    /// not contacted: this shows only that the local socket stack works.
    UdpBind { local: String, timeout: u64 },
    /// Send a GET request for `url`.
    HttpGet { url: String, timeout: u64 },
}

/// A probe request as plain values.
pub enum ProbePlan {
    TcpConnect { target: Seq<char>, timeout: u64 },
    UdpBind { local: Seq<char>, timeout: u64 },
    HttpGet { url: Seq<char>, timeout: u64 },
}

impl View for ProbeRequest {
    type V = ProbePlan;

    open spec fn view(&self) -> ProbePlan {
        match self {
            ProbeRequest::TcpConnect { target, timeout } => ProbePlan::TcpConnect { target: target@, timeout: *timeout },
            ProbeRequest::UdpBind { local, timeout } => ProbePlan::UdpBind { local: local@, timeout: *timeout },
            ProbeRequest::HttpGet { url, timeout } => ProbePlan::HttpGet { url: url@, timeout: *timeout },
        }
    }
}

/// How a probe ended.
#[derive(Debug, PartialEq, Eq)]
pub enum ProbeOutcome {
    /// The connection was made, or the socket was bound.
    Succeeded,
    /// The server answered with this HTTP status code.
    HttpStatus(u16),
    /// The attempt failed; the text says how.
    Failed(String),
    /// The timeout passed first.
    TimedOut,
}

/// The outcome of a probe as plain values.
pub enum Outcome {
    Succeeded,
    HttpStatus(u16),
    Failed(Seq<char>),
    TimedOut,
}

impl View for ProbeOutcome {
    type V = Outcome;

    open spec fn view(&self) -> Outcome {
        match self {
            ProbeOutcome::Succeeded => Outcome::Succeeded,
            ProbeOutcome::HttpStatus(code) => Outcome::HttpStatus(*code),
            ProbeOutcome::Failed(message) => Outcome::Failed(message@),
            ProbeOutcome::TimedOut => Outcome::TimedOut,
        }
    }
}

/// A status with the message that explains it, as plain values.
pub open spec fn verdict_view(v: (ServiceStatus, Option<String>)) -> (ServiceStatus, Option<Seq<char>>) {
    (v.0, opt_text(v.1))
}

/// `address:port`.
pub open spec fn socket_target(address: Seq<char>, port: u16) -> Seq<char> {
    address + ":"@ + decimal(port as nat)
}

/// The text of an optional path: nothing where there is none.
pub open spec fn path_text(path: Option<Seq<char>>) -> Seq<char> {
    match path {
        Some(p) => p,
        None => Seq::empty(),
    }
}

/// The URL `prefix address[:port]path`, in which the port is left out where
/// it is `standard_port`.
pub open spec fn url_text(
    prefix: Seq<char>,
    standard_port: u16,
    address: Seq<char>,
    port: u16,
    path: Option<Seq<char>>,
) -> Seq<char> {
    if port == standard_port {
        prefix + address + path_text(path)
    } else {
        prefix + address + ":"@ + decimal(port as nat) + path_text(path)
    }
}

/// The URL of an HTTP probe: `http://address[:port]path`, without the port
/// where it is 80.
pub open spec fn http_url(address: Seq<char>, port: u16, path: Option<Seq<char>>) -> Seq<char> {
    url_text("http://"@, 80, address, port, path)
}

/// The URL of an HTTPS probe: `https://address[:port]path`, without the port
/// where it is 443.
pub open spec fn https_url(address: Seq<char>, port: u16, path: Option<Seq<char>>) -> Seq<char> {
    url_text("https://"@, 443, address, port, path)
}

/// Whether an HTTP status code reports success: 200 to 299.
pub open spec fn is_success(code: u16) -> bool {
    200 <= code < 300
}

/// What is asked for to probe `service` on `host`.
pub open spec fn plan_for(host: Host, service: Service) -> ProbePlan {
    match service.protocol {
        Protocol::Tcp => ProbePlan::TcpConnect {
            target: socket_target(host.address@, service.port),
            timeout: service.timeout,
        },
        Protocol::Udp => ProbePlan::UdpBind { local: "0.0.0.0:0"@, timeout: service.timeout },
        Protocol::Http => ProbePlan::HttpGet {
            url: http_url(host.address@, service.port, opt_text(service.path)),
            timeout: service.timeout,
        },
        Protocol::Https => ProbePlan::HttpGet {
            url: https_url(host.address@, service.port, opt_text(service.path)),
            timeout: service.timeout,
        },
    }
}

/// What is said of a probe whose timeout passed.
pub open spec fn timeout_message(protocol: Protocol) -> Seq<char> {
    match protocol {
        Protocol::Tcp => "Connection timeout"@,
        Protocol::Udp => "UDP socket creation timeout"@,
        Protocol::Http => "HTTP request timeout"@,
        Protocol::Https => "HTTP request timeout"@,
    }
}

/// The status that an outcome stands for, with the message that explains a
/// service that is down. No outcome is an error of the monitor: a failure
/// is a result like any other.
pub open spec fn verdict(protocol: Protocol, outcome: Outcome) -> (ServiceStatus, Option<Seq<char>>) {
    match outcome {
        Outcome::Succeeded => (ServiceStatus::Up, None),
        Outcome::HttpStatus(code) => if is_success(code) {
            (ServiceStatus::Up, None)
        } else {
            (ServiceStatus::Down, Some("HTTP "@ + decimal(code as nat)))
        },
        Outcome::Failed(message) => (ServiceStatus::Down, Some(message)),
        Outcome::TimedOut => (ServiceStatus::Down, Some(timeout_message(protocol))),
    }
}

fn url_string(prefix: &str, standard_port: u16, address: &str, port: u16, path: &Option<String>) -> (r: String)
    ensures
        r@ == url_text(prefix@, standard_port, address@, port, opt_text(*path)),
{
    let mut url = String::from_str(prefix);
    url.append(address);
    if port != standard_port {
        url.append(":");
        let digits = decimal_string(port as u128);
        url.append(digits.as_str());
    }
    match path {
        Some(p) => {
            url.append(p.as_str());
        },
        None => {
            assert(url@ + Seq::<char>::empty() =~= url@);
        },
    }
    url
}

/// The probe of a TCP service: a connection to `address:port` within
/// `timeout` seconds.
pub fn tcp_probe(address: &str, port: u16, timeout: u64) -> (r: ProbeRequest)
    ensures
        r@ == (ProbePlan::TcpConnect { target: socket_target(address@, port), timeout }),
{
    let mut target = String::from_str(address);
    target.append(":");
    let digits = decimal_string(port as u128);
    target.append(digits.as_str());
    ProbeRequest::TcpConnect { target, timeout }
}

/// The probe of a UDP service: a local socket on any free port within
/// `timeout` seconds. Address and port of the service play no part.
pub fn udp_probe(_address: &str, _port: u16, timeout: u64) -> (r: ProbeRequest)
    ensures
        r@ == (ProbePlan::UdpBind { local: "0.0.0.0:0"@, timeout }),
{
    ProbeRequest::UdpBind { local: String::from_str("0.0.0.0:0"), timeout }
}

/// The probe of an HTTP service: a GET of `http://address[:port]path` within
/// `timeout` seconds.
pub fn http_probe(address: &str, port: u16, path: &Option<String>, timeout: u64) -> (r: ProbeRequest)
    ensures
        r@ == (ProbePlan::HttpGet { url: http_url(address@, port, opt_text(*path)), timeout }),
{
    ProbeRequest::HttpGet { url: url_string("http://", 80, address, port, path), timeout }
}

/// The probe of an HTTPS service: a GET of `https://address[:port]path`
/// within `timeout` seconds.
pub fn https_probe(address: &str, port: u16, path: &Option<String>, timeout: u64) -> (r: ProbeRequest)
    ensures
        r@ == (ProbePlan::HttpGet { url: https_url(address@, port, opt_text(*path)), timeout }),
{
    ProbeRequest::HttpGet { url: url_string("https://", 443, address, port, path), timeout }
}

/// The probe of `service` on `host`, by the service's protocol.
pub fn probe_for(host: &Host, service: &Service) -> (r: ProbeRequest)
    ensures
        r@ == plan_for(*host, *service),
{
    match service.protocol {
        Protocol::Tcp => tcp_probe(host.address.as_str(), service.port, service.timeout),
        Protocol::Udp => udp_probe(host.address.as_str(), service.port, service.timeout),
        Protocol::Http => http_probe(host.address.as_str(), service.port, &service.path, service.timeout),
        Protocol::Https => https_probe(host.address.as_str(), service.port, &service.path, service.timeout),
    }
}

/// Whether an HTTP status code reports success.
pub fn status_is_success(code: u16) -> (r: bool)
    ensures
        r == is_success(code),
{
    200 <= code && code < 300
}

/// Judges the outcome of a probe made with `protocol`.
pub fn probe_result(protocol: Protocol, outcome: ProbeOutcome) -> (r: (ServiceStatus, Option<String>))
    ensures
        verdict_view(r) == verdict(protocol, outcome@),
{
    match outcome {
        ProbeOutcome::Succeeded => (ServiceStatus::Up, None),
        ProbeOutcome::HttpStatus(code) => {
            if status_is_success(code) {
                (ServiceStatus::Up, None)
            } else {
                let mut message = String::from_str("HTTP ");
                let digits = decimal_string(code as u128);
                message.append(digits.as_str());
                (ServiceStatus::Down, Some(message))
            }
        },
        ProbeOutcome::Failed(message) => (ServiceStatus::Down, Some(message)),
        ProbeOutcome::TimedOut => {
            let message = match protocol {
                Protocol::Tcp => String::from_str("Connection timeout"),
                Protocol::Udp => String::from_str("UDP socket creation timeout"),
                Protocol::Http => String::from_str("HTTP request timeout"),
                Protocol::Https => String::from_str("HTTP request timeout"),
            };
            (ServiceStatus::Down, Some(message))
        },
    }
}

} // verus!
