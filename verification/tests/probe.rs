use daystrom_tui::config::{Host, Protocol, Service};
use daystrom_tui::monitor::ServiceStatus;
use daystrom_tui::probe::{
    http_probe, https_probe, probe_for, probe_result, status_is_success, tcp_probe, udp_probe, ProbeOutcome,
    ProbeRequest,
};

fn service(name: &str, port: u16, protocol: Protocol, path: Option<&str>, timeout: u64) -> Service {
    Service {
        name: name.to_string(),
        port,
        protocol,
        path: path.map(|p| p.to_string()),
        description: None,
        timeout,
    }
}

fn host(address: &str) -> Host {
    Host { name: "h".to_string(), address: address.to_string(), description: None, services: vec![], timeout: 5 }
}

#[test]
fn tcp_probe_targets_address_and_port() {
    assert_eq!(
        tcp_probe("192.168.1.10", 22, 3),
        ProbeRequest::TcpConnect { target: "192.168.1.10:22".to_string(), timeout: 3 }
    );
    assert_eq!(
        tcp_probe("db.internal", 65535, 10),
        ProbeRequest::TcpConnect { target: "db.internal:65535".to_string(), timeout: 10 }
    );
    assert_eq!(tcp_probe("x", 0, 0), ProbeRequest::TcpConnect { target: "x:0".to_string(), timeout: 0 });
}

#[test]
fn udp_probe_binds_a_local_socket_only() {
    assert_eq!(udp_probe("8.8.8.8", 53, 4), ProbeRequest::UdpBind { local: "0.0.0.0:0".to_string(), timeout: 4 });
    assert_eq!(udp_probe("other", 123, 4), ProbeRequest::UdpBind { local: "0.0.0.0:0".to_string(), timeout: 4 });
}

#[test]
fn http_probe_leaves_out_port_80() {
    assert_eq!(
        http_probe("example.com", 80, &None, 10),
        ProbeRequest::HttpGet { url: "http://example.com".to_string(), timeout: 10 }
    );
    assert_eq!(
        http_probe("example.com", 80, &Some("/health".to_string()), 10),
        ProbeRequest::HttpGet { url: "http://example.com/health".to_string(), timeout: 10 }
    );
}

#[test]
fn http_probe_names_any_other_port() {
    assert_eq!(
        http_probe("example.com", 8080, &None, 7),
        ProbeRequest::HttpGet { url: "http://example.com:8080".to_string(), timeout: 7 }
    );
    assert_eq!(
        http_probe("example.com", 443, &Some("/status".to_string()), 7),
        ProbeRequest::HttpGet { url: "http://example.com:443/status".to_string(), timeout: 7 }
    );
}

#[test]
fn https_probe_leaves_out_port_443() {
    assert_eq!(
        https_probe("example.com", 443, &None, 10),
        ProbeRequest::HttpGet { url: "https://example.com".to_string(), timeout: 10 }
    );
    assert_eq!(
        https_probe("example.com", 443, &Some("/api/v1/ping".to_string()), 10),
        ProbeRequest::HttpGet { url: "https://example.com/api/v1/ping".to_string(), timeout: 10 }
    );
}

#[test]
fn https_probe_names_any_other_port() {
    assert_eq!(
        https_probe("example.com", 8443, &Some("/".to_string()), 2),
        ProbeRequest::HttpGet { url: "https://example.com:8443/".to_string(), timeout: 2 }
    );
    assert_eq!(
        https_probe("example.com", 80, &None, 2),
        ProbeRequest::HttpGet { url: "https://example.com:80".to_string(), timeout: 2 }
    );
}

#[test]
fn probe_for_goes_by_the_protocol() {
    let h = host("10.1.2.3");
    assert_eq!(
        probe_for(&h, &service("ssh", 22, Protocol::Tcp, None, 3)),
        ProbeRequest::TcpConnect { target: "10.1.2.3:22".to_string(), timeout: 3 }
    );
    assert_eq!(
        probe_for(&h, &service("dns", 53, Protocol::Udp, None, 4)),
        ProbeRequest::UdpBind { local: "0.0.0.0:0".to_string(), timeout: 4 }
    );
    assert_eq!(
        probe_for(&h, &service("web", 8000, Protocol::Http, Some("/up"), 5)),
        ProbeRequest::HttpGet { url: "http://10.1.2.3:8000/up".to_string(), timeout: 5 }
    );
    assert_eq!(
        probe_for(&h, &service("tls", 443, Protocol::Https, Some("/up"), 6)),
        ProbeRequest::HttpGet { url: "https://10.1.2.3/up".to_string(), timeout: 6 }
    );
}

#[test]
fn probe_for_uses_the_timeout_of_the_service() {
    let mut h = host("10.1.2.3");
    h.timeout = 99;
    assert_eq!(
        probe_for(&h, &service("ssh", 22, Protocol::Tcp, None, 1)),
        ProbeRequest::TcpConnect { target: "10.1.2.3:22".to_string(), timeout: 1 }
    );
}

#[test]
fn success_is_any_code_from_200_to_299() {
    assert!(!status_is_success(0));
    assert!(!status_is_success(199));
    assert!(status_is_success(200));
    assert!(status_is_success(204));
    assert!(status_is_success(299));
    assert!(!status_is_success(300));
    assert!(!status_is_success(404));
    assert!(!status_is_success(u16::MAX));
}

#[test]
fn a_connection_that_was_made_is_up() {
    assert_eq!(probe_result(Protocol::Tcp, ProbeOutcome::Succeeded), (ServiceStatus::Up, None));
    assert_eq!(probe_result(Protocol::Udp, ProbeOutcome::Succeeded), (ServiceStatus::Up, None));
}

#[test]
fn a_refused_connection_is_down_with_the_error_text() {
    let (status, message) = probe_result(Protocol::Tcp, ProbeOutcome::Failed("Connection refused (os error 111)".to_string()));
    assert_eq!(status, ServiceStatus::Down);
    assert_eq!(message, Some("Connection refused (os error 111)".to_string()));
    assert!(!message.unwrap().is_empty());
}

#[test]
fn a_timeout_is_down_with_a_message_of_its_own() {
    assert_eq!(
        probe_result(Protocol::Tcp, ProbeOutcome::TimedOut),
        (ServiceStatus::Down, Some("Connection timeout".to_string()))
    );
    assert_eq!(
        probe_result(Protocol::Udp, ProbeOutcome::TimedOut),
        (ServiceStatus::Down, Some("UDP socket creation timeout".to_string()))
    );
    assert_eq!(
        probe_result(Protocol::Http, ProbeOutcome::TimedOut),
        (ServiceStatus::Down, Some("HTTP request timeout".to_string()))
    );
    assert_eq!(
        probe_result(Protocol::Https, ProbeOutcome::TimedOut),
        (ServiceStatus::Down, Some("HTTP request timeout".to_string()))
    );
}

#[test]
fn a_successful_response_is_up() {
    assert_eq!(probe_result(Protocol::Http, ProbeOutcome::HttpStatus(200)), (ServiceStatus::Up, None));
    assert_eq!(probe_result(Protocol::Https, ProbeOutcome::HttpStatus(204)), (ServiceStatus::Up, None));
    assert_eq!(probe_result(Protocol::Http, ProbeOutcome::HttpStatus(299)), (ServiceStatus::Up, None));
}

#[test]
fn any_other_response_is_down_with_its_code() {
    assert_eq!(
        probe_result(Protocol::Http, ProbeOutcome::HttpStatus(404)),
        (ServiceStatus::Down, Some("HTTP 404".to_string()))
    );
    assert_eq!(
        probe_result(Protocol::Http, ProbeOutcome::HttpStatus(500)),
        (ServiceStatus::Down, Some("HTTP 500".to_string()))
    );
    assert_eq!(
        probe_result(Protocol::Https, ProbeOutcome::HttpStatus(301)),
        (ServiceStatus::Down, Some("HTTP 301".to_string()))
    );
    assert_eq!(
        probe_result(Protocol::Http, ProbeOutcome::HttpStatus(199)),
        (ServiceStatus::Down, Some("HTTP 199".to_string()))
    );
    assert_eq!(
        probe_result(Protocol::Http, ProbeOutcome::HttpStatus(300)),
        (ServiceStatus::Down, Some("HTTP 300".to_string()))
    );
}

#[test]
fn a_transport_error_is_down_with_the_error_text() {
    assert_eq!(
        probe_result(Protocol::Https, ProbeOutcome::Failed("dns error".to_string())),
        (ServiceStatus::Down, Some("dns error".to_string()))
    );
}
