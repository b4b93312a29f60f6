use daystrom_tui::clock::{Elapsed, Timestamp};
use daystrom_tui::config::Protocol;
use daystrom_tui::monitor::{ServiceCheck, ServiceStatus};
use daystrom_tui::store::StatusStore;

fn check(host_name: &str, service_name: &str, port: u16, status: ServiceStatus) -> ServiceCheck {
    ServiceCheck {
        host_name: host_name.to_string(),
        service_name: service_name.to_string(),
        address: "10.0.0.1".to_string(),
        port,
        protocol: Protocol::Tcp,
        status,
        last_check: Timestamp { secs: 1_700_000_000, nanos: 0 },
        response_time: Elapsed { nanos: 3_000_000 },
        error_message: None,
    }
}

#[test]
fn new_store_is_empty() {
    let store = StatusStore::new();
    assert_eq!(store.len(), 0);
    assert!(store.values().is_empty());
}

#[test]
fn insert_fills_a_slot() {
    let mut store = StatusStore::new();
    store.insert(check("a", "http", 80, ServiceStatus::Up));
    assert_eq!(store.len(), 1);
    assert_eq!(store.values(), vec![check("a", "http", 80, ServiceStatus::Up)]);
}

#[test]
fn insert_overwrites_the_same_slot() {
    let mut store = StatusStore::new();
    store.insert(check("a", "http", 80, ServiceStatus::Unknown));
    store.insert(check("b", "http", 80, ServiceStatus::Up));
    store.insert(check("a", "http", 80, ServiceStatus::Down));
    assert_eq!(store.len(), 2);
    let values = store.values();
    assert_eq!(values.len(), 2);
    assert!(values.contains(&check("a", "http", 80, ServiceStatus::Down)));
    assert!(values.contains(&check("b", "http", 80, ServiceStatus::Up)));
    assert!(!values.contains(&check("a", "http", 80, ServiceStatus::Unknown)));
}

#[test]
fn slots_differ_by_host_service_or_port() {
    let mut store = StatusStore::new();
    store.insert(check("a", "http", 80, ServiceStatus::Up));
    store.insert(check("a", "http", 8080, ServiceStatus::Up));
    store.insert(check("a", "https", 80, ServiceStatus::Up));
    store.insert(check("b", "http", 80, ServiceStatus::Up));
    assert_eq!(store.len(), 4);
}

#[test]
fn names_with_colons_do_not_collide() {
    let mut store = StatusStore::new();
    store.insert(check("a:b", "c", 1, ServiceStatus::Up));
    store.insert(check("a", "b:c", 1, ServiceStatus::Down));
    assert_eq!(store.len(), 2);
}

#[test]
fn clone_of_a_store_is_a_copy() {
    let mut store = StatusStore::new();
    store.insert(check("a", "http", 80, ServiceStatus::Up));
    let copy = store.clone();
    store.insert(check("b", "http", 80, ServiceStatus::Up));
    store.insert(check("a", "http", 80, ServiceStatus::Down));
    assert_eq!(copy.len(), 1);
    assert_eq!(copy.values(), vec![check("a", "http", 80, ServiceStatus::Up)]);
    assert_eq!(store.len(), 2);
}
