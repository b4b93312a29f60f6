use daystrom_tui::app::{App, SelectedItem};
use daystrom_tui::clock::{Elapsed, Timestamp};
use daystrom_tui::config::{Config, Host, Protocol, Service, Settings};
use daystrom_tui::monitor::{ServiceCheck, ServiceStatus};
use daystrom_tui::store::StatusStore;

fn check(host_name: &str, service_name: &str, port: u16, status: ServiceStatus) -> ServiceCheck {
    ServiceCheck {
        host_name: host_name.to_string(),
        service_name: service_name.to_string(),
        address: format!("{}.internal", host_name),
        port,
        protocol: Protocol::Tcp,
        status,
        last_check: Timestamp { secs: 1_700_000_000, nanos: 0 },
        response_time: Elapsed { nanos: 3_000_000 },
        error_message: None,
    }
}

fn up(host_name: &str, service_name: &str, port: u16) -> ServiceCheck {
    check(host_name, service_name, port, ServiceStatus::Up)
}

fn host(name: &str) -> Host {
    Host {
        name: name.to_string(),
        address: format!("{}.internal", name),
        description: None,
        services: vec![Service {
            name: "ssh".to_string(),
            port: 22,
            protocol: Protocol::Tcp,
            path: None,
            description: None,
            timeout: 10,
        }],
        timeout: 5,
    }
}

fn config(hosts: Vec<Host>) -> Config {
    Config {
        hosts,
        settings: Settings {
            refresh_interval: 30,
            log_file: None,
            theme: "default".to_string(),
            timezone: "UTC".to_string(),
        },
    }
}

fn app_with(checks: Vec<ServiceCheck>) -> App {
    let mut store = StatusStore::new();
    for c in checks {
        store.insert(c);
    }
    let mut app = App::new_at(config(vec![host("b"), host("a"), host("a")]), Timestamp { secs: 1, nanos: 0 });
    app.update_statuses_at(store, Timestamp { secs: 2, nanos: 0 });
    app
}

/// Hosts "a" (dns, web) and "b" (ssh): five lines.
fn three_services() -> App {
    app_with(vec![up("b", "ssh", 22), up("a", "web", 80), up("a", "dns", 53)])
}

#[test]
fn new_session_shows_the_overview_of_nothing() {
    let app = App::new_at(config(vec![host("a")]), Timestamp { secs: 77, nanos: 1 });
    assert_eq!(app.config, config(vec![host("a")]));
    assert_eq!(app.statuses.len(), 0);
    assert_eq!(app.selected_index, 0);
    assert!(!app.show_help);
    assert!(!app.show_host_detail);
    assert_eq!(app.selected_host_name, None);
    assert_eq!(app.last_update, Timestamp { secs: 77, nanos: 1 });
}

#[test]
fn new_session_is_stamped_with_the_present() {
    let app = App::new(config(vec![]));
    assert!(app.last_update.secs > 1_600_000_000);
    assert_eq!(app.selected_index, 0);
    assert_eq!(app.statuses.len(), 0);
}

#[test]
fn update_statuses_replaces_the_results_and_the_stamp() {
    let mut app = three_services();
    app.selected_index = 4;
    app.show_help = true;
    let mut store = StatusStore::new();
    store.insert(up("z", "ssh", 22));
    app.update_statuses_at(store, Timestamp { secs: 99, nanos: 3 });
    assert_eq!(app.get_status_list(), vec![up("z", "ssh", 22)]);
    assert_eq!(app.last_update, Timestamp { secs: 99, nanos: 3 });
    assert_eq!(app.selected_index, 4);
    assert!(app.show_help);
}

#[test]
fn update_statuses_stamps_the_present() {
    let mut app = three_services();
    app.update_statuses(StatusStore::new());
    assert_eq!(app.statuses.len(), 0);
    assert!(app.last_update.secs > 1_600_000_000);
}

#[test]
fn status_list_goes_by_host_then_service() {
    let app = three_services();
    assert_eq!(app.get_status_list(), vec![up("a", "dns", 53), up("a", "web", 80), up("b", "ssh", 22)]);
}

#[test]
fn status_list_goes_by_port_among_equal_names() {
    let app = app_with(vec![up("a", "web", 8080), up("a", "web", 80), up("a", "web", 443)]);
    assert_eq!(app.get_status_list(), vec![up("a", "web", 80), up("a", "web", 443), up("a", "web", 8080)]);
}

#[test]
fn status_list_of_nothing_is_empty() {
    assert!(app_with(vec![]).get_status_list().is_empty());
}

#[test]
fn selected_service_is_the_entry_of_the_listing() {
    let mut app = three_services();
    assert_eq!(app.get_selected_service(), Some(up("a", "dns", 53)));
    app.selected_index = 2;
    assert_eq!(app.get_selected_service(), Some(up("b", "ssh", 22)));
    app.selected_index = 3;
    assert_eq!(app.get_selected_service(), None);
}

#[test]
fn grouped_view_puts_a_before_b() {
    let one = app_with(vec![up("b", "ssh", 22), up("a", "ssh", 22)]);
    let other = app_with(vec![up("a", "ssh", 22), up("b", "ssh", 22)]);
    let expected =
        vec![("a".to_string(), vec![up("a", "ssh", 22)]), ("b".to_string(), vec![up("b", "ssh", 22)])];
    assert_eq!(one.get_grouped_status_list(), expected);
    assert_eq!(other.get_grouped_status_list(), expected);
}

#[test]
fn grouped_view_is_the_same_when_asked_twice() {
    let app = three_services();
    let first = app.get_grouped_status_list();
    let second = app.get_grouped_status_list();
    assert_eq!(first, second);
}

#[test]
fn grouped_view_does_not_depend_on_the_order_of_insertion() {
    let checks = vec![
        up("web", "https", 443),
        up("db", "pg", 5432),
        up("web", "http", 80),
        up("cache", "redis", 6379),
        up("db", "admin", 8080),
    ];
    let forward = app_with(checks.clone());
    let mut reversed = checks.clone();
    reversed.reverse();
    let backward = app_with(reversed);
    let mut rotated = checks.clone();
    rotated.rotate_left(2);
    let around = app_with(rotated);
    let expected = vec![
        ("cache".to_string(), vec![up("cache", "redis", 6379)]),
        ("db".to_string(), vec![up("db", "admin", 8080), up("db", "pg", 5432)]),
        ("web".to_string(), vec![up("web", "http", 80), up("web", "https", 443)]),
    ];
    assert_eq!(forward.get_grouped_status_list(), expected);
    assert_eq!(backward.get_grouped_status_list(), expected);
    assert_eq!(around.get_grouped_status_list(), expected);
}

#[test]
fn grouped_view_orders_services_within_a_host() {
    let app = three_services();
    assert_eq!(
        app.get_grouped_status_list(),
        vec![
            ("a".to_string(), vec![up("a", "dns", 53), up("a", "web", 80)]),
            ("b".to_string(), vec![up("b", "ssh", 22)]),
        ]
    );
}

#[test]
fn grouped_view_shows_the_latest_result_of_a_slot() {
    let app = app_with(vec![
        check("a", "web", 80, ServiceStatus::Unknown),
        check("a", "web", 80, ServiceStatus::Down),
    ]);
    assert_eq!(
        app.get_grouped_status_list(),
        vec![("a".to_string(), vec![check("a", "web", 80, ServiceStatus::Down)])]
    );
}

#[test]
fn grouped_view_of_nothing_is_empty() {
    assert!(app_with(vec![]).get_grouped_status_list().is_empty());
}

#[test]
fn total_items_counts_headers_and_services() {
    assert_eq!(app_with(vec![]).get_total_items(), 0);
    assert_eq!(app_with(vec![up("a", "ssh", 22)]).get_total_items(), 2);
    assert_eq!(three_services().get_total_items(), 5);
}

#[test]
fn selected_item_walks_headers_and_services() {
    let mut app = three_services();
    let expected = vec![
        Some(SelectedItem::HostHeader("a".to_string())),
        Some(SelectedItem::Service(up("a", "dns", 53))),
        Some(SelectedItem::Service(up("a", "web", 80))),
        Some(SelectedItem::HostHeader("b".to_string())),
        Some(SelectedItem::Service(up("b", "ssh", 22))),
        None,
        None,
    ];
    for (index, item) in expected.into_iter().enumerate() {
        app.selected_index = index;
        assert_eq!(app.get_selected_item(), item, "at {}", index);
    }
    app.selected_index = usize::MAX;
    assert_eq!(app.get_selected_item(), None);
}

#[test]
fn selected_item_of_nothing_is_nothing() {
    assert_eq!(app_with(vec![]).get_selected_item(), None);
}

#[test]
fn next_item_comes_round_after_as_many_steps_as_lines() {
    let mut app = three_services();
    let total = app.get_total_items();
    let mut seen = Vec::new();
    for _ in 0..total {
        app.next_item();
        seen.push(app.selected_index);
    }
    assert_eq!(seen, vec![1, 2, 3, 4, 0]);
}

#[test]
fn previous_item_from_the_top_goes_to_the_last_line() {
    let mut app = three_services();
    app.previous_item();
    assert_eq!(app.selected_index, 4);
    app.previous_item();
    assert_eq!(app.selected_index, 3);
}

#[test]
fn moving_without_lines_changes_nothing() {
    let mut app = app_with(vec![]);
    app.next_item();
    assert_eq!(app.selected_index, 0);
    app.previous_item();
    assert_eq!(app.selected_index, 0);
    app.selected_index = 3;
    app.next_item();
    assert_eq!(app.selected_index, 3);
    app.previous_item();
    assert_eq!(app.selected_index, 3);
}

#[test]
fn moving_from_beyond_the_last_line() {
    let mut app = three_services();
    app.selected_index = 7;
    app.next_item();
    assert_eq!(app.selected_index, 3);
    app.selected_index = 7;
    app.previous_item();
    assert_eq!(app.selected_index, 6);
    app.selected_index = usize::MAX;
    app.next_item();
    assert_eq!(app.selected_index, ((usize::MAX as u128 + 1) % 5) as usize);
}

#[test]
fn moving_changes_the_selection_only() {
    let mut app = three_services();
    app.show_help = true;
    app.show_host_detail = true;
    app.selected_host_name = Some("a".to_string());
    app.next_item();
    app.previous_item();
    app.previous_item();
    assert!(app.show_help);
    assert!(app.show_host_detail);
    assert_eq!(app.selected_host_name, Some("a".to_string()));
    assert_eq!(app.statuses.len(), 3);
    assert_eq!(app.last_update, Timestamp { secs: 2, nanos: 0 });
}

#[test]
fn toggle_help_flips_the_flag() {
    let mut app = three_services();
    app.toggle_help();
    assert!(app.show_help);
    app.toggle_help();
    assert!(!app.show_help);
}

#[test]
fn enter_host_detail_on_a_header_pins_the_host() {
    let mut app = three_services();
    app.selected_index = 3;
    app.enter_host_detail();
    assert!(app.show_host_detail);
    assert_eq!(app.selected_host_name, Some("b".to_string()));
    assert_eq!(app.selected_index, 3);
}

#[test]
fn enter_host_detail_on_a_service_pins_its_host() {
    let mut app = three_services();
    app.selected_index = 2;
    app.enter_host_detail();
    assert!(app.show_host_detail);
    assert_eq!(app.selected_host_name, Some("a".to_string()));
}

#[test]
fn enter_host_detail_on_no_line_changes_nothing() {
    let mut app = three_services();
    app.selected_index = 5;
    app.enter_host_detail();
    assert!(!app.show_host_detail);
    assert_eq!(app.selected_host_name, None);
    let mut empty = app_with(vec![]);
    empty.enter_host_detail();
    assert!(!empty.show_host_detail);
    assert_eq!(empty.selected_host_name, None);
}

#[test]
fn exit_host_detail_forgets_the_host() {
    let mut app = three_services();
    app.enter_host_detail();
    app.exit_host_detail();
    assert!(!app.show_host_detail);
    assert_eq!(app.selected_host_name, None);
    app.exit_host_detail();
    assert!(!app.show_host_detail);
    assert_eq!(app.selected_host_name, None);
}

#[test]
fn selected_host_is_the_first_of_that_name() {
    let mut app = three_services();
    app.config.hosts[2].address = "second".to_string();
    assert_eq!(app.get_selected_host(), None);
    app.selected_host_name = Some("a".to_string());
    assert_eq!(app.get_selected_host(), Some(&host("a")));
    app.selected_host_name = Some("b".to_string());
    assert_eq!(app.get_selected_host(), Some(&host("b")));
    app.selected_host_name = Some("c".to_string());
    assert_eq!(app.get_selected_host(), None);
}

#[test]
fn host_services_are_those_of_the_host_in_order_of_service() {
    let app = app_with(vec![
        up("b", "ssh", 22),
        up("a", "web", 80),
        up("ab", "web", 80),
        up("a", "dns", 53),
        up("a", "web", 8080),
        up("a", "api", 9000),
    ]);
    assert_eq!(
        app.get_host_services_status("a"),
        vec![up("a", "api", 9000), up("a", "dns", 53), up("a", "web", 80), up("a", "web", 8080)]
    );
    assert_eq!(app.get_host_services_status("ab"), vec![up("ab", "web", 80)]);
    assert_eq!(app.get_host_services_status("b"), vec![up("b", "ssh", 22)]);
}

#[test]
fn host_services_of_an_unknown_host_are_none() {
    let app = three_services();
    assert!(app.get_host_services_status("c").is_empty());
    assert!(app.get_host_services_status("").is_empty());
    assert!(app.get_host_services_status("A").is_empty());
}

#[test]
fn host_services_are_the_group_of_the_host() {
    let app = three_services();
    for (name, services) in app.get_grouped_status_list() {
        assert_eq!(app.get_host_services_status(&name), services);
    }
}

#[test]
fn summary_counts_each_status() {
    let app = app_with(vec![
        check("a", "web", 80, ServiceStatus::Up),
        check("a", "dns", 53, ServiceStatus::Down),
        check("b", "ssh", 22, ServiceStatus::Up),
        check("c", "ssh", 22, ServiceStatus::Unknown),
        check("d", "ssh", 22, ServiceStatus::Up),
        check("d", "web", 80, ServiceStatus::Down),
    ]);
    assert_eq!(app.get_summary_stats(), (3, 2, 1));
    assert_eq!(app_with(vec![]).get_summary_stats(), (0, 0, 0));
}

#[test]
fn totals_of_services_and_hosts() {
    let app = three_services();
    assert_eq!(app.get_total_services(), 3);
    assert_eq!(app.get_host_count(), 3);
    assert_eq!(app_with(vec![]).get_total_services(), 0);
}

#[test]
fn refresh_interval_is_the_configured_seconds() {
    let app = three_services();
    assert_eq!(app.get_refresh_interval(), Elapsed { nanos: 30_000_000_000 });
}

#[test]
fn clone_of_a_selected_item_is_equal_to_it() {
    let header = SelectedItem::HostHeader("a".to_string());
    assert_eq!(header.clone(), header);
    let service = SelectedItem::Service(up("a", "web", 80));
    assert_eq!(service.clone(), service);
}

#[test]
fn lines_of_a_store_can_be_counted() {
    assert!(three_services().lines_countable());
    assert!(app_with(vec![]).lines_countable());
}

#[test]
fn lines_are_headers_and_services_top_to_bottom() {
    let app = three_services();
    assert_eq!(
        app.get_lines(),
        vec![
            SelectedItem::HostHeader("a".to_string()),
            SelectedItem::Service(up("a", "dns", 53)),
            SelectedItem::Service(up("a", "web", 80)),
            SelectedItem::HostHeader("b".to_string()),
            SelectedItem::Service(up("b", "ssh", 22)),
        ]
    );
    assert!(app_with(vec![]).get_lines().is_empty());
}

#[test]
fn selected_item_is_the_line_at_the_index() {
    let mut app = three_services();
    let lines = app.get_lines();
    assert_eq!(lines.len(), app.get_total_items());
    for (index, line) in lines.into_iter().enumerate() {
        app.selected_index = index;
        assert_eq!(app.get_selected_item(), Some(line));
    }
}
