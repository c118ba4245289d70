use routeros_exporter::configuration::{Collectors, RouterConfiguration, Server, Settings};
use routeros_exporter::probe::{
    merge_collectors, parse_u16, plan_tasks, probe_accepted, probe_plan, probe_response, CollectorKind,
};

fn s(t: &str) -> String {
    t.to_string()
}

fn none() -> Collectors {
    Collectors {
        ip_firewall: None,
        ip_firewall_filter: None,
        ip_firewall_nat: None,
        ip_firewall_mangle: None,
        ip_firewall_raw: None,
        ip_firewall_conntrack: None,
        health: None,
        resources: None,
        interfaces: None,
        interfaces_poe: None,
        interfaces_monitor: None,
    }
}

fn settings() -> Settings {
    let mut default_collectors = none();
    default_collectors.interfaces = Some(true);
    let mut instance_collectors = none();
    instance_collectors.interfaces_poe = Some(true);
    instance_collectors.ip_firewall = Some(true);
    instance_collectors.ip_firewall_raw = Some(true);
    instance_collectors.interfaces = Some(false);
    Settings {
        server: Server { port: 9436 },
        metrics_prefix: s("routeros"),
        defaults: RouterConfiguration {
            username: s("admin"),
            password: s("pw"),
            check_ssl: false,
            address: s("192.168.88.1"),
            port: 443,
            collectors: Some(default_collectors),
        },
        instances: Some(vec![RouterConfiguration {
            username: s("u1"),
            password: s("p1"),
            check_ssl: true,
            address: s("10.0.0.1"),
            port: 8443,
            collectors: Some(instance_collectors),
        }]),
    }
}

fn q(pairs: &[(&str, &str)]) -> Vec<(String, String)> {
    pairs.iter().map(|(k, v)| (s(k), s(v))).collect()
}

#[test]
fn probe_without_query_uses_defaults() {
    let plan = probe_plan(&settings(), &q(&[]));
    assert_eq!(plan.address, "192.168.88.1");
    assert_eq!(plan.username, "admin");
    assert_eq!(plan.password, "pw");
    assert_eq!(plan.port, 443);
    assert!(!plan.check_ssl);
    assert_eq!(plan.tasks, vec![CollectorKind::Interfaces]);
}

#[test]
fn probe_target_of_a_configured_router_uses_its_settings() {
    let plan = probe_plan(&settings(), &q(&[("target", "10.0.0.1"), ("collectors", "interfaces"), ("port", "1234")]));
    assert_eq!(plan.address, "10.0.0.1");
    assert_eq!(plan.username, "u1");
    assert_eq!(plan.password, "p1");
    assert_eq!(plan.port, 1234);
    assert!(plan.check_ssl);
    assert_eq!(plan.collectors.interfaces, Some(true));
    assert_eq!(
        plan.tasks,
        vec![CollectorKind::Interfaces, CollectorKind::InterfacesPoe, CollectorKind::IpFirewallRaw]
    );
}

#[test]
fn probe_unknown_target_uses_defaults_with_that_address() {
    let plan = probe_plan(&settings(), &q(&[("target", "10.9.9.9")]));
    assert_eq!(plan.address, "10.9.9.9");
    assert_eq!(plan.username, "admin");
    assert_eq!(plan.port, 443);
}

#[test]
fn probe_last_target_and_port_win() {
    let plan = probe_plan(
        &settings(),
        &q(&[("target", "10.0.0.1"), ("port", "1"), ("target", "10.9.9.9"), ("port", "+2")]),
    );
    assert_eq!(plan.address, "10.9.9.9");
    assert_eq!(plan.username, "admin");
    assert_eq!(plan.port, 2);
}

#[test]
fn probe_check_ssl_parameter_turns_check_on() {
    let plan = probe_plan(&settings(), &q(&[("check_ssl", "false")]));
    assert!(plan.check_ssl);
}

#[test]
fn probe_firewall_collectors_need_ip_firewall() {
    let plan = probe_plan(&settings(), &q(&[("collectors", "ip_firewall_filter")]));
    assert_eq!(plan.collectors.ip_firewall_filter, Some(true));
    assert_eq!(plan.tasks, vec![CollectorKind::Interfaces]);
    let plan = probe_plan(
        &settings(),
        &q(&[("collectors", "ip_firewall_filter"), ("collectors", "ip_firewall"), ("collectors", "ip_firewall_nat")]),
    );
    assert_eq!(
        plan.tasks,
        vec![CollectorKind::Interfaces, CollectorKind::IpFirewallFilter, CollectorKind::IpFirewallNat]
    );
}

#[test]
fn probe_query_cannot_ask_for_raw() {
    let plan = probe_plan(&settings(), &q(&[("collectors", "ip_firewall"), ("collectors", "ip_firewall_raw")]));
    assert_eq!(plan.collectors.ip_firewall_raw, None);
    assert_eq!(plan.tasks, vec![CollectorKind::Interfaces]);
}

#[test]
fn probe_other_collector_names() {
    let plan = probe_plan(
        &settings(),
        &q(&[
            ("collectors", "health"),
            ("collectors", "resources"),
            ("collectors", "interfaces_monitor"),
            ("collectors", "interfaces_poe"),
            ("collectors", "ip_firewall_mangle"),
            ("collectors", "bogus"),
            ("username", "x"),
        ]),
    );
    assert_eq!(plan.collectors.health, Some(true));
    assert_eq!(plan.collectors.resources, Some(true));
    assert_eq!(plan.collectors.ip_firewall_mangle, Some(true));
    assert_eq!(plan.username, "admin");
    assert_eq!(
        plan.tasks,
        vec![CollectorKind::Interfaces, CollectorKind::InterfacesMonitor, CollectorKind::InterfacesPoe]
    );
}

#[test]
fn plan_tasks_order() {
    let mut c = none();
    c.ip_firewall = Some(true);
    c.ip_firewall_raw = Some(true);
    c.ip_firewall_mangle = Some(true);
    c.ip_firewall_nat = Some(true);
    c.ip_firewall_filter = Some(true);
    c.interfaces_poe = Some(true);
    c.interfaces_monitor = Some(true);
    c.interfaces = Some(true);
    assert_eq!(
        plan_tasks(&c),
        vec![
            CollectorKind::Interfaces,
            CollectorKind::InterfacesMonitor,
            CollectorKind::InterfacesPoe,
            CollectorKind::IpFirewallFilter,
            CollectorKind::IpFirewallNat,
            CollectorKind::IpFirewallMangle,
            CollectorKind::IpFirewallRaw,
        ]
    );
    c.ip_firewall = Some(false);
    assert_eq!(plan_tasks(&c).len(), 3);
    assert_eq!(plan_tasks(&none()), vec![]);
}

#[test]
fn parse_u16_agrees_with_std() {
    for t in [
        "443", "+80", "0", "65535", "65536", "", "+", "-1", "-0", "8o", "0080", "99999999999", " 1", "1 ", "++1", "٣",
        "00000000000000065535", "70000",
    ] {
        assert_eq!(parse_u16(t), t.parse::<u16>().ok(), "input {:?}", t);
    }
}

#[test]
fn probe_response_joins_with_newlines() {
    assert_eq!(probe_response(&vec![s("a"), s("b\n")]), "a\nb\n\n");
    assert_eq!(probe_response(&vec![]), "");
}

fn readme_settings(instance_collectors: Option<Collectors>) -> Settings {
    let mut defaults = none();
    defaults.interfaces = Some(true);
    defaults.interfaces_poe = Some(true);
    defaults.interfaces_monitor = Some(true);
    Settings {
        server: Server { port: 9436 },
        metrics_prefix: s("routeros"),
        defaults: RouterConfiguration {
            username: s("admin"),
            password: s("pw"),
            check_ssl: true,
            address: s("192.168.88.1"),
            port: 443,
            collectors: Some(defaults),
        },
        instances: Some(vec![RouterConfiguration {
            username: s("someuser"),
            password: s("password"),
            check_ssl: false,
            address: s("192.168.88.20"),
            port: 8443,
            collectors: instance_collectors,
        }]),
    }
}

#[test]
fn instance_table_disables_only_the_switches_it_sets() {
    let mut table = none();
    table.interfaces_poe = Some(false);
    let plan = probe_plan(&readme_settings(Some(table)), &q(&[("target", "192.168.88.20")]));
    assert_eq!(plan.username, "someuser");
    assert_eq!(plan.collectors.interfaces, Some(true));
    assert_eq!(plan.collectors.interfaces_poe, Some(false));
    assert_eq!(plan.tasks, vec![CollectorKind::Interfaces, CollectorKind::InterfacesMonitor]);
}

#[test]
fn instance_without_table_runs_default_collectors_with_its_credentials() {
    let settings = readme_settings(None);
    let query = q(&[("target", "192.168.88.20")]);
    assert!(probe_accepted(&settings, &query));
    let plan = probe_plan(&settings, &query);
    assert_eq!(plan.address, "192.168.88.20");
    assert_eq!(plan.username, "someuser");
    assert_eq!(plan.password, "password");
    assert_eq!(plan.port, 8443);
    assert!(!plan.check_ssl);
    assert_eq!(
        plan.tasks,
        vec![CollectorKind::Interfaces, CollectorKind::InterfacesMonitor, CollectorKind::InterfacesPoe]
    );
}

#[test]
fn merge_collectors_switch_by_switch() {
    let mut defaults = none();
    defaults.health = Some(true);
    defaults.resources = Some(false);
    let mut table = none();
    table.resources = Some(true);
    table.interfaces = Some(false);
    let m = merge_collectors(Some(table), defaults);
    assert_eq!(m.health, Some(true));
    assert_eq!(m.resources, Some(true));
    assert_eq!(m.interfaces, Some(false));
    assert_eq!(m.interfaces_poe, None);
    assert_eq!(merge_collectors(None, defaults), defaults);
}

#[test]
fn probe_refused_without_default_collectors_or_with_bad_port() {
    let mut settings = readme_settings(None);
    assert!(!probe_accepted(&settings, &q(&[("port", "x")])));
    assert!(probe_accepted(&settings, &q(&[("port", "80")])));
    settings.defaults.collectors = None;
    assert!(!probe_accepted(&settings, &q(&[])));
}
