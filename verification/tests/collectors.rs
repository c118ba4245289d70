use routeros_exporter::collectors::{interfaces, interfaces_monitor, interfaces_poe, ip_firewall_raw};
use routeros_exporter::json::JsonValue;
use routeros_exporter::text::decimal_text;

fn s(t: &str) -> String {
    t.to_string()
}

fn st(t: &str) -> JsonValue {
    JsonValue::Str(t.to_string())
}

fn obj(members: Vec<(&str, JsonValue)>) -> JsonValue {
    JsonValue::Object(members.into_iter().map(|(k, v)| (k.to_string(), v)).collect())
}

#[test]
fn every_metrics_function_with_preamble() {
    let expected = "# HELP p_a_b Help\n# TYPE p_a_b gauge\n# UNIT p_a_b u\np_a_b{l=\"1\"} 5\n";
    assert_eq!(interfaces::metrics("p", "a-b", "5", "l=\"1\"", "gauge", "Help", "u", false), expected);
    assert_eq!(interfaces_monitor::metrics("p", "a-b", "5", "l=\"1\"", "gauge", "Help", "u", false), expected);
    assert_eq!(interfaces_poe::metrics("p", "a-b", "5", "l=\"1\"", "gauge", "Help", "u", false), expected);
    assert_eq!(ip_firewall_raw::metrics("p", "a-b", "5", "l=\"1\"", "gauge", "Help", "u", false), expected);
}

#[test]
fn every_metrics_function_without_preamble() {
    let expected = "p_a_b{l=\"1\"} 5\n";
    assert_eq!(interfaces::metrics("p", "a-b", "5", "l=\"1\"", "gauge", "Help", "u", true), expected);
    assert_eq!(interfaces_monitor::metrics("p", "a-b", "5", "l=\"1\"", "gauge", "Help", "u", true), expected);
    assert_eq!(interfaces_poe::metrics("p", "a-b", "5", "l=\"1\"", "gauge", "Help", "u", true), expected);
    assert_eq!(ip_firewall_raw::metrics("p", "a-b", "5", "l=\"1\"", "gauge", "Help", "u", true), expected);
}

#[test]
fn interfaces_two_interfaces() {
    let reply = JsonValue::Array(vec![
        obj(vec![
            ("name", st("ether1")),
            ("running", st("true")),
            ("mac-address", st("00:00:00:00:00:00")),
            ("type", st("ether")),
            ("comment", st("up\"link")),
            ("rx-byte", st("100")),
            ("mtu", st("auto")),
        ]),
        obj(vec![
            ("name", st("ether2")),
            ("running", st("false")),
            ("mac-address", st("AA:BB:CC:DD:EE:FF")),
            ("slave", JsonValue::Bool(true)),
            ("rx-byte", st("7")),
            ("mtu", st("1500")),
        ]),
    ]);
    let l1 = "interface=\"ether1\",type=\"ether\",comment=\"up_link\"";
    let l2 = "interface=\"ether2\",mac_address=\"AA:BB:CC:DD:EE:FF\",slave=\"true\"";
    let expected = format!(
        "# HELP p_interface_running Status\n# TYPE p_interface_running gauge\n# UNIT p_interface_running Boolean\n\
p_interface_running{{{l1}}} 1\n\
# HELP p_interface_rx_byte_total Interface RX Byte\n# TYPE p_interface_rx_byte_total counter\n# UNIT p_interface_rx_byte_total bytes\n\
p_interface_rx_byte_total{{{l1}}} 100\n\
# HELP p_interface_mtu Interface configured MTU\n# TYPE p_interface_mtu gauge\n# UNIT p_interface_mtu bytes\n\
p_interface_mtu{{{l1}}} 65534\n\
p_interface_running{{{l2}}} 0\n\
p_interface_rx_byte_total{{{l2}}} 7\n\
p_interface_mtu{{{l2}}} 1500\n"
    );
    assert_eq!(interfaces::metrics_text("p", &reply), expected);
}

#[test]
fn interfaces_all_counters_in_table_order() {
    let reply = JsonValue::Array(vec![obj(vec![
        ("rx-byte", st("8")),
        ("tx-byte", st("7")),
        ("fp-tx-byte", st("6")),
        ("fp-rx-byte", st("5")),
        ("link-downs", st("4")),
        ("tx-queue-drop", st("3")),
        ("l2mtu", st("2")),
        ("actual-mtu", st("1")),
        ("name", st("e")),
        ("running", st("no")),
    ])]);
    let out = interfaces::metrics_text("r", &reply);
    let samples: Vec<&str> = out.lines().filter(|l| !l.starts_with('#')).collect();
    assert_eq!(
        samples,
        vec![
            "r_interface_running{interface=\"e\"} 0",
            "r_interface_actual_mtu{interface=\"e\"} 1",
            "r_interface_l2_mtu{interface=\"e\"} 2",
            "r_interface_tx_queue_drop_total{interface=\"e\"} 3",
            "r_interface_link_downs_total{interface=\"e\"} 4",
            "r_interface_fp_rx_byte_total{interface=\"e\"} 5",
            "r_interface_fp_tx_byte_total{interface=\"e\"} 6",
            "r_interface_tx_byte_total{interface=\"e\"} 7",
            "r_interface_rx_byte_total{interface=\"e\"} 8",
        ]
    );
}

#[test]
fn interfaces_empty_comment_and_none_member() {
    let reply = JsonValue::Array(vec![obj(vec![
        ("name", st("e")),
        ("running", st("true")),
        ("comment", st("")),
        ("none", JsonValue::Null),
    ])]);
    let expected = "# HELP r_interface_running Status\n# TYPE r_interface_running gauge\n# UNIT r_interface_running Boolean\n\
r_interface_running{interface=\"e\"} 1\n\
# HELP r_ \n# TYPE r_ \n\
r_{interface=\"e\"} \n";
    assert_eq!(interfaces::metrics_text("r", &reply), expected);
}

#[test]
fn interfaces_empty_reply() {
    assert_eq!(interfaces::metrics_text("r", &JsonValue::Array(vec![])), "");
}

#[test]
fn monitor_reply_with_rate() {
    let reply = JsonValue::Array(vec![
        obj(vec![
            ("name", st("sfp1")),
            ("mac-address", st("AA:BB")),
            ("sfp-temperature", st("40")),
            ("rate", st("10Gbps")),
        ]),
        obj(vec![("name", st("sfp2")), ("rate", st("1Gbps"))]),
    ]);
    let rates = interfaces_monitor::rates(&reply);
    assert_eq!(rates, vec![Some(s("10Gbps")), Some(s("1Gbps"))]);
    let bps = vec![s("10000000000"), s("1000000000")];
    let expected = "# HELP p_interface_sfp_temperature SFP Temperature\n# TYPE p_interface_sfp_temperature gauge\n# UNIT p_interface_sfp_temperature celsius\n\
p_interface_sfp_temperature{interface=\"sfp1\",mac_address=\"AA:BB\"} 40\n\
# HELP p_interface_rate Interface Speed\n# TYPE p_interface_rate gauge\n# UNIT p_interface_rate bps\n\
p_interface_rate{interface=\"sfp1\",mac_address=\"AA:BB\"} 10000000000\n\
p_interface_rate{interface=\"sfp2\"} 1000000000\n";
    assert_eq!(interfaces_monitor::metrics_text("p", &reply, &bps), expected);
}

#[test]
fn monitor_rate_left_out_without_text_or_member() {
    let reply = JsonValue::Array(vec![
        obj(vec![("name", st("a")), ("rate", st("x")), ("mac-address", st("00:00:00:00:00:00"))]),
        obj(vec![("name", st("b"))]),
    ]);
    assert_eq!(interfaces_monitor::rates(&reply), vec![Some(s("x")), None]);
    let bps = vec![s(""), s("5")];
    assert_eq!(interfaces_monitor::metrics_text("p", &reply, &bps), "");
}

#[test]
fn monitor_reply_not_an_array() {
    assert_eq!(interfaces_monitor::metrics_text("p", &JsonValue::Null, &vec![]), "");
    assert_eq!(interfaces_monitor::rates(&JsonValue::Null), vec![]);
}

#[test]
fn poe_status_codes() {
    assert_eq!(interfaces_poe::poe_status("powered-on"), 0);
    assert_eq!(interfaces_poe::poe_status("waiting-for-load"), 1);
    assert_eq!(interfaces_poe::poe_status("short-circuit"), 2);
    assert_eq!(interfaces_poe::poe_status("overload"), 3);
    assert_eq!(interfaces_poe::poe_status("voltage-too-low"), 4);
    assert_eq!(interfaces_poe::poe_status("current-too-low"), 5);
    assert_eq!(interfaces_poe::poe_status("off"), 6);
    assert_eq!(interfaces_poe::poe_status("disabled"), 254);
    assert_eq!(interfaces_poe::poe_status("something"), 255);
    assert_eq!(interfaces_poe::poe_status(""), 255);
}

#[test]
fn decimal_text_matches_to_string() {
    for n in 0..=255u8 {
        assert_eq!(decimal_text(n as u64), n.to_string());
    }
}

#[test]
fn poe_reply() {
    let reply = JsonValue::Array(vec![
        obj(vec![("name", st("ether2")), ("poe-out-status", st("powered-on")), ("poe-out-voltage", st("24.1"))]),
        obj(vec![("name", st("ether3")), ("poe-out-status", st("weird")), ("poe-out-power", st("0"))]),
    ]);
    let help = "PoE Output Status. { 0: powered-on, 1: waiting-for-load, 2: short-circuit, 3: overload, 4: voltage-too-low, 5: current-too-low, 6: off, 254: disabled, 255: unknown }";
    let expected = format!(
        "# HELP p_interface_poe_status {help}\n# TYPE p_interface_poe_status gauge\n# UNIT p_interface_poe_status Status\n\
p_interface_poe_status{{interface=\"ether2\"}} 0\n\
# HELP p_interface_poe_out_voltage PoE Output Voltage\n# TYPE p_interface_poe_out_voltage gauge\n# UNIT p_interface_poe_out_voltage volts\n\
p_interface_poe_out_voltage{{interface=\"ether2\"}} 24.1\n\
p_interface_poe_status{{interface=\"ether3\"}} 255\n\
p_interface_poe_out_power{{interface=\"ether3\"}} 0\n"
    );
    assert_eq!(interfaces_poe::metrics_text("p", &reply), expected);
}

#[test]
fn poe_reply_not_an_array() {
    assert_eq!(interfaces_poe::metrics_text("p", &JsonValue::Null), "");
}

#[test]
fn firewall_raw_rules() {
    let reply = JsonValue::Array(vec![
        obj(vec![
            (".id", st("*1")),
            ("action", st("accept")),
            ("bytes", st("10")),
            ("chain", st("prerouting")),
            ("comment", JsonValue::Number(s("3"))),
            ("disabled", st("false")),
            ("packets", st("2")),
            ("src-address", st("1.2.3.4")),
        ]),
        obj(vec![("action", st("drop")), ("packets", st("0"))]),
    ]);
    let l1 = "action=\"accept\",chain=\"prerouting\",src_address=\"1.2.3.4\"";
    let expected = format!(
        "# HELP p_ip_firewall_raw_packets_total Firewall rule packet count\n# TYPE p_ip_firewall_raw_packets_total counter\n# UNIT p_ip_firewall_raw_packets_total packets\n\
p_ip_firewall_raw_packets_total{{{l1}}} 2\n\
# HELP p_ip_firewall_raw_bytes_total Firewall rule byte count\n# TYPE p_ip_firewall_raw_bytes_total counter\n# UNIT p_ip_firewall_raw_bytes_total bytes\n\
p_ip_firewall_raw_bytes_total{{{l1}}} 10\n\
p_ip_firewall_raw_packets_total{{action=\"drop\"}} 0\n"
    );
    assert_eq!(ip_firewall_raw::metrics_text("p", &reply), expected);
}

#[test]
fn firewall_raw_skipped_members_only() {
    let rule = obj(vec![(".id", st("*1")), ("log", st("no")), ("log-prefix", st("")), ("invalid", st("false"))]);
    assert_eq!(ip_firewall_raw::labels_of(&rule), "");
    assert_eq!(ip_firewall_raw::metrics_text("p", &JsonValue::Array(vec![rule])), "");
}

#[test]
fn firewall_raw_not_an_array() {
    assert_eq!(ip_firewall_raw::metrics_text("p", &obj(vec![])), "");
}
