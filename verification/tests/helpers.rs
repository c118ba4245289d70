use routeros_exporter::collectors::helpers::{
    collector_preamble, request_url, make_metric, make_metric_preamble, monitor_request_body, split_rate,
};
use routeros_exporter::json::{to_json_text, JsonValue};
use routeros_exporter::text::{chars_of, decimal_text, ends_with_text, remove_text, replace_char, same_text, string_of};

fn s(t: &str) -> String {
    t.to_string()
}

fn obj(members: Vec<(&str, JsonValue)>) -> JsonValue {
    JsonValue::Object(members.into_iter().map(|(k, v)| (k.to_string(), v)).collect())
}

#[test]
fn make_metric_replaces_dashes_in_name() {
    assert_eq!(
        make_metric("routeros", "rx-byte", "interface=\"ether1\"", "100"),
        "routeros_rx_byte{interface=\"ether1\"} 100\n"
    );
}

#[test]
fn make_metric_keeps_prefix_and_labels_as_given() {
    assert_eq!(make_metric("my-prefix", "a-b-c", "x-y=\"1\"", "-1"), "my-prefix_a_b_c{x-y=\"1\"} -1\n");
    assert_eq!(make_metric("p", "", "", ""), "p_{} \n");
}

#[test]
fn make_metric_preamble_with_unit() {
    assert_eq!(
        make_metric_preamble("routeros", "interface-running", "gauge", "Status", "Boolean"),
        "# HELP routeros_interface_running Status\n# TYPE routeros_interface_running gauge\n# UNIT routeros_interface_running Boolean\n"
    );
}

#[test]
fn make_metric_preamble_without_unit() {
    assert_eq!(
        make_metric_preamble("routeros", "x", "counter", "Help text", ""),
        "# HELP routeros_x Help text\n# TYPE routeros_x counter\n"
    );
}

#[test]
fn collector_preamble_starts_empty() {
    let (_now, ret, errored, labels) = collector_preamble();
    assert_eq!(ret, "");
    assert_eq!(errored, 0);
    assert_eq!(labels, "");
}

#[test]
fn split_rate_gigabits() {
    assert_eq!(split_rate("10Gbps"), Some((s("10"), 3)));
    assert_eq!(split_rate("2.5Gbps"), Some((s("2.5"), 3)));
}

#[test]
fn split_rate_megabits() {
    assert_eq!(split_rate("100Mbps"), Some((s("100"), 2)));
}

#[test]
fn split_rate_other_units() {
    assert_eq!(split_rate("10Kbps"), None);
    assert_eq!(split_rate(""), None);
    assert_eq!(split_rate("Gbps10"), None);
}

#[test]
fn split_rate_removes_every_occurrence_of_the_unit() {
    assert_eq!(split_rate("1Gbps1Gbps"), Some((s("11"), 3)));
    assert_eq!(split_rate("Mbps"), Some((s(""), 2)));
    assert_eq!(split_rate("GGbpsbps"), None);
    assert_eq!(split_rate("xGGbpsbpsGbps"), Some((s("xGbps"), 3)));
    assert_eq!(s("xGGbpsbpsGbps").replace("Gbps", ""), "xGbps");
}

#[test]
fn json_text_of_scalars() {
    assert_eq!(to_json_text(&JsonValue::Null), "null");
    assert_eq!(to_json_text(&JsonValue::Bool(true)), "true");
    assert_eq!(to_json_text(&JsonValue::Bool(false)), "false");
    assert_eq!(to_json_text(&JsonValue::Number(s("12.5"))), "12.5");
    assert_eq!(to_json_text(&JsonValue::Str(s("*1"))), "\"*1\"");
}

#[test]
fn json_text_escapes_strings() {
    assert_eq!(
        to_json_text(&JsonValue::Str(s("a\"b\\c\nd\u{1}e\u{8}\u{c}\r\t\u{1f}é"))),
        "\"a\\\"b\\\\c\\nd\\u0001e\\b\\f\\r\\t\\u001fé\""
    );
}

#[test]
fn json_text_of_containers() {
    let v = JsonValue::Array(vec![
        JsonValue::Null,
        obj(vec![("a", JsonValue::Number(s("1"))), ("b\"", JsonValue::Array(vec![]))]),
        JsonValue::Str(s("x")),
    ]);
    assert_eq!(to_json_text(&v), "[null,{\"a\":1,\"b\\\"\":[]},\"x\"]");
    assert_eq!(to_json_text(&obj(vec![])), "{}");
}

#[test]
fn monitor_request_body_lists_ids() {
    let listing = JsonValue::Array(vec![
        obj(vec![(".id", JsonValue::Str(s("*1")))]),
        obj(vec![(".id", JsonValue::Str(s("*2"))), ("name", JsonValue::Str(s("ether2")))]),
    ]);
    let body = monitor_request_body(&listing).unwrap();
    assert_eq!(
        body,
        vec![
            (s("numbers"), s("\"*1\",\"*2\"")),
            (s("duration"), s("0.1s")),
            (s("interval"), s("0.1s")),
        ]
    );
}

#[test]
fn monitor_request_body_of_empty_listing() {
    let body = monitor_request_body(&JsonValue::Array(vec![])).unwrap();
    assert_eq!(body[0], (s("numbers"), s("")));
}

#[test]
fn monitor_request_body_needs_an_array() {
    assert_eq!(monitor_request_body(&JsonValue::Null), None);
    assert_eq!(monitor_request_body(&obj(vec![])), None);
}

#[test]
fn monitor_request_body_with_number_ids() {
    let listing = JsonValue::Array(vec![obj(vec![(".id", JsonValue::Number(s("7")))])]);
    let body = monitor_request_body(&listing).unwrap();
    assert_eq!(body[0].1, "7");
}

#[test]
fn text_helpers() {
    assert_eq!(replace_char("a-b-c", '-', '_'), "a_b_c");
    assert_eq!(replace_char("", '-', '_'), "");
    assert_eq!(remove_text("GbpsxGbps", "Gbps"), "x");
    assert_eq!(remove_text("abc", "zz"), "abc");
    assert!(ends_with_text("10Gbps", "Gbps"));
    assert!(!ends_with_text("bps", "Gbps"));
    assert_eq!(chars_of("héllo"), vec!['h', 'é', 'l', 'l', 'o']);
    assert_eq!(string_of(&['a', 'é']), "aé");
    assert!(same_text("abc", "abc"));
    assert!(!same_text("abc", "abd"));
}

#[test]
fn json_accessors() {
    let v = obj(vec![("a", JsonValue::Str(s("x"))), ("b", JsonValue::Null), ("a", JsonValue::Str(s("y")))]);
    assert_eq!(v.get_str("a"), Some("x"));
    assert_eq!(v.get_str("b"), None);
    assert!(v.get("b").is_some());
    assert!(v.get("c").is_none());
    assert!(JsonValue::Null.get("a").is_none());
    assert_eq!(JsonValue::Str(s("q")).as_str(), Some("q"));
    assert!(JsonValue::Array(vec![]).as_array().is_some());
    assert!(v.as_array().is_none());
}

#[test]
fn request_url_holds_credentials_and_port() {
    assert_eq!(
        request_url("admin", "pw", "192.168.88.1", 443, "rest/interface"),
        "https://admin:pw@192.168.88.1:443/rest/interface"
    );
    assert_eq!(request_url("", "", "h", 0, ""), "https://:@h:0/");
    assert_eq!(request_url("u", "p", "h", 65535, "x?y=1"), "https://u:p@h:65535/x?y=1");
}

#[test]
fn decimal_text_of_u64() {
    for n in [0u64, 9, 10, 99, 100, 12345, u64::MAX] {
        assert_eq!(decimal_text(n), n.to_string());
    }
}
