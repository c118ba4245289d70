//! Metrics of `/rest/interface`: one block per interface.

use vstd::prelude::*;
use crate::json::JsonValue;
use crate::text::{replaced, replace_char, same_text};
use crate::collectors::helpers::{
    contains_text, lemma_block_has_line, lemma_contains_within, lemma_contains_in_sum11, metric_line,
    make_metric, make_metric_preamble, metric_block, member_metric, push_metric,
    push_member_metric,
};

verus! {

/// A metric with its preamble, unless the preamble is suppressed.
pub fn metrics(
    metric_prefix: &str,
    name: &str,
    value: &str,
    labels: &str,
    metric_type: &str,
    help: &str,
    unit: &str,
    supress_preamble: bool,
) -> (r: String)
    ensures
        r@ == metric_block(metric_prefix@, name@, value@, labels@, metric_type@, help@, unit@, supress_preamble),
{
    let mut ret = String::new();
    if !supress_preamble {
        let p = make_metric_preamble(metric_prefix, name, metric_type, help, unit);
        ret.append(p.as_str());
    }
    let m = make_metric(metric_prefix, name, labels, value);
    ret.append(m.as_str());
    ret
}

/// What an interface of the reply must hold: a `name` and a `running` flag
/// as strings, and strings in every member that is read as text.
pub open spec fn interface_ok(iface: JsonValue) -> bool {
    &&& iface.has_str("name"@)
    &&& iface.has_str("running"@)
    &&& iface.str_or_absent("mac-address"@)
    &&& iface.str_or_absent("type"@)
    &&& iface.str_or_absent("comment"@)
    &&& iface.str_or_absent("actual-mtu"@)
    &&& iface.str_or_absent("l2mtu"@)
    &&& iface.str_or_absent("tx-queue-drop"@)
    &&& iface.str_or_absent("link-downs"@)
    &&& iface.str_or_absent("fp-rx-byte"@)
    &&& iface.str_or_absent("fp-tx-byte"@)
    &&& iface.str_or_absent("tx-byte"@)
    &&& iface.str_or_absent("rx-byte"@)
    &&& iface.str_or_absent("mtu"@)
}

/// The reply is an array of interfaces, each as `interface_ok` asks.
pub open spec fn reply_ok(reply: JsonValue) -> bool {
    &&& reply.elements() is Some
    &&& forall|i: int|
        0 <= i < reply.elements().unwrap().len() ==> interface_ok(#[trigger] reply.elements().unwrap()[i])
}

/// The MAC label: absent for a missing or all-zero address.
pub open spec fn mac_label(iface: JsonValue) -> Seq<char> {
    if iface.field("mac-address"@) is Some {
        let mac = iface.str_field("mac-address"@).unwrap();
        if mac == "00:00:00:00:00:00"@ {
            Seq::empty()
        } else {
            ",mac_address=\""@ + mac + seq!['"']
        }
    } else {
        Seq::empty()
    }
}

/// The type label, where the interface has a type.
pub open spec fn type_label(iface: JsonValue) -> Seq<char> {
    if iface.field("type"@) is Some {
        ",type=\""@ + iface.str_field("type"@).unwrap() + seq!['"']
    } else {
        Seq::empty()
    }
}

/// The slave label, where the interface has a `slave` member (whatever it holds).
pub open spec fn slave_label(iface: JsonValue) -> Seq<char> {
    if iface.field("slave"@) is Some {
        ",slave=\"true\""@
    } else {
        Seq::empty()
    }
}

/// The comment label: the comment with every `"` turned into `_`, left out
/// when that is empty.
pub open spec fn comment_label(iface: JsonValue) -> Seq<char> {
    if iface.field("comment"@) is Some {
        let c = replaced(iface.str_field("comment"@).unwrap(), '"', '_');
        if c.len() == 0 {
            Seq::empty()
        } else {
            ",comment=\""@ + c + seq!['"']
        }
    } else {
        Seq::empty()
    }
}

/// The labels of an interface: its name, then MAC address, type, slave flag
/// and comment where they apply.
pub open spec fn interface_labels(iface: JsonValue) -> Seq<char> {
    "interface=\""@ + iface.str_field("name"@).unwrap() + seq!['"'] + mac_label(iface)
        + type_label(iface) + slave_label(iface) + comment_label(iface)
}

/// The value of `interface_running`: `1` when `running` is `true`, else `0`.
pub open spec fn running_value(iface: JsonValue) -> Seq<char> {
    if iface.str_field("running"@) == Some("true"@) {
        "1"@
    } else {
        "0"@
    }
}

/// The value of `interface_mtu`: `65534` for `auto`, else the configured MTU.
pub open spec fn mtu_value(iface: JsonValue) -> Seq<char> {
    if iface.str_field("mtu"@) == Some("auto"@) {
        "65534"@
    } else {
        iface.str_field("mtu"@).unwrap()
    }
}

/// The metrics of one interface, in this order: running state, the eight
/// counters and sizes that it reports, the member `none` (a metric with an
/// empty name, where the interface has such a member), and the configured MTU. With
/// `supress_preamble`, no `# HELP`/`# TYPE`/`# UNIT` lines.
#[verifier::opaque]
pub open spec fn interface_block(prefix: Seq<char>, iface: JsonValue, supress_preamble: bool) -> Seq<char> {
    let labels = interface_labels(iface);
    let s = supress_preamble;
    metric_block(prefix, "interface_running"@, running_value(iface), labels, "gauge"@, "Status"@, "Boolean"@, s)
        + member_metric(prefix, iface, "actual-mtu"@, "interface_actual_mtu"@, "Interface Actual MTU"@, "bytes"@, "gauge"@, labels, s)
        + member_metric(prefix, iface, "l2mtu"@, "interface_l2_mtu"@, "Interface Layer2 MTU"@, "bytes"@, "gauge"@, labels, s)
        + member_metric(prefix, iface, "tx-queue-drop"@, "interface_tx_queue_drop_total"@, "Interface Drops on TX Queue"@, "frames"@, "counter"@, labels, s)
        + member_metric(prefix, iface, "link-downs"@, "interface_link_downs_total"@, "Interface Link Downs"@, "downs"@, "counter"@, labels, s)
        + member_metric(prefix, iface, "fp-rx-byte"@, "interface_fp_rx_byte_total"@, "Interface Fastpath RX Byte"@, "bytes"@, "counter"@, labels, s)
        + member_metric(prefix, iface, "fp-tx-byte"@, "interface_fp_tx_byte_total"@, "Interface Fastpath TX Byte"@, "bytes"@, "counter"@, labels, s)
        + member_metric(prefix, iface, "tx-byte"@, "interface_tx_byte_total"@, "Interface TX Byte"@, "bytes"@, "counter"@, labels, s)
        + member_metric(prefix, iface, "rx-byte"@, "interface_rx_byte_total"@, "Interface RX Byte"@, "bytes"@, "counter"@, labels, s)
        + (if iface.field("none"@) is Some {
            metric_block(prefix, ""@, ""@, labels, ""@, ""@, ""@, s)
        } else {
            Seq::empty()
        })
        + (if iface.field("mtu"@) is Some {
            metric_block(prefix, "interface_mtu"@, mtu_value(iface), labels, "gauge"@, "Interface configured MTU"@, "bytes"@, s)
        } else {
            Seq::empty()
        })
}

/// The blocks of the interfaces in order; only the first carries preambles.
pub open spec fn interface_blocks(prefix: Seq<char>, items: Seq<JsonValue>) -> Seq<char>
    decreases items.len(),
{
    if items.len() == 0 {
        Seq::empty()
    } else {
        interface_blocks(prefix, items.drop_last()) + interface_block(prefix, items.last(), items.len() > 1)
    }
}

/// The labels of an interface.
pub fn labels_of(iface: &JsonValue) -> (r: String)
    requires
        interface_ok(*iface),
    ensures
        r@ == interface_labels(*iface),
{
    let mut labels = String::new();
    labels.append("interface=\"");
    match iface.get_str("name") {
        Some(n) => labels.append(n),
        None => {},
    }
    labels.push('"');
    match iface.get("mac-address") {
        Some(_) => {
            match iface.get_str("mac-address") {
                Some(mac) => {
                    if !same_text(mac, "00:00:00:00:00:00") {
                        labels.append(",mac_address=\"");
                        labels.append(mac);
                        labels.push('"');
                    }
                },
                None => {},
            }
        },
        None => {},
    }
    match iface.get("type") {
        Some(_) => {
            match iface.get_str("type") {
                Some(t) => {
                    labels.append(",type=\"");
                    labels.append(t);
                    labels.push('"');
                },
                None => {},
            }
        },
        None => {},
    }
    match iface.get("slave") {
        Some(_) => {
            labels.append(",slave=\"true\"");
        },
        None => {},
    }
    match iface.get("comment") {
        Some(_) => {
            match iface.get_str("comment") {
                Some(c) => {
                    let comment = replace_char(c, '"', '_');
                    if !comment.as_str().is_empty() {
                        labels.append(",comment=\"");
                        labels.append(comment.as_str());
                        labels.push('"');
                    }
                },
                None => {},
            }
        },
        None => {},
    }
    labels
}

/// The metrics of one interface.
pub fn interface_metrics(metric_prefix: &str, iface: &JsonValue, supress_preamble: bool) -> (r: String)
    requires
        interface_ok(*iface),
    ensures
        r@ == interface_block(metric_prefix@, *iface, supress_preamble),
{
    proof {
        reveal(interface_block);
    }
    let labels = labels_of(iface);
    let l = labels.as_str();
    let running = match iface.get_str("running") {
        Some(t) => same_text(t, "true"),
        None => false,
    };
    let mut ret = String::new();
    push_metric(&mut ret, metric_prefix, "interface_running", if running { "1" } else { "0" }, l, "gauge", "Status", "Boolean", supress_preamble);
    push_member_metric(&mut ret, metric_prefix, iface, "actual-mtu", "interface_actual_mtu", "Interface Actual MTU", "bytes", "gauge", l, supress_preamble);
    push_member_metric(&mut ret, metric_prefix, iface, "l2mtu", "interface_l2_mtu", "Interface Layer2 MTU", "bytes", "gauge", l, supress_preamble);
    push_member_metric(&mut ret, metric_prefix, iface, "tx-queue-drop", "interface_tx_queue_drop_total", "Interface Drops on TX Queue", "frames", "counter", l, supress_preamble);
    push_member_metric(&mut ret, metric_prefix, iface, "link-downs", "interface_link_downs_total", "Interface Link Downs", "downs", "counter", l, supress_preamble);
    push_member_metric(&mut ret, metric_prefix, iface, "fp-rx-byte", "interface_fp_rx_byte_total", "Interface Fastpath RX Byte", "bytes", "counter", l, supress_preamble);
    push_member_metric(&mut ret, metric_prefix, iface, "fp-tx-byte", "interface_fp_tx_byte_total", "Interface Fastpath TX Byte", "bytes", "counter", l, supress_preamble);
    push_member_metric(&mut ret, metric_prefix, iface, "tx-byte", "interface_tx_byte_total", "Interface TX Byte", "bytes", "counter", l, supress_preamble);
    push_member_metric(&mut ret, metric_prefix, iface, "rx-byte", "interface_rx_byte_total", "Interface RX Byte", "bytes", "counter", l, supress_preamble);
    let ghost before_mapped = ret@;
    match iface.get("none") {
        Some(_) => {
            push_metric(&mut ret, metric_prefix, "", "", l, "", "", "", supress_preamble);
        },
        None => {
            assert(ret@ == before_mapped + Seq::<char>::empty());
        },
    }
    let ghost before_mtu = ret@;
    match iface.get("mtu") {
        Some(_) => {
            let value = match iface.get_str("mtu") {
                Some(m) => if same_text(m, "auto") { "65534" } else { m },
                None => "",
            };
            push_metric(&mut ret, metric_prefix, "interface_mtu", value, l, "gauge", "Interface configured MTU", "bytes", supress_preamble);
        },
        None => {
            assert(ret@ == before_mtu + Seq::<char>::empty());
        },
    }
    ret
}

/// The metrics of every interface in a `/rest/interface` reply; the
/// preambles come only with the first interface.
pub fn metrics_text(metric_prefix: &str, reply: &JsonValue) -> (r: String)
    requires
        reply_ok(*reply),
    ensures
        r@ == interface_blocks(metric_prefix@, reply.elements().unwrap()),
{
    let mut ret = String::new();
    match reply.as_array() {
        Some(items) => {
            let mut i: usize = 0;
            while i < items.len()
                invariant
                    reply.elements() == Some(items@),
                    reply_ok(*reply),
                    i <= items@.len(),
                    ret@ == interface_blocks(metric_prefix@, items@.take(i as int)),
                decreases items@.len() - i,
            {
                assert(interface_ok(reply.elements().unwrap()[i as int]));
                let block = interface_metrics(metric_prefix, &items[i], i != 0);
                ret.append(block.as_str());
                assert(items@.take(i + 1).drop_last() == items@.take(i as int));
                i = i + 1;
            }
            assert(items@.take(items@.len() as int) == items@);
        },
        None => {},
    }
    ret
}

/// The blocks of the interfaces, all without preambles.
pub open spec fn plain_blocks(prefix: Seq<char>, items: Seq<JsonValue>) -> Seq<char>
    decreases items.len(),
{
    if items.len() == 0 {
        Seq::empty()
    } else {
        plain_blocks(prefix, items.drop_last()) + interface_block(prefix, items.last(), true)
    }
}

/// Only the first interface carries the preambles: the text is its full
/// block, then the blocks of the others without preambles.
pub proof fn lemma_preamble_only_first(prefix: Seq<char>, items: Seq<JsonValue>)
    requires
        items.len() > 0,
    ensures
        interface_blocks(prefix, items) == interface_block(prefix, items[0], false) + plain_blocks(prefix, items.skip(1)),
    decreases items.len(),
{
    if items.len() == 1 {
        assert(items.drop_last() =~= Seq::<JsonValue>::empty());
        assert(items.skip(1) =~= Seq::<JsonValue>::empty());
        assert(items.last() == items[0]);
        assert(interface_blocks(prefix, items.drop_last()) == Seq::<char>::empty());
        assert(Seq::<char>::empty() + interface_block(prefix, items[0], false) =~= interface_block(prefix, items[0], false) + Seq::<char>::empty());
    } else {
        lemma_preamble_only_first(prefix, items.drop_last());
        assert(items.skip(1).drop_last() =~= items.drop_last().skip(1));
        assert(items.skip(1).last() == items.last());
        assert(items.drop_last()[0] == items[0]);
        let a = interface_block(prefix, items[0], false);
        let b = plain_blocks(prefix, items.drop_last().skip(1));
        let c = interface_block(prefix, items.last(), true);
        assert(plain_blocks(prefix, items.skip(1)) == plain_blocks(prefix, items.skip(1).drop_last()) + interface_block(prefix, items.skip(1).last(), true));
        assert((a + b) + c =~= a + (b + c));
    }
}

/// The comment label never carries a `"` in its value: every `"` of the
/// comment is turned into `_`.
pub proof fn lemma_comment_has_no_quote(comment: Seq<char>)
    ensures
        forall|i: int| 0 <= i < comment.len() ==> #[trigger] replaced(comment, '"', '_')[i] != '"',
{
}

/// An all-zero MAC address gives no MAC label.
pub proof fn lemma_zero_mac_has_no_label(iface: JsonValue)
    requires
        iface.str_field("mac-address"@) == Some("00:00:00:00:00:00"@),
    ensures
        mac_label(iface) == Seq::<char>::empty(),
{
}

/// Does the interface hold what `interface_ok` asks?
pub fn interface_accepted(iface: &JsonValue) -> (r: bool)
    ensures
        r == interface_ok(*iface),
{
    iface.is_str("name") && iface.is_str("running") && iface.is_str_or_absent("mac-address")
        && iface.is_str_or_absent("type") && iface.is_str_or_absent("comment")
        && iface.is_str_or_absent("actual-mtu") && iface.is_str_or_absent("l2mtu")
        && iface.is_str_or_absent("tx-queue-drop") && iface.is_str_or_absent("link-downs")
        && iface.is_str_or_absent("fp-rx-byte") && iface.is_str_or_absent("fp-tx-byte")
        && iface.is_str_or_absent("tx-byte") && iface.is_str_or_absent("rx-byte")
        && iface.is_str_or_absent("mtu")
}

/// Is the reply as `reply_ok` asks?
pub fn reply_accepted(reply: &JsonValue) -> (r: bool)
    ensures
        r == reply_ok(*reply),
{
    match reply.as_array() {
        None => false,
        Some(items) => {
            let mut i: usize = 0;
            while i < items.len()
                invariant
                    reply.elements() == Some(items@),
                    i <= items@.len(),
                    forall|j: int| 0 <= j < i ==> interface_ok(#[trigger] items@[j]),
                decreases items@.len() - i,
            {
                if !interface_accepted(&items[i]) {
                    assert(reply.elements().unwrap()[i as int] == items@[i as int]);
                    assert(!interface_ok(reply.elements().unwrap()[i as int]));
                    return false;
                }
                i = i + 1;
            }
            true
        },
    }
}

/// Each interface's text holds its samples, each under its own metric name
/// and with the value of the member it reports: `interface_running` is `1`
/// exactly when `running` is `true` (else `0`), each counter or size that the
/// interface reports has a sample with that member's text, and `interface_mtu`
/// is `65534` for an `auto` MTU and the configured MTU otherwise.
#[verifier::spinoff_prover]
#[verifier::rlimit(50)]
pub proof fn lemma_interface_samples(prefix: Seq<char>, iface: JsonValue, supress_preamble: bool)
    ensures
        contains_text(interface_block(prefix, iface, supress_preamble), metric_line(prefix, "interface_running"@, interface_labels(iface), if iface.str_field("running"@) == Some("true"@) { "1"@ } else { "0"@ })),
        iface.field("actual-mtu"@) is Some ==> contains_text(interface_block(prefix, iface, supress_preamble), metric_line(prefix, "interface_actual_mtu"@, interface_labels(iface), iface.str_field("actual-mtu"@).unwrap())),
        iface.field("l2mtu"@) is Some ==> contains_text(interface_block(prefix, iface, supress_preamble), metric_line(prefix, "interface_l2_mtu"@, interface_labels(iface), iface.str_field("l2mtu"@).unwrap())),
        iface.field("tx-queue-drop"@) is Some ==> contains_text(interface_block(prefix, iface, supress_preamble), metric_line(prefix, "interface_tx_queue_drop_total"@, interface_labels(iface), iface.str_field("tx-queue-drop"@).unwrap())),
        iface.field("link-downs"@) is Some ==> contains_text(interface_block(prefix, iface, supress_preamble), metric_line(prefix, "interface_link_downs_total"@, interface_labels(iface), iface.str_field("link-downs"@).unwrap())),
        iface.field("fp-rx-byte"@) is Some ==> contains_text(interface_block(prefix, iface, supress_preamble), metric_line(prefix, "interface_fp_rx_byte_total"@, interface_labels(iface), iface.str_field("fp-rx-byte"@).unwrap())),
        iface.field("fp-tx-byte"@) is Some ==> contains_text(interface_block(prefix, iface, supress_preamble), metric_line(prefix, "interface_fp_tx_byte_total"@, interface_labels(iface), iface.str_field("fp-tx-byte"@).unwrap())),
        iface.field("tx-byte"@) is Some ==> contains_text(interface_block(prefix, iface, supress_preamble), metric_line(prefix, "interface_tx_byte_total"@, interface_labels(iface), iface.str_field("tx-byte"@).unwrap())),
        iface.field("rx-byte"@) is Some ==> contains_text(interface_block(prefix, iface, supress_preamble), metric_line(prefix, "interface_rx_byte_total"@, interface_labels(iface), iface.str_field("rx-byte"@).unwrap())),
        iface.field("mtu"@) is Some ==> contains_text(interface_block(prefix, iface, supress_preamble), metric_line(prefix, "interface_mtu"@, interface_labels(iface), if iface.str_field("mtu"@) == Some("auto"@) { "65534"@ } else { iface.str_field("mtu"@).unwrap() })),
{
    reveal(interface_block);
    let labels = interface_labels(iface);
    let s = supress_preamble;
    let a0 = metric_block(prefix, "interface_running"@, running_value(iface), labels, "gauge"@, "Status"@, "Boolean"@, s);
    let a1 = member_metric(prefix, iface, "actual-mtu"@, "interface_actual_mtu"@, "Interface Actual MTU"@, "bytes"@, "gauge"@, labels, s);
    let a2 = member_metric(prefix, iface, "l2mtu"@, "interface_l2_mtu"@, "Interface Layer2 MTU"@, "bytes"@, "gauge"@, labels, s);
    let a3 = member_metric(prefix, iface, "tx-queue-drop"@, "interface_tx_queue_drop_total"@, "Interface Drops on TX Queue"@, "frames"@, "counter"@, labels, s);
    let a4 = member_metric(prefix, iface, "link-downs"@, "interface_link_downs_total"@, "Interface Link Downs"@, "downs"@, "counter"@, labels, s);
    let a5 = member_metric(prefix, iface, "fp-rx-byte"@, "interface_fp_rx_byte_total"@, "Interface Fastpath RX Byte"@, "bytes"@, "counter"@, labels, s);
    let a6 = member_metric(prefix, iface, "fp-tx-byte"@, "interface_fp_tx_byte_total"@, "Interface Fastpath TX Byte"@, "bytes"@, "counter"@, labels, s);
    let a7 = member_metric(prefix, iface, "tx-byte"@, "interface_tx_byte_total"@, "Interface TX Byte"@, "bytes"@, "counter"@, labels, s);
    let a8 = member_metric(prefix, iface, "rx-byte"@, "interface_rx_byte_total"@, "Interface RX Byte"@, "bytes"@, "counter"@, labels, s);
    let a9 = (if iface.field("none"@) is Some {
        metric_block(prefix, ""@, ""@, labels, ""@, ""@, ""@, s)
    } else {
        Seq::empty()
    });
    let a10 = (if iface.field("mtu"@) is Some {
        metric_block(prefix, "interface_mtu"@, mtu_value(iface), labels, "gauge"@, "Interface configured MTU"@, "bytes"@, s)
    } else {
        Seq::empty()
    });
    assert(interface_block(prefix, iface, supress_preamble) == a0 + a1 + a2 + a3 + a4 + a5 + a6 + a7 + a8 + a9 + a10);
    lemma_block_has_line(prefix, "interface_running"@, running_value(iface), labels, "gauge"@, "Status"@, "Boolean"@, s);
    assert(a0 == metric_block(prefix, "interface_running"@, running_value(iface), labels, "gauge"@, "Status"@, "Boolean"@, s));
    lemma_contains_in_sum11(a0, a1, a2, a3, a4, a5, a6, a7, a8, a9, a10, metric_line(prefix, "interface_running"@, labels, running_value(iface)));
    assert(iface.field("actual-mtu"@) is Some ==> contains_text(interface_block(prefix, iface, supress_preamble), metric_line(prefix, "interface_actual_mtu"@, labels, iface.str_field("actual-mtu"@).unwrap()))) by {
        if iface.field("actual-mtu"@) is Some {
            lemma_block_has_line(prefix, "interface_actual_mtu"@, iface.str_field("actual-mtu"@).unwrap(), labels, "gauge"@, "Interface Actual MTU"@, "bytes"@, s);
            assert(a1 == metric_block(prefix, "interface_actual_mtu"@, iface.str_field("actual-mtu"@).unwrap(), labels, "gauge"@, "Interface Actual MTU"@, "bytes"@, s));
            lemma_contains_in_sum11(a0, a1, a2, a3, a4, a5, a6, a7, a8, a9, a10, metric_line(prefix, "interface_actual_mtu"@, labels, iface.str_field("actual-mtu"@).unwrap()));
        }
    }
    assert(iface.field("l2mtu"@) is Some ==> contains_text(interface_block(prefix, iface, supress_preamble), metric_line(prefix, "interface_l2_mtu"@, labels, iface.str_field("l2mtu"@).unwrap()))) by {
        if iface.field("l2mtu"@) is Some {
            lemma_block_has_line(prefix, "interface_l2_mtu"@, iface.str_field("l2mtu"@).unwrap(), labels, "gauge"@, "Interface Layer2 MTU"@, "bytes"@, s);
            assert(a2 == metric_block(prefix, "interface_l2_mtu"@, iface.str_field("l2mtu"@).unwrap(), labels, "gauge"@, "Interface Layer2 MTU"@, "bytes"@, s));
            lemma_contains_in_sum11(a0, a1, a2, a3, a4, a5, a6, a7, a8, a9, a10, metric_line(prefix, "interface_l2_mtu"@, labels, iface.str_field("l2mtu"@).unwrap()));
        }
    }
    assert(iface.field("tx-queue-drop"@) is Some ==> contains_text(interface_block(prefix, iface, supress_preamble), metric_line(prefix, "interface_tx_queue_drop_total"@, labels, iface.str_field("tx-queue-drop"@).unwrap()))) by {
        if iface.field("tx-queue-drop"@) is Some {
            lemma_block_has_line(prefix, "interface_tx_queue_drop_total"@, iface.str_field("tx-queue-drop"@).unwrap(), labels, "counter"@, "Interface Drops on TX Queue"@, "frames"@, s);
            assert(a3 == metric_block(prefix, "interface_tx_queue_drop_total"@, iface.str_field("tx-queue-drop"@).unwrap(), labels, "counter"@, "Interface Drops on TX Queue"@, "frames"@, s));
            lemma_contains_in_sum11(a0, a1, a2, a3, a4, a5, a6, a7, a8, a9, a10, metric_line(prefix, "interface_tx_queue_drop_total"@, labels, iface.str_field("tx-queue-drop"@).unwrap()));
        }
    }
    assert(iface.field("link-downs"@) is Some ==> contains_text(interface_block(prefix, iface, supress_preamble), metric_line(prefix, "interface_link_downs_total"@, labels, iface.str_field("link-downs"@).unwrap()))) by {
        if iface.field("link-downs"@) is Some {
            lemma_block_has_line(prefix, "interface_link_downs_total"@, iface.str_field("link-downs"@).unwrap(), labels, "counter"@, "Interface Link Downs"@, "downs"@, s);
            assert(a4 == metric_block(prefix, "interface_link_downs_total"@, iface.str_field("link-downs"@).unwrap(), labels, "counter"@, "Interface Link Downs"@, "downs"@, s));
            lemma_contains_in_sum11(a0, a1, a2, a3, a4, a5, a6, a7, a8, a9, a10, metric_line(prefix, "interface_link_downs_total"@, labels, iface.str_field("link-downs"@).unwrap()));
        }
    }
    assert(iface.field("fp-rx-byte"@) is Some ==> contains_text(interface_block(prefix, iface, supress_preamble), metric_line(prefix, "interface_fp_rx_byte_total"@, labels, iface.str_field("fp-rx-byte"@).unwrap()))) by {
        if iface.field("fp-rx-byte"@) is Some {
            lemma_block_has_line(prefix, "interface_fp_rx_byte_total"@, iface.str_field("fp-rx-byte"@).unwrap(), labels, "counter"@, "Interface Fastpath RX Byte"@, "bytes"@, s);
            assert(a5 == metric_block(prefix, "interface_fp_rx_byte_total"@, iface.str_field("fp-rx-byte"@).unwrap(), labels, "counter"@, "Interface Fastpath RX Byte"@, "bytes"@, s));
            lemma_contains_in_sum11(a0, a1, a2, a3, a4, a5, a6, a7, a8, a9, a10, metric_line(prefix, "interface_fp_rx_byte_total"@, labels, iface.str_field("fp-rx-byte"@).unwrap()));
        }
    }
    assert(iface.field("fp-tx-byte"@) is Some ==> contains_text(interface_block(prefix, iface, supress_preamble), metric_line(prefix, "interface_fp_tx_byte_total"@, labels, iface.str_field("fp-tx-byte"@).unwrap()))) by {
        if iface.field("fp-tx-byte"@) is Some {
            lemma_block_has_line(prefix, "interface_fp_tx_byte_total"@, iface.str_field("fp-tx-byte"@).unwrap(), labels, "counter"@, "Interface Fastpath TX Byte"@, "bytes"@, s);
            assert(a6 == metric_block(prefix, "interface_fp_tx_byte_total"@, iface.str_field("fp-tx-byte"@).unwrap(), labels, "counter"@, "Interface Fastpath TX Byte"@, "bytes"@, s));
            lemma_contains_in_sum11(a0, a1, a2, a3, a4, a5, a6, a7, a8, a9, a10, metric_line(prefix, "interface_fp_tx_byte_total"@, labels, iface.str_field("fp-tx-byte"@).unwrap()));
        }
    }
    assert(iface.field("tx-byte"@) is Some ==> contains_text(interface_block(prefix, iface, supress_preamble), metric_line(prefix, "interface_tx_byte_total"@, labels, iface.str_field("tx-byte"@).unwrap()))) by {
        if iface.field("tx-byte"@) is Some {
            lemma_block_has_line(prefix, "interface_tx_byte_total"@, iface.str_field("tx-byte"@).unwrap(), labels, "counter"@, "Interface TX Byte"@, "bytes"@, s);
            assert(a7 == metric_block(prefix, "interface_tx_byte_total"@, iface.str_field("tx-byte"@).unwrap(), labels, "counter"@, "Interface TX Byte"@, "bytes"@, s));
            lemma_contains_in_sum11(a0, a1, a2, a3, a4, a5, a6, a7, a8, a9, a10, metric_line(prefix, "interface_tx_byte_total"@, labels, iface.str_field("tx-byte"@).unwrap()));
        }
    }
    assert(iface.field("rx-byte"@) is Some ==> contains_text(interface_block(prefix, iface, supress_preamble), metric_line(prefix, "interface_rx_byte_total"@, labels, iface.str_field("rx-byte"@).unwrap()))) by {
        if iface.field("rx-byte"@) is Some {
            lemma_block_has_line(prefix, "interface_rx_byte_total"@, iface.str_field("rx-byte"@).unwrap(), labels, "counter"@, "Interface RX Byte"@, "bytes"@, s);
            assert(a8 == metric_block(prefix, "interface_rx_byte_total"@, iface.str_field("rx-byte"@).unwrap(), labels, "counter"@, "Interface RX Byte"@, "bytes"@, s));
            lemma_contains_in_sum11(a0, a1, a2, a3, a4, a5, a6, a7, a8, a9, a10, metric_line(prefix, "interface_rx_byte_total"@, labels, iface.str_field("rx-byte"@).unwrap()));
        }
    }
    assert(iface.field("mtu"@) is Some ==> contains_text(interface_block(prefix, iface, supress_preamble), metric_line(prefix, "interface_mtu"@, labels, mtu_value(iface)))) by {
        if iface.field("mtu"@) is Some {
            lemma_block_has_line(prefix, "interface_mtu"@, mtu_value(iface), labels, "gauge"@, "Interface configured MTU"@, "bytes"@, s);
            assert(a10 == metric_block(prefix, "interface_mtu"@, mtu_value(iface), labels, "gauge"@, "Interface configured MTU"@, "bytes"@, s));
            lemma_contains_in_sum11(a0, a1, a2, a3, a4, a5, a6, a7, a8, a9, a10, metric_line(prefix, "interface_mtu"@, labels, mtu_value(iface)));
        }
    }
}

/// The labels of an interface, written out: its name; its MAC address unless
/// it has none or an all-zero one; its type whenever it has one, whatever its
/// MAC address; `slave="true"` whenever it has a `slave` member; and its
/// comment, with each `"` turned into `_`, unless that leaves it empty.
pub proof fn lemma_interface_labels_text(iface: JsonValue)
    ensures
        interface_labels(iface) == "interface=\""@ + iface.str_field("name"@).unwrap() + seq!['"']
            + (if iface.field("mac-address"@) is Some && iface.str_field("mac-address"@).unwrap() != "00:00:00:00:00:00"@ {
                ",mac_address=\""@ + iface.str_field("mac-address"@).unwrap() + seq!['"']
            } else {
                Seq::empty()
            })
            + (if iface.field("type"@) is Some {
                ",type=\""@ + iface.str_field("type"@).unwrap() + seq!['"']
            } else {
                Seq::empty()
            })
            + (if iface.field("slave"@) is Some { ",slave=\"true\""@ } else { Seq::empty() })
            + (if iface.field("comment"@) is Some && replaced(iface.str_field("comment"@).unwrap(), '"', '_').len() > 0 {
                ",comment=\""@ + replaced(iface.str_field("comment"@).unwrap(), '"', '_') + seq!['"']
            } else {
                Seq::empty()
            }),
{
}

} // verus!
