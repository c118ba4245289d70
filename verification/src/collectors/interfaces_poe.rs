//! Metrics of `/rest/interface/ethernet/poe/monitor`: PoE output state and readings.

use vstd::prelude::*;
use crate::json::JsonValue;
use crate::text::{decimal, decimal_text, same_text};
use crate::collectors::helpers::{
    contains_text, lemma_block_has_line, lemma_contains_within, metric_line,
    make_metric, make_metric_preamble, metric_block, member_metric, push_metric,
    push_member_metric,
};

verus! {

/// A metric with its preamble, unless the preamble is suppressed.
pub fn metrics(
    metric_prefix: &str,
    name: &str,
    value: &str,
    labels: &str,
    metric_type: &str,
    help: &str,
    unit: &str,
    supress_preamble: bool,
) -> (r: String)
    ensures
        r@ == metric_block(metric_prefix@, name@, value@, labels@, metric_type@, help@, unit@, supress_preamble),
{
    let mut ret = String::new();
    if !supress_preamble {
        let p = make_metric_preamble(metric_prefix, name, metric_type, help, unit);
        ret.append(p.as_str());
    }
    let m = make_metric(metric_prefix, name, labels, value);
    ret.append(m.as_str());
    ret
}

/// The code of a PoE output status, as the help text of
/// `interface_poe_status` lists them: 0 powered-on, 1 waiting-for-load,
/// 2 short-circuit, 3 overload, 4 voltage-too-low, 5 current-too-low, 6 off,
/// 254 disabled, 255 anything else.
#[verifier::opaque]
pub open spec fn status_code(status: Seq<char>) -> u8 {
    if status == "powered-on"@ {
        0
    } else if status == "waiting-for-load"@ {
        1
    } else if status == "short-circuit"@ {
        2
    } else if status == "overload"@ {
        3
    } else if status == "voltage-too-low"@ {
        4
    } else if status == "current-too-low"@ {
        5
    } else if status == "off"@ {
        6
    } else if status == "disabled"@ {
        254
    } else {
        255
    }
}

/// The code of a PoE output status.
pub fn poe_status(status: &str) -> (r: u8)
    ensures
        r == status_code(status@),
{
    proof {
        reveal(status_code);
    }
    if same_text(status, "powered-on") {
        0
    } else if same_text(status, "waiting-for-load") {
        1
    } else if same_text(status, "short-circuit") {
        2
    } else if same_text(status, "overload") {
        3
    } else if same_text(status, "voltage-too-low") {
        4
    } else if same_text(status, "current-too-low") {
        5
    } else if same_text(status, "off") {
        6
    } else if same_text(status, "disabled") {
        254
    } else {
        255
    }
}

/// What an interface of the PoE reply must hold: a `name` and a
/// `poe-out-status` as strings, and strings in the readings it reports.
pub open spec fn interface_ok(iface: JsonValue) -> bool {
    &&& iface.has_str("name"@)
    &&& iface.has_str("poe-out-status"@)
    &&& iface.str_or_absent("poe-out-voltage"@)
    &&& iface.str_or_absent("poe-out-current"@)
    &&& iface.str_or_absent("poe-out-power"@)
}

/// A PoE reply that is an array holds interfaces as `interface_ok` asks.
pub open spec fn reply_ok(reply: JsonValue) -> bool {
    reply.elements() matches Some(items) ==> forall|i: int|
        0 <= i < items.len() ==> interface_ok(#[trigger] items[i])
}

/// The help text of `interface_poe_status`.
pub open spec fn status_help() -> Seq<char> {
    "PoE Output Status. { 0: powered-on, 1: waiting-for-load, 2: short-circuit, 3: overload, 4: voltage-too-low, 5: current-too-low, 6: off, 254: disabled, 255: unknown }"@
}

/// The metrics of one PoE interface: its status code, then the voltage,
/// current and power that it reports.
#[verifier::opaque]
pub open spec fn interface_block(prefix: Seq<char>, iface: JsonValue, supress_preamble: bool) -> Seq<char> {
    let labels = interface_labels(iface);
    let s = supress_preamble;
    metric_block(prefix, "interface_poe_status"@, status_value(iface), labels, "gauge"@, status_help(), "Status"@, s)
        + member_metric(prefix, iface, "poe-out-voltage"@, "interface_poe_out_voltage"@, "PoE Output Voltage"@, "volts"@, "gauge"@, labels, s)
        + member_metric(prefix, iface, "poe-out-current"@, "interface_poe_out_current"@, "PoE Output Current"@, "amps"@, "gauge"@, labels, s)
        + member_metric(prefix, iface, "poe-out-power"@, "interface_poe_out_power"@, "PoE Output Power"@, "watts"@, "gauge"@, labels, s)
}

/// The blocks of the interfaces in order; only the first carries preambles.
pub open spec fn interface_blocks(prefix: Seq<char>, items: Seq<JsonValue>) -> Seq<char>
    decreases items.len(),
{
    if items.len() == 0 {
        Seq::empty()
    } else {
        interface_blocks(prefix, items.drop_last()) + interface_block(prefix, items.last(), items.len() > 1)
    }
}

/// The text of the whole reply: the interface blocks where it is an array,
/// nothing otherwise.
pub open spec fn reply_text(prefix: Seq<char>, reply: JsonValue) -> Seq<char> {
    match reply.elements() {
        Some(items) => interface_blocks(prefix, items),
        None => Seq::empty(),
    }
}

/// The labels of a PoE interface: its name.
pub open spec fn interface_labels(iface: JsonValue) -> Seq<char> {
    "interface=\""@ + iface.str_field("name"@).unwrap() + seq!['"']
}

/// The value of `interface_poe_status` for an interface.
pub open spec fn status_value(iface: JsonValue) -> Seq<char> {
    decimal(status_code(iface.str_field("poe-out-status"@).unwrap()) as nat)
}

/// The labels of a PoE interface.
fn labels_of(iface: &JsonValue) -> (r: String)
    requires
        interface_ok(*iface),
    ensures
        r@ == interface_labels(*iface),
{
    let mut labels = String::new();
    labels.append("interface=\"");
    match iface.get_str("name") {
        Some(n) => labels.append(n),
        None => {},
    }
    labels.push('"');
    labels
}

/// The value of `interface_poe_status` for an interface.
fn status_value_of(iface: &JsonValue) -> (r: String)
    requires
        interface_ok(*iface),
    ensures
        r@ == status_value(*iface),
{
    let code = match iface.get_str("poe-out-status") {
        Some(st) => poe_status(st),
        None => 255,
    };
    decimal_text(code as u64)
}

/// The metrics of one PoE interface.
pub fn interface_metrics(metric_prefix: &str, iface: &JsonValue, supress_preamble: bool) -> (r: String)
    requires
        interface_ok(*iface),
    ensures
        r@ == interface_block(metric_prefix@, *iface, supress_preamble),
{
    proof {
        reveal(interface_block);
    }
    let labels = labels_of(iface);
    let l = labels.as_str();
    let value = status_value_of(iface);
    let mut ret = String::new();
    push_metric(&mut ret, metric_prefix, "interface_poe_status", value.as_str(), l, "gauge",
        "PoE Output Status. { 0: powered-on, 1: waiting-for-load, 2: short-circuit, 3: overload, 4: voltage-too-low, 5: current-too-low, 6: off, 254: disabled, 255: unknown }",
        "Status", supress_preamble);
    push_member_metric(&mut ret, metric_prefix, iface, "poe-out-voltage", "interface_poe_out_voltage", "PoE Output Voltage", "volts", "gauge", l, supress_preamble);
    push_member_metric(&mut ret, metric_prefix, iface, "poe-out-current", "interface_poe_out_current", "PoE Output Current", "amps", "gauge", l, supress_preamble);
    push_member_metric(&mut ret, metric_prefix, iface, "poe-out-power", "interface_poe_out_power", "PoE Output Power", "watts", "gauge", l, supress_preamble);
    ret
}

/// The metrics of every interface in a PoE monitor reply; the preambles come
/// only with the first interface. Nothing for a reply that is not an array.
pub fn metrics_text(metric_prefix: &str, reply: &JsonValue) -> (r: String)
    requires
        reply_ok(*reply),
    ensures
        r@ == reply_text(metric_prefix@, *reply),
{
    let mut ret = String::new();
    match reply.as_array() {
        Some(items) => {
            let mut i: usize = 0;
            while i < items.len()
                invariant
                    reply.elements() == Some(items@),
                    reply_ok(*reply),
                    i <= items@.len(),
                    ret@ == interface_blocks(metric_prefix@, items@.take(i as int)),
                decreases items@.len() - i,
            {
                assert(reply.elements().unwrap() == items@);
                assert(interface_ok(items@[i as int]));
                let block = interface_metrics(metric_prefix, &items[i], i != 0);
                ret.append(block.as_str());
                assert(items@.take(i + 1).drop_last() == items@.take(i as int));
                i = i + 1;
            }
            assert(items@.take(items@.len() as int) == items@);
        },
        None => {},
    }
    ret
}

/// The blocks of the interfaces, all without preambles.
pub open spec fn plain_blocks(prefix: Seq<char>, items: Seq<JsonValue>) -> Seq<char>
    decreases items.len(),
{
    if items.len() == 0 {
        Seq::empty()
    } else {
        plain_blocks(prefix, items.drop_last()) + interface_block(prefix, items.last(), true)
    }
}

/// Only the first interface carries the preambles: the text is its full
/// block, then the blocks of the others without preambles.
pub proof fn lemma_preamble_only_first(prefix: Seq<char>, items: Seq<JsonValue>)
    requires
        items.len() > 0,
    ensures
        interface_blocks(prefix, items) == interface_block(prefix, items[0], false) + plain_blocks(prefix, items.skip(1)),
    decreases items.len(),
{
    if items.len() == 1 {
        assert(items.drop_last() =~= Seq::<JsonValue>::empty());
        assert(items.skip(1) =~= Seq::<JsonValue>::empty());
        assert(items.last() == items[0]);
        assert(interface_blocks(prefix, items.drop_last()) == Seq::<char>::empty());
        assert(Seq::<char>::empty() + interface_block(prefix, items[0], false) =~= interface_block(prefix, items[0], false) + Seq::<char>::empty());
    } else {
        lemma_preamble_only_first(prefix, items.drop_last());
        assert(items.skip(1).drop_last() =~= items.drop_last().skip(1));
        assert(items.skip(1).last() == items.last());
        assert(items.drop_last()[0] == items[0]);
        let a = interface_block(prefix, items[0], false);
        let b = plain_blocks(prefix, items.drop_last().skip(1));
        let c = interface_block(prefix, items.last(), true);
        assert(plain_blocks(prefix, items.skip(1)) == plain_blocks(prefix, items.skip(1).drop_last()) + interface_block(prefix, items.skip(1).last(), true));
        assert((a + b) + c =~= a + (b + c));
    }
}

/// Each status named in the help text of `interface_poe_status` gets the
/// code that the help text gives it, and every other status 255 (unknown).
pub proof fn lemma_status_codes(status: Seq<char>)
    ensures
        status == "powered-on"@ ==> status_code(status) == 0,
        status == "waiting-for-load"@ ==> status_code(status) == 1,
        status == "short-circuit"@ ==> status_code(status) == 2,
        status == "overload"@ ==> status_code(status) == 3,
        status == "voltage-too-low"@ ==> status_code(status) == 4,
        status == "current-too-low"@ ==> status_code(status) == 5,
        status == "off"@ ==> status_code(status) == 6,
        status == "disabled"@ ==> status_code(status) == 254,
        status != "powered-on"@ && status != "waiting-for-load"@ && status != "short-circuit"@
            && status != "overload"@ && status != "voltage-too-low"@ && status != "current-too-low"@
            && status != "off"@ && status != "disabled"@ ==> status_code(status) == 255,
{
    reveal(status_code);
    reveal_strlit("powered-on");
    reveal_strlit("waiting-for-load");
    reveal_strlit("short-circuit");
    reveal_strlit("overload");
    reveal_strlit("voltage-too-low");
    reveal_strlit("current-too-low");
    reveal_strlit("off");
    reveal_strlit("disabled");
    assert("powered-on"@.len() == 10);
    assert("waiting-for-load"@.len() == 16);
    assert("short-circuit"@.len() == 13);
    assert("overload"@.len() == 8);
    assert("voltage-too-low"@.len() == 15);
    assert("current-too-low"@.len() == 15);
    assert("off"@.len() == 3);
    assert("disabled"@.len() == 8);
    assert("overload"@[0] != "disabled"@[0]);
    assert("voltage-too-low"@[0] != "current-too-low"@[0]);
}

/// Does the interface hold what `interface_ok` asks?
pub fn interface_accepted(iface: &JsonValue) -> (r: bool)
    ensures
        r == interface_ok(*iface),
{
    iface.is_str("name") && iface.is_str("poe-out-status") && iface.is_str_or_absent("poe-out-voltage")
        && iface.is_str_or_absent("poe-out-current") && iface.is_str_or_absent("poe-out-power")
}

/// Is the reply as `reply_ok` asks?
pub fn reply_accepted(reply: &JsonValue) -> (r: bool)
    ensures
        r == reply_ok(*reply),
{
    match reply.as_array() {
        None => true,
        Some(items) => {
            let mut i: usize = 0;
            while i < items.len()
                invariant
                    reply.elements() == Some(items@),
                    i <= items@.len(),
                    forall|j: int| 0 <= j < i ==> interface_ok(#[trigger] items@[j]),
                decreases items@.len() - i,
            {
                if !interface_accepted(&items[i]) {
                    assert(reply.elements().unwrap()[i as int] == items@[i as int]);
                    assert(!interface_ok(reply.elements().unwrap()[i as int]));
                    return false;
                }
                i = i + 1;
            }
            true
        },
    }
}

/// Each PoE interface's text holds its status code in decimal, and a sample
/// of the voltage, current and power that it reports, each under its own
/// metric name and with the reported member's text as value.
pub proof fn lemma_interface_samples(prefix: Seq<char>, iface: JsonValue, supress_preamble: bool)
    ensures
        contains_text(interface_block(prefix, iface, supress_preamble), metric_line(prefix, "interface_poe_status"@, interface_labels(iface), decimal(status_code(iface.str_field("poe-out-status"@).unwrap()) as nat))),
        iface.field("poe-out-voltage"@) is Some ==> contains_text(interface_block(prefix, iface, supress_preamble), metric_line(prefix, "interface_poe_out_voltage"@, interface_labels(iface), iface.str_field("poe-out-voltage"@).unwrap())),
        iface.field("poe-out-current"@) is Some ==> contains_text(interface_block(prefix, iface, supress_preamble), metric_line(prefix, "interface_poe_out_current"@, interface_labels(iface), iface.str_field("poe-out-current"@).unwrap())),
        iface.field("poe-out-power"@) is Some ==> contains_text(interface_block(prefix, iface, supress_preamble), metric_line(prefix, "interface_poe_out_power"@, interface_labels(iface), iface.str_field("poe-out-power"@).unwrap())),
{
    reveal(interface_block);
    let labels = interface_labels(iface);
    let s = supress_preamble;
    let a0 = metric_block(prefix, "interface_poe_status"@, status_value(iface), labels, "gauge"@, status_help(), "Status"@, s);
    let a1 = member_metric(prefix, iface, "poe-out-voltage"@, "interface_poe_out_voltage"@, "PoE Output Voltage"@, "volts"@, "gauge"@, labels, s);
    let a2 = member_metric(prefix, iface, "poe-out-current"@, "interface_poe_out_current"@, "PoE Output Current"@, "amps"@, "gauge"@, labels, s);
    let a3 = member_metric(prefix, iface, "poe-out-power"@, "interface_poe_out_power"@, "PoE Output Power"@, "watts"@, "gauge"@, labels, s);
    assert(interface_block(prefix, iface, supress_preamble) == a0 + a1 + a2 + a3);
    lemma_block_has_line(prefix, "interface_poe_status"@, status_value(iface), labels, "gauge"@, status_help(), "Status"@, s);
    assert(a0 == metric_block(prefix, "interface_poe_status"@, status_value(iface), labels, "gauge"@, status_help(), "Status"@, s));
    lemma_contains_within(Seq::<char>::empty(), a0, a1 + a2 + a3, metric_line(prefix, "interface_poe_status"@, labels, status_value(iface)));
    assert(interface_block(prefix, iface, supress_preamble) =~= (Seq::<char>::empty()) + a0 + (a1 + a2 + a3));
    if iface.field("poe-out-voltage"@) is Some {
        lemma_block_has_line(prefix, "interface_poe_out_voltage"@, iface.str_field("poe-out-voltage"@).unwrap(), labels, "gauge"@, "PoE Output Voltage"@, "volts"@, s);
        assert(a1 == metric_block(prefix, "interface_poe_out_voltage"@, iface.str_field("poe-out-voltage"@).unwrap(), labels, "gauge"@, "PoE Output Voltage"@, "volts"@, s));
        lemma_contains_within(a0, a1, a2 + a3, metric_line(prefix, "interface_poe_out_voltage"@, labels, iface.str_field("poe-out-voltage"@).unwrap()));
        assert(interface_block(prefix, iface, supress_preamble) =~= (a0) + a1 + (a2 + a3));
    }
    if iface.field("poe-out-current"@) is Some {
        lemma_block_has_line(prefix, "interface_poe_out_current"@, iface.str_field("poe-out-current"@).unwrap(), labels, "gauge"@, "PoE Output Current"@, "amps"@, s);
        assert(a2 == metric_block(prefix, "interface_poe_out_current"@, iface.str_field("poe-out-current"@).unwrap(), labels, "gauge"@, "PoE Output Current"@, "amps"@, s));
        lemma_contains_within(a0 + a1, a2, a3, metric_line(prefix, "interface_poe_out_current"@, labels, iface.str_field("poe-out-current"@).unwrap()));
        assert(interface_block(prefix, iface, supress_preamble) =~= (a0 + a1) + a2 + (a3));
    }
    if iface.field("poe-out-power"@) is Some {
        lemma_block_has_line(prefix, "interface_poe_out_power"@, iface.str_field("poe-out-power"@).unwrap(), labels, "gauge"@, "PoE Output Power"@, "watts"@, s);
        assert(a3 == metric_block(prefix, "interface_poe_out_power"@, iface.str_field("poe-out-power"@).unwrap(), labels, "gauge"@, "PoE Output Power"@, "watts"@, s));
        lemma_contains_within(a0 + a1 + a2, a3, Seq::<char>::empty(), metric_line(prefix, "interface_poe_out_power"@, labels, iface.str_field("poe-out-power"@).unwrap()));
        assert(interface_block(prefix, iface, supress_preamble) =~= (a0 + a1 + a2) + a3 + (Seq::<char>::empty()));
    }
}

} // verus!
