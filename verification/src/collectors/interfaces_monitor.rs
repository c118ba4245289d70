//! Metrics of `/rest/interface/ethernet/monitor`: SFP readings and link rate.

use vstd::prelude::*;
use crate::json::JsonValue;
use crate::text::same_text;
use crate::collectors::helpers::{
    contains_text, lemma_block_has_line, lemma_contains_within, lemma_contains_in_sum7, metric_line,
    make_metric, make_metric_preamble, metric_block, member_metric, push_metric,
    push_member_metric,
};

verus! {

/// A metric with its preamble, unless the preamble is suppressed.
pub fn metrics(
    metric_prefix: &str,
    name: &str,
    value: &str,
    labels: &str,
    metric_type: &str,
    help: &str,
    unit: &str,
    supress_preamble: bool,
) -> (r: String)
    ensures
        r@ == metric_block(metric_prefix@, name@, value@, labels@, metric_type@, help@, unit@, supress_preamble),
{
    let mut ret = String::new();
    if !supress_preamble {
        let p = make_metric_preamble(metric_prefix, name, metric_type, help, unit);
        ret.append(p.as_str());
    }
    let m = make_metric(metric_prefix, name, labels, value);
    ret.append(m.as_str());
    ret
}

/// What an interface of the monitor reply must hold: a `name` string, and
/// strings in every member that is read as text.
pub open spec fn interface_ok(iface: JsonValue) -> bool {
    &&& iface.has_str("name"@)
    &&& iface.str_or_absent("mac-address"@)
    &&& iface.str_or_absent("sfp-temperature"@)
    &&& iface.str_or_absent("sfp-tx-power"@)
    &&& iface.str_or_absent("sfp-rx-power"@)
    &&& iface.str_or_absent("sfp-tx-bias-current"@)
    &&& iface.str_or_absent("sfp-supply-voltage"@)
    &&& iface.str_or_absent("sfp-wavelength"@)
    &&& iface.str_or_absent("rate"@)
}

/// A monitor reply that is an array holds interfaces as `interface_ok` asks,
/// and `rate_bps` has one entry for each of them.
pub open spec fn reply_ok(reply: JsonValue, rate_bps: Seq<String>) -> bool {
    reply.elements() matches Some(items) ==> {
        &&& rate_bps.len() == items.len()
        &&& forall|i: int| 0 <= i < items.len() ==> interface_ok(#[trigger] items[i])
    }
}

/// The labels of a monitored interface: its name, and its MAC address unless
/// that is missing or all zero.
pub open spec fn interface_labels(iface: JsonValue) -> Seq<char> {
    let base = "interface=\""@ + iface.str_field("name"@).unwrap() + seq!['"'];
    if iface.field("mac-address"@) is Some && iface.str_field("mac-address"@).unwrap() != "00:00:00:00:00:00"@ {
        base + ",mac_address=\""@ + iface.str_field("mac-address"@).unwrap() + seq!['"']
    } else {
        base
    }
}

/// The metrics of one monitored interface: the six SFP readings that it
/// reports, then its rate in bits per second (`rate_bps`, the converted
/// `rate`) where it reports a rate and the converted text is not empty.
#[verifier::opaque]
pub open spec fn interface_block(prefix: Seq<char>, iface: JsonValue, rate_bps: Seq<char>, supress_preamble: bool) -> Seq<char> {
    let labels = interface_labels(iface);
    let s = supress_preamble;
    member_metric(prefix, iface, "sfp-temperature"@, "interface_sfp_temperature"@, "SFP Temperature"@, "celsius"@, "gauge"@, labels, s)
        + member_metric(prefix, iface, "sfp-tx-power"@, "interface_sfp_tx_power"@, "SFP TX Power"@, "dBm"@, "gauge"@, labels, s)
        + member_metric(prefix, iface, "sfp-rx-power"@, "interface_sfp_rx_power"@, "SFP RX Power"@, "dBm"@, "gauge"@, labels, s)
        + member_metric(prefix, iface, "sfp-tx-bias-current"@, "interface_sfp_tx_bias_current"@, "SFP TX Bias Current"@, "mA"@, "gauge"@, labels, s)
        + member_metric(prefix, iface, "sfp-supply-voltage"@, "interface_sfp_supply_voltage"@, "SFP Supply voltage"@, "volts"@, "gauge"@, labels, s)
        + member_metric(prefix, iface, "sfp-wavelength"@, "interface_sfp_wavelength"@, "SFP Wavelength"@, "nm"@, "gauge"@, labels, s)
        + (if iface.field("rate"@) is Some && rate_bps.len() > 0 {
            metric_block(prefix, "interface_rate"@, rate_bps, labels, "gauge"@, "Interface Speed"@, "bps"@, s)
        } else {
            Seq::empty()
        })
}

/// The blocks of the interfaces in order, the `i`-th with rate `rate_bps[i]`;
/// only the first carries preambles.
pub open spec fn interface_blocks(prefix: Seq<char>, items: Seq<JsonValue>, rate_bps: Seq<String>) -> Seq<char>
    decreases items.len(),
{
    if items.len() == 0 {
        Seq::empty()
    } else {
        interface_blocks(prefix, items.drop_last(), rate_bps)
            + interface_block(prefix, items.last(), rate_bps[items.len() - 1]@, items.len() > 1)
    }
}

/// The text of the whole reply: the interface blocks where it is an array,
/// nothing otherwise.
pub open spec fn reply_text(prefix: Seq<char>, reply: JsonValue, rate_bps: Seq<String>) -> Seq<char> {
    match reply.elements() {
        Some(items) => interface_blocks(prefix, items, rate_bps),
        None => Seq::empty(),
    }
}

/// The `rate` of each interface of the reply (nothing for one without a
/// rate); no entries where the reply is not an array.
pub fn rates(reply: &JsonValue) -> (r: Vec<Option<String>>)
    ensures
        reply.elements() matches Some(items) ==> {
            &&& r@.len() == items.len()
            &&& forall|i: int| 0 <= i < items.len() ==> (#[trigger] r@[i] matches Some(t) ==> items[i].str_field("rate"@) == Some(t@))
            &&& forall|i: int| 0 <= i < items.len() ==> (r@[i] is None <==> (#[trigger] items[i]).str_field("rate"@) is None)
        },
        reply.elements() is None ==> r@.len() == 0,
{
    let mut r: Vec<Option<String>> = Vec::new();
    match reply.as_array() {
        Some(items) => {
            let mut i: usize = 0;
            while i < items.len()
                invariant
                    reply.elements() == Some(items@),
                    i <= items@.len(),
                    r@.len() == i,
                    forall|j: int| 0 <= j < i ==> (#[trigger] r@[j] matches Some(t) ==> items@[j].str_field("rate"@) == Some(t@)),
                    forall|j: int| 0 <= j < i ==> (r@[j] is None <==> (#[trigger] items@[j]).str_field("rate"@) is None),
                decreases items@.len() - i,
            {
                let rate = match items[i].get_str("rate") {
                    Some(t) => Some(String::from_str(t)),
                    None => None,
                };
                r.push(rate);
                i = i + 1;
            }
        },
        None => {},
    }
    r
}

/// The labels of a monitored interface.
pub fn labels_of(iface: &JsonValue) -> (r: String)
    requires
        interface_ok(*iface),
    ensures
        r@ == interface_labels(*iface),
{
    let mut labels = String::new();
    labels.append("interface=\"");
    match iface.get_str("name") {
        Some(n) => labels.append(n),
        None => {},
    }
    labels.push('"');
    match iface.get_str("mac-address") {
        Some(mac) => {
            if !same_text(mac, "00:00:00:00:00:00") {
                labels.append(",mac_address=\"");
                labels.append(mac);
                labels.push('"');
            }
        },
        None => {},
    }
    labels
}

/// The metrics of one monitored interface.
pub fn interface_metrics(metric_prefix: &str, iface: &JsonValue, rate_bps: &str, supress_preamble: bool) -> (r: String)
    requires
        interface_ok(*iface),
    ensures
        r@ == interface_block(metric_prefix@, *iface, rate_bps@, supress_preamble),
{
    proof {
        reveal(interface_block);
    }
    let labels = labels_of(iface);
    let l = labels.as_str();
    let mut ret = String::new();
    push_member_metric(&mut ret, metric_prefix, iface, "sfp-temperature", "interface_sfp_temperature", "SFP Temperature", "celsius", "gauge", l, supress_preamble);
    push_member_metric(&mut ret, metric_prefix, iface, "sfp-tx-power", "interface_sfp_tx_power", "SFP TX Power", "dBm", "gauge", l, supress_preamble);
    push_member_metric(&mut ret, metric_prefix, iface, "sfp-rx-power", "interface_sfp_rx_power", "SFP RX Power", "dBm", "gauge", l, supress_preamble);
    push_member_metric(&mut ret, metric_prefix, iface, "sfp-tx-bias-current", "interface_sfp_tx_bias_current", "SFP TX Bias Current", "mA", "gauge", l, supress_preamble);
    push_member_metric(&mut ret, metric_prefix, iface, "sfp-supply-voltage", "interface_sfp_supply_voltage", "SFP Supply voltage", "volts", "gauge", l, supress_preamble);
    push_member_metric(&mut ret, metric_prefix, iface, "sfp-wavelength", "interface_sfp_wavelength", "SFP Wavelength", "nm", "gauge", l, supress_preamble);
    let ghost before_rate = ret@;
    if iface.get("rate").is_some() && !rate_bps.is_empty() {
        push_metric(&mut ret, metric_prefix, "interface_rate", rate_bps, l, "gauge", "Interface Speed", "bps", supress_preamble);
    } else {
        assert(ret@ == before_rate + Seq::<char>::empty());
    }
    ret
}

/// The metrics of every interface in a monitor reply, the `i`-th interface's
/// rate given in bits per second by `rate_bps[i]`; the preambles come only
/// with the first interface. Nothing for a reply that is not an array.
pub fn metrics_text(metric_prefix: &str, reply: &JsonValue, rate_bps: &Vec<String>) -> (r: String)
    requires
        reply_ok(*reply, rate_bps@),
    ensures
        r@ == reply_text(metric_prefix@, *reply, rate_bps@),
{
    let mut ret = String::new();
    match reply.as_array() {
        Some(items) => {
            let mut i: usize = 0;
            while i < items.len()
                invariant
                    reply.elements() == Some(items@),
                    reply_ok(*reply, rate_bps@),
                    i <= items@.len(),
                    ret@ == interface_blocks(metric_prefix@, items@.take(i as int), rate_bps@),
                decreases items@.len() - i,
            {
                assert(interface_ok(items@[i as int]));
                let block = interface_metrics(metric_prefix, &items[i], rate_bps[i].as_str(), i != 0);
                ret.append(block.as_str());
                assert(items@.take(i + 1).drop_last() == items@.take(i as int));
                i = i + 1;
            }
            assert(items@.take(items@.len() as int) == items@);
        },
        None => {},
    }
    ret
}

/// The blocks of the interfaces, all without preambles.
pub open spec fn plain_blocks(prefix: Seq<char>, items: Seq<JsonValue>, rate_bps: Seq<String>, first: int) -> Seq<char>
    decreases items.len(),
{
    if items.len() == 0 {
        Seq::empty()
    } else {
        plain_blocks(prefix, items.drop_last(), rate_bps, first)
            + interface_block(prefix, items.last(), rate_bps[first + items.len() - 1]@, true)
    }
}

/// Only the first interface carries the preambles: the text is its full
/// block, then the blocks of the others without preambles.
pub proof fn lemma_preamble_only_first(prefix: Seq<char>, items: Seq<JsonValue>, rate_bps: Seq<String>)
    requires
        items.len() > 0,
    ensures
        interface_blocks(prefix, items, rate_bps)
            == interface_block(prefix, items[0], rate_bps[0]@, false) + plain_blocks(prefix, items.skip(1), rate_bps, 1),
    decreases items.len(),
{
    if items.len() == 1 {
        assert(items.drop_last() =~= Seq::<JsonValue>::empty());
        assert(items.skip(1) =~= Seq::<JsonValue>::empty());
        let a = interface_block(prefix, items[0], rate_bps[0]@, false);
        assert(items.last() == items[0]);
        assert(interface_blocks(prefix, items.drop_last(), rate_bps) == Seq::<char>::empty());
        assert(Seq::<char>::empty() + a =~= a + Seq::<char>::empty());
    } else {
        lemma_preamble_only_first(prefix, items.drop_last(), rate_bps);
        assert(items.skip(1).drop_last() =~= items.drop_last().skip(1));
        assert(items.skip(1).last() == items.last());
        assert(items.drop_last()[0] == items[0]);
        let a = interface_block(prefix, items[0], rate_bps[0]@, false);
        let b = plain_blocks(prefix, items.drop_last().skip(1), rate_bps, 1);
        let c = interface_block(prefix, items.last(), rate_bps[items.len() - 1]@, true);
        assert(plain_blocks(prefix, items.skip(1), rate_bps, 1) == plain_blocks(prefix, items.skip(1).drop_last(), rate_bps, 1)
            + interface_block(prefix, items.skip(1).last(), rate_bps[1 + items.skip(1).len() - 1]@, true));
        assert((a + b) + c =~= a + (b + c));
    }
}

/// Does the interface hold what `interface_ok` asks?
pub fn interface_accepted(iface: &JsonValue) -> (r: bool)
    ensures
        r == interface_ok(*iface),
{
    iface.is_str("name") && iface.is_str_or_absent("mac-address")
        && iface.is_str_or_absent("sfp-temperature") && iface.is_str_or_absent("sfp-tx-power")
        && iface.is_str_or_absent("sfp-rx-power") && iface.is_str_or_absent("sfp-tx-bias-current")
        && iface.is_str_or_absent("sfp-supply-voltage") && iface.is_str_or_absent("sfp-wavelength")
        && iface.is_str_or_absent("rate")
}

/// Are the reply and the rates as `reply_ok` asks?
pub fn reply_accepted(reply: &JsonValue, rate_bps: &Vec<String>) -> (r: bool)
    ensures
        r == reply_ok(*reply, rate_bps@),
{
    match reply.as_array() {
        None => true,
        Some(items) => {
            if rate_bps.len() != items.len() {
                return false;
            }
            let mut i: usize = 0;
            while i < items.len()
                invariant
                    reply.elements() == Some(items@),
                    i <= items@.len(),
                    forall|j: int| 0 <= j < i ==> interface_ok(#[trigger] items@[j]),
                decreases items@.len() - i,
            {
                if !interface_accepted(&items[i]) {
                    return false;
                }
                i = i + 1;
            }
            true
        },
    }
}

/// Each monitored interface's text holds a sample of every SFP reading that
/// it reports, under the metric named for that reading and with that
/// reading's own text as value, and its rate in bits per second where it
/// reports a rate that converts to a non-empty text.
#[verifier::spinoff_prover]
#[verifier::rlimit(50)]
pub proof fn lemma_interface_samples(prefix: Seq<char>, iface: JsonValue, rate_bps: Seq<char>, supress_preamble: bool)
    ensures
        iface.field("sfp-temperature"@) is Some ==> contains_text(interface_block(prefix, iface, rate_bps, supress_preamble), metric_line(prefix, "interface_sfp_temperature"@, interface_labels(iface), iface.str_field("sfp-temperature"@).unwrap())),
        iface.field("sfp-tx-power"@) is Some ==> contains_text(interface_block(prefix, iface, rate_bps, supress_preamble), metric_line(prefix, "interface_sfp_tx_power"@, interface_labels(iface), iface.str_field("sfp-tx-power"@).unwrap())),
        iface.field("sfp-rx-power"@) is Some ==> contains_text(interface_block(prefix, iface, rate_bps, supress_preamble), metric_line(prefix, "interface_sfp_rx_power"@, interface_labels(iface), iface.str_field("sfp-rx-power"@).unwrap())),
        iface.field("sfp-tx-bias-current"@) is Some ==> contains_text(interface_block(prefix, iface, rate_bps, supress_preamble), metric_line(prefix, "interface_sfp_tx_bias_current"@, interface_labels(iface), iface.str_field("sfp-tx-bias-current"@).unwrap())),
        iface.field("sfp-supply-voltage"@) is Some ==> contains_text(interface_block(prefix, iface, rate_bps, supress_preamble), metric_line(prefix, "interface_sfp_supply_voltage"@, interface_labels(iface), iface.str_field("sfp-supply-voltage"@).unwrap())),
        iface.field("sfp-wavelength"@) is Some ==> contains_text(interface_block(prefix, iface, rate_bps, supress_preamble), metric_line(prefix, "interface_sfp_wavelength"@, interface_labels(iface), iface.str_field("sfp-wavelength"@).unwrap())),
        iface.field("rate"@) is Some && rate_bps.len() > 0 ==> contains_text(interface_block(prefix, iface, rate_bps, supress_preamble), metric_line(prefix, "interface_rate"@, interface_labels(iface), rate_bps)),
{
    reveal(interface_block);
    let labels = interface_labels(iface);
    let s = supress_preamble;
    let a0 = member_metric(prefix, iface, "sfp-temperature"@, "interface_sfp_temperature"@, "SFP Temperature"@, "celsius"@, "gauge"@, labels, s);
    let a1 = member_metric(prefix, iface, "sfp-tx-power"@, "interface_sfp_tx_power"@, "SFP TX Power"@, "dBm"@, "gauge"@, labels, s);
    let a2 = member_metric(prefix, iface, "sfp-rx-power"@, "interface_sfp_rx_power"@, "SFP RX Power"@, "dBm"@, "gauge"@, labels, s);
    let a3 = member_metric(prefix, iface, "sfp-tx-bias-current"@, "interface_sfp_tx_bias_current"@, "SFP TX Bias Current"@, "mA"@, "gauge"@, labels, s);
    let a4 = member_metric(prefix, iface, "sfp-supply-voltage"@, "interface_sfp_supply_voltage"@, "SFP Supply voltage"@, "volts"@, "gauge"@, labels, s);
    let a5 = member_metric(prefix, iface, "sfp-wavelength"@, "interface_sfp_wavelength"@, "SFP Wavelength"@, "nm"@, "gauge"@, labels, s);
    let a6 = (if iface.field("rate"@) is Some && rate_bps.len() > 0 {
        metric_block(prefix, "interface_rate"@, rate_bps, labels, "gauge"@, "Interface Speed"@, "bps"@, s)
    } else {
        Seq::empty()
    });
    assert(interface_block(prefix, iface, rate_bps, supress_preamble) == a0 + a1 + a2 + a3 + a4 + a5 + a6);
    assert(iface.field("sfp-temperature"@) is Some ==> contains_text(interface_block(prefix, iface, rate_bps, supress_preamble), metric_line(prefix, "interface_sfp_temperature"@, labels, iface.str_field("sfp-temperature"@).unwrap()))) by {
        if iface.field("sfp-temperature"@) is Some {
            lemma_block_has_line(prefix, "interface_sfp_temperature"@, iface.str_field("sfp-temperature"@).unwrap(), labels, "gauge"@, "SFP Temperature"@, "celsius"@, s);
            assert(a0 == metric_block(prefix, "interface_sfp_temperature"@, iface.str_field("sfp-temperature"@).unwrap(), labels, "gauge"@, "SFP Temperature"@, "celsius"@, s));
            lemma_contains_in_sum7(a0, a1, a2, a3, a4, a5, a6, metric_line(prefix, "interface_sfp_temperature"@, labels, iface.str_field("sfp-temperature"@).unwrap()));
        }
    }
    assert(iface.field("sfp-tx-power"@) is Some ==> contains_text(interface_block(prefix, iface, rate_bps, supress_preamble), metric_line(prefix, "interface_sfp_tx_power"@, labels, iface.str_field("sfp-tx-power"@).unwrap()))) by {
        if iface.field("sfp-tx-power"@) is Some {
            lemma_block_has_line(prefix, "interface_sfp_tx_power"@, iface.str_field("sfp-tx-power"@).unwrap(), labels, "gauge"@, "SFP TX Power"@, "dBm"@, s);
            assert(a1 == metric_block(prefix, "interface_sfp_tx_power"@, iface.str_field("sfp-tx-power"@).unwrap(), labels, "gauge"@, "SFP TX Power"@, "dBm"@, s));
            lemma_contains_in_sum7(a0, a1, a2, a3, a4, a5, a6, metric_line(prefix, "interface_sfp_tx_power"@, labels, iface.str_field("sfp-tx-power"@).unwrap()));
        }
    }
    assert(iface.field("sfp-rx-power"@) is Some ==> contains_text(interface_block(prefix, iface, rate_bps, supress_preamble), metric_line(prefix, "interface_sfp_rx_power"@, labels, iface.str_field("sfp-rx-power"@).unwrap()))) by {
        if iface.field("sfp-rx-power"@) is Some {
            lemma_block_has_line(prefix, "interface_sfp_rx_power"@, iface.str_field("sfp-rx-power"@).unwrap(), labels, "gauge"@, "SFP RX Power"@, "dBm"@, s);
            assert(a2 == metric_block(prefix, "interface_sfp_rx_power"@, iface.str_field("sfp-rx-power"@).unwrap(), labels, "gauge"@, "SFP RX Power"@, "dBm"@, s));
            lemma_contains_in_sum7(a0, a1, a2, a3, a4, a5, a6, metric_line(prefix, "interface_sfp_rx_power"@, labels, iface.str_field("sfp-rx-power"@).unwrap()));
        }
    }
    assert(iface.field("sfp-tx-bias-current"@) is Some ==> contains_text(interface_block(prefix, iface, rate_bps, supress_preamble), metric_line(prefix, "interface_sfp_tx_bias_current"@, labels, iface.str_field("sfp-tx-bias-current"@).unwrap()))) by {
        if iface.field("sfp-tx-bias-current"@) is Some {
            lemma_block_has_line(prefix, "interface_sfp_tx_bias_current"@, iface.str_field("sfp-tx-bias-current"@).unwrap(), labels, "gauge"@, "SFP TX Bias Current"@, "mA"@, s);
            assert(a3 == metric_block(prefix, "interface_sfp_tx_bias_current"@, iface.str_field("sfp-tx-bias-current"@).unwrap(), labels, "gauge"@, "SFP TX Bias Current"@, "mA"@, s));
            lemma_contains_in_sum7(a0, a1, a2, a3, a4, a5, a6, metric_line(prefix, "interface_sfp_tx_bias_current"@, labels, iface.str_field("sfp-tx-bias-current"@).unwrap()));
        }
    }
    assert(iface.field("sfp-supply-voltage"@) is Some ==> contains_text(interface_block(prefix, iface, rate_bps, supress_preamble), metric_line(prefix, "interface_sfp_supply_voltage"@, labels, iface.str_field("sfp-supply-voltage"@).unwrap()))) by {
        if iface.field("sfp-supply-voltage"@) is Some {
            lemma_block_has_line(prefix, "interface_sfp_supply_voltage"@, iface.str_field("sfp-supply-voltage"@).unwrap(), labels, "gauge"@, "SFP Supply voltage"@, "volts"@, s);
            assert(a4 == metric_block(prefix, "interface_sfp_supply_voltage"@, iface.str_field("sfp-supply-voltage"@).unwrap(), labels, "gauge"@, "SFP Supply voltage"@, "volts"@, s));
            lemma_contains_in_sum7(a0, a1, a2, a3, a4, a5, a6, metric_line(prefix, "interface_sfp_supply_voltage"@, labels, iface.str_field("sfp-supply-voltage"@).unwrap()));
        }
    }
    assert(iface.field("sfp-wavelength"@) is Some ==> contains_text(interface_block(prefix, iface, rate_bps, supress_preamble), metric_line(prefix, "interface_sfp_wavelength"@, labels, iface.str_field("sfp-wavelength"@).unwrap()))) by {
        if iface.field("sfp-wavelength"@) is Some {
            lemma_block_has_line(prefix, "interface_sfp_wavelength"@, iface.str_field("sfp-wavelength"@).unwrap(), labels, "gauge"@, "SFP Wavelength"@, "nm"@, s);
            assert(a5 == metric_block(prefix, "interface_sfp_wavelength"@, iface.str_field("sfp-wavelength"@).unwrap(), labels, "gauge"@, "SFP Wavelength"@, "nm"@, s));
            lemma_contains_in_sum7(a0, a1, a2, a3, a4, a5, a6, metric_line(prefix, "interface_sfp_wavelength"@, labels, iface.str_field("sfp-wavelength"@).unwrap()));
        }
    }
    assert(iface.field("rate"@) is Some && rate_bps.len() > 0 ==> contains_text(interface_block(prefix, iface, rate_bps, supress_preamble), metric_line(prefix, "interface_rate"@, labels, rate_bps))) by {
        if iface.field("rate"@) is Some && rate_bps.len() > 0 {
            lemma_block_has_line(prefix, "interface_rate"@, rate_bps, labels, "gauge"@, "Interface Speed"@, "bps"@, s);
            assert(a6 == metric_block(prefix, "interface_rate"@, rate_bps, labels, "gauge"@, "Interface Speed"@, "bps"@, s));
            lemma_contains_in_sum7(a0, a1, a2, a3, a4, a5, a6, metric_line(prefix, "interface_rate"@, labels, rate_bps));
        }
    }
}

/// The labels of a monitored interface, written out: its name, and its MAC
/// address as `mac_address="<mac>"` unless it has none or an all-zero one.
pub proof fn lemma_interface_labels_text(iface: JsonValue)
    ensures
        interface_labels(iface) == "interface=\""@ + iface.str_field("name"@).unwrap() + seq!['"']
            + (if iface.field("mac-address"@) is Some && iface.str_field("mac-address"@).unwrap() != "00:00:00:00:00:00"@ {
                ",mac_address=\""@ + iface.str_field("mac-address"@).unwrap() + seq!['"']
            } else {
                Seq::empty()
            }),
{
    let base = "interface=\""@ + iface.str_field("name"@).unwrap() + seq!['"'];
    assert(base + Seq::<char>::empty() =~= base);
}

} // verus!
