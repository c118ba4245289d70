//! Metrics of `/rest/ip/firewall/raw`: packet and byte counts per rule.

use vstd::prelude::*;
use crate::json::JsonValue;
use crate::text::{replaced, replace_char, same_text};
use crate::collectors::helpers::{
    contains_text, lemma_block_has_line, lemma_contains_within, metric_line,
    make_metric, make_metric_preamble, metric_block, member_metric, push_member_metric,
};

verus! {

/// A metric with its preamble, unless the preamble is suppressed.
pub fn metrics(
    metric_prefix: &str,
    name: &str,
    value: &str,
    labels: &str,
    metric_type: &str,
    help: &str,
    unit: &str,
    supress_preamble: bool,
) -> (r: String)
    ensures
        r@ == metric_block(metric_prefix@, name@, value@, labels@, metric_type@, help@, unit@, supress_preamble),
{
    let mut ret = String::new();
    if !supress_preamble {
        let p = make_metric_preamble(metric_prefix, name, metric_type, help, unit);
        ret.append(p.as_str());
    }
    let m = make_metric(metric_prefix, name, labels, value);
    ret.append(m.as_str());
    ret
}

/// Members of a rule that do not become labels: the counters, the comment,
/// the id, the logging settings and the two flags.
pub open spec fn skipped(key: Seq<char>) -> bool {
    ||| key == "bytes"@
    ||| key == "packets"@
    ||| key == "comment"@
    ||| key == ".id"@
    ||| key == "log"@
    ||| key == "log-prefix"@
    ||| key == "invalid"@
    ||| key == "disabled"@
}

/// What a rule of the reply must hold: it is an object, every member that
/// becomes a label is a string, and so are the counters where present.
pub open spec fn rule_ok(rule: JsonValue) -> bool {
    &&& rule is Object
    &&& forall|i: int|
        0 <= i < rule->Object_0@.len() && !skipped((#[trigger] rule->Object_0@[i]).0@) ==> rule->Object_0@[i].1.text() is Some
    &&& rule.str_or_absent("packets"@)
    &&& rule.str_or_absent("bytes"@)
}

/// A reply that is an array holds rules as `rule_ok` asks.
pub open spec fn reply_ok(reply: JsonValue) -> bool {
    reply.elements() matches Some(items) ==> forall|i: int|
        0 <= i < items.len() ==> rule_ok(#[trigger] items[i])
}

/// The label of one member: the key with `-` turned into `_`, `="`, the value, `"`.
pub open spec fn member_label(member: (String, JsonValue)) -> Seq<char> {
    replaced(member.0@, '-', '_') + "=\""@ + member.1.text().unwrap() + seq!['"']
}

/// The labels of a rule: one for each member that is not skipped, in the
/// order of the members, separated by commas (a comma goes in only once the
/// labels so far are not empty).
pub open spec fn rule_labels(members: Seq<(String, JsonValue)>) -> Seq<char>
    decreases members.len(),
{
    if members.len() == 0 {
        Seq::empty()
    } else {
        let head = rule_labels(members.drop_last());
        if skipped(members.last().0@) {
            head
        } else if head.len() > 0 {
            head + seq![','] + member_label(members.last())
        } else {
            head + member_label(members.last())
        }
    }
}

/// The metrics of one rule: its packet count, then its byte count, where present.
pub open spec fn rule_block(prefix: Seq<char>, rule: JsonValue, supress_preamble: bool) -> Seq<char> {
    let labels = rule_labels(rule->Object_0@);
    member_metric(prefix, rule, "packets"@, "ip_firewall_raw_packets_total"@, "Firewall rule packet count"@, "packets"@, "counter"@, labels, supress_preamble)
        + member_metric(prefix, rule, "bytes"@, "ip_firewall_raw_bytes_total"@, "Firewall rule byte count"@, "bytes"@, "counter"@, labels, supress_preamble)
}

/// The blocks of the rules in order; only the first carries preambles.
pub open spec fn rule_blocks(prefix: Seq<char>, items: Seq<JsonValue>) -> Seq<char>
    decreases items.len(),
{
    if items.len() == 0 {
        Seq::empty()
    } else {
        rule_blocks(prefix, items.drop_last()) + rule_block(prefix, items.last(), items.len() > 1)
    }
}

/// The text of the whole reply: the rule blocks where it is an array,
/// nothing otherwise.
pub open spec fn reply_text(prefix: Seq<char>, reply: JsonValue) -> Seq<char> {
    match reply.elements() {
        Some(items) => rule_blocks(prefix, items),
        None => Seq::empty(),
    }
}

/// Is this member left out of the labels?
fn is_skipped(key: &str) -> (r: bool)
    ensures
        r == skipped(key@),
{
    same_text(key, "bytes") || same_text(key, "packets") || same_text(key, "comment")
        || same_text(key, ".id") || same_text(key, "log") || same_text(key, "log-prefix")
        || same_text(key, "invalid") || same_text(key, "disabled")
}

/// The labels of a rule.
pub fn labels_of(rule: &JsonValue) -> (r: String)
    requires
        rule_ok(*rule),
    ensures
        r@ == rule_labels(rule->Object_0@),
{
    let mut labels = String::new();
    match rule {
        JsonValue::Object(members) => {
            let mut i: usize = 0;
            while i < members.len()
                invariant
                    *rule == JsonValue::Object(*members),
                    rule_ok(*rule),
                    i <= members@.len(),
                    labels@ == rule_labels(members@.take(i as int)),
                decreases members@.len() - i,
            {
                assert(members@.take(i + 1).drop_last() == members@.take(i as int));
                assert(members@.take(i + 1).last() == members@[i as int]);
                let key = members[i].0.as_str();
                if !is_skipped(key) {
                    assert(members@[i as int].1.text() is Some);
                    if labels.as_str().unicode_len() > 0 {
                        labels.push(',');
                    }
                    let k = replace_char(key, '-', '_');
                    labels.append(k.as_str());
                    labels.append("=\"");
                    match members[i].1.as_str() {
                        Some(v) => labels.append(v),
                        None => {},
                    }
                    labels.push('"');
                }
                i = i + 1;
            }
            assert(members@.take(members@.len() as int) == members@);
        },
        _ => {},
    }
    labels
}

/// The metrics of one rule.
pub fn rule_metrics(metric_prefix: &str, rule: &JsonValue, supress_preamble: bool) -> (r: String)
    requires
        rule_ok(*rule),
    ensures
        r@ == rule_block(metric_prefix@, *rule, supress_preamble),
{
    let labels = labels_of(rule);
    let l = labels.as_str();
    let mut ret = String::new();
    push_member_metric(&mut ret, metric_prefix, rule, "packets", "ip_firewall_raw_packets_total", "Firewall rule packet count", "packets", "counter", l, supress_preamble);
    push_member_metric(&mut ret, metric_prefix, rule, "bytes", "ip_firewall_raw_bytes_total", "Firewall rule byte count", "bytes", "counter", l, supress_preamble);
    ret
}

/// The metrics of every rule in a `/rest/ip/firewall/raw` reply; the
/// preambles come only with the first rule. Nothing for a reply that is not
/// an array.
pub fn metrics_text(metric_prefix: &str, reply: &JsonValue) -> (r: String)
    requires
        reply_ok(*reply),
    ensures
        r@ == reply_text(metric_prefix@, *reply),
{
    let mut ret = String::new();
    match reply.as_array() {
        Some(items) => {
            let mut i: usize = 0;
            while i < items.len()
                invariant
                    reply.elements() == Some(items@),
                    reply_ok(*reply),
                    i <= items@.len(),
                    ret@ == rule_blocks(metric_prefix@, items@.take(i as int)),
                decreases items@.len() - i,
            {
                assert(reply.elements().unwrap() == items@);
                assert(rule_ok(items@[i as int]));
                let block = rule_metrics(metric_prefix, &items[i], i != 0);
                ret.append(block.as_str());
                assert(items@.take(i + 1).drop_last() == items@.take(i as int));
                i = i + 1;
            }
            assert(items@.take(items@.len() as int) == items@);
        },
        None => {},
    }
    ret
}

/// The blocks of the rules, all without preambles.
pub open spec fn plain_blocks(prefix: Seq<char>, items: Seq<JsonValue>) -> Seq<char>
    decreases items.len(),
{
    if items.len() == 0 {
        Seq::empty()
    } else {
        plain_blocks(prefix, items.drop_last()) + rule_block(prefix, items.last(), true)
    }
}

/// Only the first rule carries the preambles: the text is its full block,
/// then the blocks of the others without preambles.
pub proof fn lemma_preamble_only_first(prefix: Seq<char>, items: Seq<JsonValue>)
    requires
        items.len() > 0,
    ensures
        rule_blocks(prefix, items) == rule_block(prefix, items[0], false) + plain_blocks(prefix, items.skip(1)),
    decreases items.len(),
{
    if items.len() == 1 {
        assert(items.drop_last() =~= Seq::<JsonValue>::empty());
        assert(items.skip(1) =~= Seq::<JsonValue>::empty());
        assert(items.last() == items[0]);
        assert(rule_blocks(prefix, items.drop_last()) == Seq::<char>::empty());
        assert(Seq::<char>::empty() + rule_block(prefix, items[0], false) =~= rule_block(prefix, items[0], false) + Seq::<char>::empty());
    } else {
        lemma_preamble_only_first(prefix, items.drop_last());
        assert(items.skip(1).drop_last() =~= items.drop_last().skip(1));
        assert(items.skip(1).last() == items.last());
        assert(items.drop_last()[0] == items[0]);
        let a = rule_block(prefix, items[0], false);
        let b = plain_blocks(prefix, items.drop_last().skip(1));
        let c = rule_block(prefix, items.last(), true);
        assert(plain_blocks(prefix, items.skip(1)) == plain_blocks(prefix, items.skip(1).drop_last()) + rule_block(prefix, items.skip(1).last(), true));
        assert((a + b) + c =~= a + (b + c));
    }
}

/// A rule whose members are all skipped (counters, comment, id, logging,
/// flags) has no labels.
pub proof fn lemma_skipped_members_give_no_labels(members: Seq<(String, JsonValue)>)
    requires
        forall|i: int| 0 <= i < members.len() ==> skipped((#[trigger] members[i]).0@),
    ensures
        rule_labels(members) == Seq::<char>::empty(),
    decreases members.len(),
{
    if members.len() > 0 {
        assert(skipped(members[members.len() - 1].0@));
        lemma_skipped_members_give_no_labels(members.drop_last());
    }
}

/// Does the rule hold what `rule_ok` asks?
pub fn rule_accepted(rule: &JsonValue) -> (r: bool)
    ensures
        r == rule_ok(*rule),
{
    match rule {
        JsonValue::Object(members) => {
            let mut i: usize = 0;
            while i < members.len()
                invariant
                    *rule == JsonValue::Object(*members),
                    i <= members@.len(),
                    forall|j: int| 0 <= j < i && !skipped((#[trigger] members@[j]).0@) ==> members@[j].1.text() is Some,
                decreases members@.len() - i,
            {
                if !is_skipped(members[i].0.as_str()) && members[i].1.as_str().is_none() {
                    return false;
                }
                i = i + 1;
            }
            rule.is_str_or_absent("packets") && rule.is_str_or_absent("bytes")
        },
        _ => false,
    }
}

/// Is the reply as `reply_ok` asks?
pub fn reply_accepted(reply: &JsonValue) -> (r: bool)
    ensures
        r == reply_ok(*reply),
{
    match reply.as_array() {
        None => true,
        Some(items) => {
            let mut i: usize = 0;
            while i < items.len()
                invariant
                    reply.elements() == Some(items@),
                    i <= items@.len(),
                    forall|j: int| 0 <= j < i ==> rule_ok(#[trigger] items@[j]),
                decreases items@.len() - i,
            {
                if !rule_accepted(&items[i]) {
                    assert(reply.elements().unwrap()[i as int] == items@[i as int]);
                    assert(!rule_ok(reply.elements().unwrap()[i as int]));
                    return false;
                }
                i = i + 1;
            }
            true
        },
    }
}

/// Each rule's text holds a sample of its packet count and of its byte
/// count where it reports them, each with the reported member's text.
pub proof fn lemma_rule_samples(prefix: Seq<char>, rule: JsonValue, supress_preamble: bool)
    ensures
        rule.field("packets"@) is Some ==> contains_text(rule_block(prefix, rule, supress_preamble), metric_line(prefix, "ip_firewall_raw_packets_total"@, rule_labels(rule->Object_0@), rule.str_field("packets"@).unwrap())),
        rule.field("bytes"@) is Some ==> contains_text(rule_block(prefix, rule, supress_preamble), metric_line(prefix, "ip_firewall_raw_bytes_total"@, rule_labels(rule->Object_0@), rule.str_field("bytes"@).unwrap())),
{
    let labels = rule_labels(rule->Object_0@);
    let s = supress_preamble;
    let a0 = member_metric(prefix, rule, "packets"@, "ip_firewall_raw_packets_total"@, "Firewall rule packet count"@, "packets"@, "counter"@, labels, s);
    let a1 = member_metric(prefix, rule, "bytes"@, "ip_firewall_raw_bytes_total"@, "Firewall rule byte count"@, "bytes"@, "counter"@, labels, s);
    assert(rule_block(prefix, rule, supress_preamble) == a0 + a1);
    if rule.field("packets"@) is Some {
        lemma_block_has_line(prefix, "ip_firewall_raw_packets_total"@, rule.str_field("packets"@).unwrap(), labels, "counter"@, "Firewall rule packet count"@, "packets"@, s);
        assert(a0 == metric_block(prefix, "ip_firewall_raw_packets_total"@, rule.str_field("packets"@).unwrap(), labels, "counter"@, "Firewall rule packet count"@, "packets"@, s));
        lemma_contains_within(Seq::<char>::empty(), a0, a1, metric_line(prefix, "ip_firewall_raw_packets_total"@, labels, rule.str_field("packets"@).unwrap()));
        assert(rule_block(prefix, rule, supress_preamble) =~= (Seq::<char>::empty()) + a0 + (a1));
    }
    if rule.field("bytes"@) is Some {
        lemma_block_has_line(prefix, "ip_firewall_raw_bytes_total"@, rule.str_field("bytes"@).unwrap(), labels, "counter"@, "Firewall rule byte count"@, "bytes"@, s);
        assert(a1 == metric_block(prefix, "ip_firewall_raw_bytes_total"@, rule.str_field("bytes"@).unwrap(), labels, "counter"@, "Firewall rule byte count"@, "bytes"@, s));
        lemma_contains_within(a0, a1, Seq::<char>::empty(), metric_line(prefix, "ip_firewall_raw_bytes_total"@, labels, rule.str_field("bytes"@).unwrap()));
        assert(rule_block(prefix, rule, supress_preamble) =~= (a0) + a1 + (Seq::<char>::empty()));
    }
}

/// Exactly eight members stay out of the labels: `bytes`, `packets`,
/// `comment`, `.id`, `log`, `log-prefix`, `invalid` and `disabled`. Adding
/// one of them to a rule leaves its labels as they were; adding any other
/// string member appends `<key with - as _>="<value>"`, after a comma where
/// there were labels already.
pub proof fn lemma_member_labels(members: Seq<(String, JsonValue)>, key: String, value: String)
    ensures
        (key@ == "bytes"@ || key@ == "packets"@ || key@ == "comment"@ || key@ == ".id"@ || key@ == "log"@
            || key@ == "log-prefix"@ || key@ == "invalid"@ || key@ == "disabled"@)
            ==> rule_labels(members.push((key, JsonValue::Str(value)))) == rule_labels(members),
        !(key@ == "bytes"@ || key@ == "packets"@ || key@ == "comment"@ || key@ == ".id"@ || key@ == "log"@
            || key@ == "log-prefix"@ || key@ == "invalid"@ || key@ == "disabled"@)
            ==> rule_labels(members.push((key, JsonValue::Str(value)))) == rule_labels(members)
                + (if rule_labels(members).len() > 0 { seq![','] } else { Seq::empty() })
                + replaced(key@, '-', '_') + "=\""@ + value@ + seq!['"'],
{
    let m = members.push((key, JsonValue::Str(value)));
    assert(m.drop_last() == members);
    assert(m.last() == (key, JsonValue::Str(value)));
    let head = rule_labels(members);
    assert(head + Seq::<char>::empty() =~= head);
}

} // verus!
