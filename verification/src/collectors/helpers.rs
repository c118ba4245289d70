//! Pieces shared by the collectors: metric lines, their preambles, and the
//! body of the monitor requests.

use vstd::prelude::*;
use crate::json::{JsonValue, json_text, to_json_text};
use crate::text::{replaced, ends_with, removed, replace_char, ends_with_text, remove_text, decimal, decimal_text};

verus! {

/// `std::time::Instant`, a reading of a monotonic clock.
#[verifier::external_type_specification]
#[verifier::external_body]
pub struct ExInstant(std::time::Instant);

/// `std::time::Instant::now`: the clock's current reading. Nothing is
/// promised of the value: it depends on when the call is made.
#[verifier::external_body]
fn instant_now() -> std::time::Instant {
    std::time::Instant::now()
}

/// What every collector starts from: the time it started, an empty result,
/// no error, and empty labels.
pub fn collector_preamble() -> (r: (std::time::Instant, String, u8, String))
    ensures
        r.1@ == Seq::<char>::empty(),
        r.2 == 0,
        r.3@ == Seq::<char>::empty(),
{
    let now = instant_now();
    (now, String::new(), 0, String::new())
}

/// The full name of a metric: the prefix, `_`, and the name with every `-`
/// turned into `_`.
pub open spec fn metric_name(prefix: Seq<char>, name: Seq<char>) -> Seq<char> {
    prefix + seq!['_'] + replaced(name, '-', '_')
}

/// One sample line: `<full name>{<labels>} <value>` and a newline.
pub open spec fn metric_line(prefix: Seq<char>, name: Seq<char>, labels: Seq<char>, value: Seq<char>) -> Seq<char> {
    metric_name(prefix, name) + seq!['{'] + labels + seq!['}', ' '] + value + seq!['\n']
}

/// The `# HELP` and `# TYPE` lines of a metric, and its `# UNIT` line where
/// the unit is not empty.
pub open spec fn preamble_text(
    prefix: Seq<char>,
    name: Seq<char>,
    metric_type: Seq<char>,
    help: Seq<char>,
    unit: Seq<char>,
) -> Seq<char> {
    let full = metric_name(prefix, name);
    let help_line = "# HELP "@ + full + seq![' '] + help + seq!['\n'];
    let type_line = "# TYPE "@ + full + seq![' '] + metric_type + seq!['\n'];
    let unit_line = if unit.len() == 0 {
        Seq::empty()
    } else {
        "# UNIT "@ + full + seq![' '] + unit + seq!['\n']
    };
    help_line + type_line + unit_line
}

/// The full name of a metric.
fn full_metric_name(prefix: &str, name: &str) -> (r: String)
    ensures
        r@ == metric_name(prefix@, name@),
{
    let mut r = String::from_str(prefix);
    r.push('_');
    let n = replace_char(name, '-', '_');
    r.append(n.as_str());
    r
}

/// The sample line of a metric.
pub fn make_metric(prefix: &str, name: &str, labels: &str, value: &str) -> (r: String)
    ensures
        r@ == metric_line(prefix@, name@, labels@, value@),
{
    let mut r = full_metric_name(prefix, name);
    r.push('{');
    r.append(labels);
    r.push('}');
    r.push(' ');
    r.append(value);
    r.push('\n');
    r
}

/// The `# HELP`, `# TYPE` and (for a non-empty unit) `# UNIT` lines of a metric.
pub fn make_metric_preamble(
    prefix: &str,
    name: &str,
    metric_type: &str,
    help: &str,
    unit: &str,
) -> (r: String)
    ensures
        r@ == preamble_text(prefix@, name@, metric_type@, help@, unit@),
{
    let full = full_metric_name(prefix, name);
    let mut r = String::new();
    r.append("# HELP ");
    r.append(full.as_str());
    r.push(' ');
    r.append(help);
    r.push('\n');
    r.append("# TYPE ");
    r.append(full.as_str());
    r.push(' ');
    r.append(metric_type);
    r.push('\n');
    if !unit.is_empty() {
        r.append("# UNIT ");
        r.append(full.as_str());
        r.push(' ');
        r.append(unit);
        r.push('\n');
    }
    r
}

/// How a link rate reads: the number before the unit, and how many times it
/// is to be multiplied by a thousand to give bits per second. `None` for a
/// rate in any unit but `Gbps` or `Mbps`, which counts as zero.
pub open spec fn rate_parts(rate: Seq<char>) -> Option<(Seq<char>, u8)> {
    if ends_with(rate, "Gbps"@) {
        Some((removed(rate, "Gbps"@), 3u8))
    } else if ends_with(rate, "Mbps"@) {
        Some((removed(rate, "Mbps"@), 2u8))
    } else {
        None
    }
}

/// Splits a link rate such as `10Gbps` into the number text (every
/// occurrence of the unit removed) and the power of a thousand that scales it
/// to bits per second.
pub fn split_rate(rate: &str) -> (r: Option<(String, u8)>)
    ensures
        r is None <==> rate_parts(rate@) is None,
        r matches Some(p) ==> rate_parts(rate@) == Some((p.0@, p.1)),
{
    proof {
        reveal_strlit("Gbps");
        reveal_strlit("Mbps");
    }
    if ends_with_text(rate, "Gbps") {
        Some((remove_text(rate, "Gbps"), 3))
    } else if ends_with_text(rate, "Mbps") {
        Some((remove_text(rate, "Mbps"), 2))
    } else {
        None
    }
}

/// The `numbers` parameter of a monitor request: the JSON text of each
/// element's `.id`, joined by commas (a comma goes in only once the text so
/// far is not empty).
pub open spec fn id_list(items: Seq<JsonValue>) -> Seq<char>
    decreases items.len(),
{
    if items.len() == 0 {
        Seq::empty()
    } else {
        let head = id_list(items.drop_last());
        let id = json_text(items.last().field(".id"@).unwrap());
        if head.len() > 0 {
            head + seq![','] + id
        } else {
            head + id
        }
    }
}

/// Every element of the listing has an `.id`.
pub open spec fn listing_has_ids(listing: JsonValue) -> bool {
    listing.elements() matches Some(items) ==> forall|i: int|
        0 <= i < items.len() ==> (#[trigger] items[i]).field(".id"@) is Some
}

/// The parameters of a monitor request for the interfaces in `listing`:
/// `numbers` (their ids), `duration` and `interval` (both `0.1s`). Nothing
/// when the listing is not an array, in which case no request is made.
pub fn monitor_request_body(listing: &JsonValue) -> (r: Option<Vec<(String, String)>>)
    requires
        listing_has_ids(*listing),
    ensures
        r is None <==> listing.elements() is None,
        r matches Some(body) ==> {
            &&& body@.len() == 3
            &&& body@[0].0@ == "numbers"@
            &&& body@[0].1@ == id_list(listing.elements().unwrap())
            &&& body@[1].0@ == "duration"@
            &&& body@[1].1@ == "0.1s"@
            &&& body@[2].0@ == "interval"@
            &&& body@[2].1@ == "0.1s"@
        },
{
    match listing.as_array() {
        None => None,
        Some(items) => {
            let mut ids = String::new();
            let mut i: usize = 0;
            while i < items.len()
                invariant
                    listing.elements() == Some(items@),
                    listing_has_ids(*listing),
                    i <= items@.len(),
                    ids@ == id_list(items@.take(i as int)),
                decreases items@.len() - i,
            {
                assert(items@[i as int].field(".id"@) is Some);
                let id = items[i].get(".id");
                let text = match id {
                    Some(v) => to_json_text(v),
                    None => String::new(),
                };
                if ids.as_str().unicode_len() > 0 {
                    ids.push(',');
                }
                ids.append(text.as_str());
                assert(items@.take(i + 1).drop_last() == items@.take(i as int));
                i = i + 1;
            }
            assert(items@.take(items@.len() as int) == items@);
            let mut body: Vec<(String, String)> = Vec::new();
            body.push((String::from_str("numbers"), ids));
            body.push((String::from_str("duration"), String::from_str("0.1s")));
            body.push((String::from_str("interval"), String::from_str("0.1s")));
            Some(body)
        },
    }
}

/// What a collector's `metrics` gives: the preamble of the metric unless it
/// is suppressed, then its sample line.
pub open spec fn metric_block(
    prefix: Seq<char>,
    name: Seq<char>,
    value: Seq<char>,
    labels: Seq<char>,
    metric_type: Seq<char>,
    help: Seq<char>,
    unit: Seq<char>,
    supress_preamble: bool,
) -> Seq<char> {
    let pre = if supress_preamble {
        Seq::empty()
    } else {
        preamble_text(prefix, name, metric_type, help, unit)
    };
    pre + metric_line(prefix, name, labels, value)
}

/// The block of a metric read from member `key` of `item`: nothing when the
/// member is absent, otherwise the metric with the member's text as value.
pub open spec fn member_metric(
    prefix: Seq<char>,
    item: JsonValue,
    key: Seq<char>,
    name: Seq<char>,
    help: Seq<char>,
    unit: Seq<char>,
    metric_type: Seq<char>,
    labels: Seq<char>,
    supress_preamble: bool,
) -> Seq<char> {
    if item.field(key) is Some {
        metric_block(prefix, name, item.str_field(key).unwrap(), labels, metric_type, help, unit, supress_preamble)
    } else {
        Seq::empty()
    }
}

/// Appends the metric block of `name` with the given value.
pub fn push_metric(
    out: &mut String,
    prefix: &str,
    name: &str,
    value: &str,
    labels: &str,
    metric_type: &str,
    help: &str,
    unit: &str,
    supress_preamble: bool,
)
    ensures
        final(out)@ == old(out)@ + metric_block(prefix@, name@, value@, labels@, metric_type@, help@, unit@, supress_preamble),
{
    if !supress_preamble {
        let p = make_metric_preamble(prefix, name, metric_type, help, unit);
        out.append(p.as_str());
    }
    let m = make_metric(prefix, name, labels, value);
    out.append(m.as_str());
}

/// Appends the metric read from member `key` of `item`, where it is present.
pub fn push_member_metric(
    out: &mut String,
    prefix: &str,
    item: &JsonValue,
    key: &str,
    name: &str,
    help: &str,
    unit: &str,
    metric_type: &str,
    labels: &str,
    supress_preamble: bool,
)
    requires
        item.str_or_absent(key@),
    ensures
        final(out)@ == old(out)@ + member_metric(prefix@, *item, key@, name@, help@, unit@, metric_type@, labels@, supress_preamble),
{
    match item.get_str(key) {
        Some(v) => {
            push_metric(out, prefix, name, v, labels, metric_type, help, unit, supress_preamble);
        },
        None => {
            assert(member_metric(prefix@, *item, key@, name@, help@, unit@, metric_type@, labels@, supress_preamble) == Seq::<char>::empty());
            assert(old(out)@ + Seq::<char>::empty() == old(out)@);
        },
    }
}

/// A metric's full name keeps no `-` of its name: the part after the prefix
/// and `_` is the name with each `-` turned into `_`, and holds no `-`.
pub proof fn lemma_metric_name_has_no_dash(prefix: Seq<char>, name: Seq<char>)
    ensures
        metric_name(prefix, name).skip(prefix.len() + 1int) == replaced(name, '-', '_'),
        forall|i: int| 0 <= i < name.len() ==> #[trigger] metric_name(prefix, name).skip(prefix.len() + 1int)[i] != '-',
{
    assert(metric_name(prefix, name).skip(prefix.len() + 1int) =~= replaced(name, '-', '_'));
}

/// A metric block with its preamble suppressed is the sample line alone
/// (what `make_metric` gives); otherwise it is the preamble (what
/// `make_metric_preamble` gives) followed by that line.
pub proof fn lemma_metric_block_parts(
    prefix: Seq<char>,
    name: Seq<char>,
    value: Seq<char>,
    labels: Seq<char>,
    metric_type: Seq<char>,
    help: Seq<char>,
    unit: Seq<char>,
)
    ensures
        metric_block(prefix, name, value, labels, metric_type, help, unit, true) == metric_line(prefix, name, labels, value),
        metric_block(prefix, name, value, labels, metric_type, help, unit, false)
            == preamble_text(prefix, name, metric_type, help, unit) + metric_line(prefix, name, labels, value),
{
    assert(Seq::<char>::empty() + metric_line(prefix, name, labels, value) =~= metric_line(prefix, name, labels, value));
}

/// Only a metric with a unit gets a `# UNIT` line: without one, the preamble
/// is exactly the `# HELP` and `# TYPE` lines.
pub proof fn lemma_preamble_without_unit(prefix: Seq<char>, name: Seq<char>, metric_type: Seq<char>, help: Seq<char>)
    ensures
        preamble_text(prefix, name, metric_type, help, Seq::empty())
            == "# HELP "@ + metric_name(prefix, name) + seq![' '] + help + seq!['\n']
                + "# TYPE "@ + metric_name(prefix, name) + seq![' '] + metric_type + seq!['\n'],
{
    let full = metric_name(prefix, name);
    let h = "# HELP "@ + full + seq![' '] + help + seq!['\n'];
    let t = "# TYPE "@ + full + seq![' '] + metric_type + seq!['\n'];
    assert(h + t + Seq::<char>::empty() =~= h + t);
}

/// Does every element of the listing have an `.id`?
pub fn listing_ok(listing: &JsonValue) -> (r: bool)
    ensures
        r == listing_has_ids(*listing),
{
    match listing.as_array() {
        None => true,
        Some(items) => {
            let mut i: usize = 0;
            while i < items.len()
                invariant
                    listing.elements() == Some(items@),
                    i <= items@.len(),
                    forall|j: int| 0 <= j < i ==> (#[trigger] items@[j]).field(".id"@) is Some,
                decreases items@.len() - i,
            {
                if items[i].get(".id").is_none() {
                    return false;
                }
                i = i + 1;
            }
            true
        },
    }
}

/// The address of a REST resource of a router, credentials included:
/// `https://<username>:<password>@<address>:<port>/<path>`.
pub open spec fn resource_url(username: Seq<char>, password: Seq<char>, address: Seq<char>, port: u16, path: Seq<char>) -> Seq<char> {
    "https://"@ + username + seq![':'] + password + seq!['@'] + address + seq![':'] + decimal(port as nat) + seq!['/'] + path
}

/// The address of a REST resource of a router, credentials included.
pub fn request_url(username: &str, password: &str, address: &str, port: u16, path: &str) -> (r: String)
    ensures
        r@ == resource_url(username@, password@, address@, port, path@),
{
    let mut r = String::new();
    r.append("https://");
    r.append(username);
    r.push(':');
    r.append(password);
    r.push('@');
    r.append(address);
    r.push(':');
    let p = decimal_text(port as u64);
    r.append(p.as_str());
    r.push('/');
    r.append(path);
    r
}

/// `t` occurs in `s` as a contiguous piece.
pub open spec fn contains_text(s: Seq<char>, t: Seq<char>) -> bool {
    exists|i: int| 0 <= i && i + t.len() <= s.len() && #[trigger] s.subrange(i, i + t.len()) == t
}

/// A piece of `s` is a piece of any text that holds `s`.
pub proof fn lemma_contains_within(x: Seq<char>, s: Seq<char>, y: Seq<char>, t: Seq<char>)
    requires
        contains_text(s, t),
    ensures
        contains_text(x + s + y, t),
{
    let i = choose|i: int| 0 <= i && i + t.len() <= s.len() && #[trigger] s.subrange(i, i + t.len()) == t;
    let j = x.len() + i;
    assert((x + s + y).subrange(j, j + t.len()) =~= s.subrange(i, i + t.len()));
}

/// Every metric block holds its sample line, with its name, labels and value.
pub proof fn lemma_block_has_line(
    prefix: Seq<char>,
    name: Seq<char>,
    value: Seq<char>,
    labels: Seq<char>,
    metric_type: Seq<char>,
    help: Seq<char>,
    unit: Seq<char>,
    supress_preamble: bool,
)
    ensures
        contains_text(
            metric_block(prefix, name, value, labels, metric_type, help, unit, supress_preamble),
            metric_line(prefix, name, labels, value),
        ),
{
    let b = metric_block(prefix, name, value, labels, metric_type, help, unit, supress_preamble);
    let l = metric_line(prefix, name, labels, value);
    assert(b.subrange(b.len() - l.len(), b.len() - l.len() + l.len()) =~= l);
}

/// A piece of any of 5 texts is a piece of their concatenation.
pub proof fn lemma_contains_in_sum5(a0: Seq<char>, a1: Seq<char>, a2: Seq<char>, a3: Seq<char>, a4: Seq<char>, t: Seq<char>)
    ensures
        contains_text(a0, t) ==> contains_text(a0 + a1 + a2 + a3 + a4, t),
        contains_text(a1, t) ==> contains_text(a0 + a1 + a2 + a3 + a4, t),
        contains_text(a2, t) ==> contains_text(a0 + a1 + a2 + a3 + a4, t),
        contains_text(a3, t) ==> contains_text(a0 + a1 + a2 + a3 + a4, t),
        contains_text(a4, t) ==> contains_text(a0 + a1 + a2 + a3 + a4, t),
{
    if contains_text(a0, t) {
        lemma_contains_within(Seq::<char>::empty(), a0, a1 + a2 + a3 + a4, t);
        assert(a0 + a1 + a2 + a3 + a4 =~= (Seq::<char>::empty()) + a0 + (a1 + a2 + a3 + a4));
    }
    if contains_text(a1, t) {
        lemma_contains_within(a0, a1, a2 + a3 + a4, t);
        assert(a0 + a1 + a2 + a3 + a4 =~= (a0) + a1 + (a2 + a3 + a4));
    }
    if contains_text(a2, t) {
        lemma_contains_within(a0 + a1, a2, a3 + a4, t);
        assert(a0 + a1 + a2 + a3 + a4 =~= (a0 + a1) + a2 + (a3 + a4));
    }
    if contains_text(a3, t) {
        lemma_contains_within(a0 + a1 + a2, a3, a4, t);
        assert(a0 + a1 + a2 + a3 + a4 =~= (a0 + a1 + a2) + a3 + (a4));
    }
    if contains_text(a4, t) {
        lemma_contains_within(a0 + a1 + a2 + a3, a4, Seq::<char>::empty(), t);
        assert(a0 + a1 + a2 + a3 + a4 =~= (a0 + a1 + a2 + a3) + a4 + (Seq::<char>::empty()));
    }
}

/// A piece of any of 7 texts is a piece of their concatenation.
pub proof fn lemma_contains_in_sum7(a0: Seq<char>, a1: Seq<char>, a2: Seq<char>, a3: Seq<char>, a4: Seq<char>, a5: Seq<char>, a6: Seq<char>, t: Seq<char>)
    ensures
        contains_text(a0, t) ==> contains_text(a0 + a1 + a2 + a3 + a4 + a5 + a6, t),
        contains_text(a1, t) ==> contains_text(a0 + a1 + a2 + a3 + a4 + a5 + a6, t),
        contains_text(a2, t) ==> contains_text(a0 + a1 + a2 + a3 + a4 + a5 + a6, t),
        contains_text(a3, t) ==> contains_text(a0 + a1 + a2 + a3 + a4 + a5 + a6, t),
        contains_text(a4, t) ==> contains_text(a0 + a1 + a2 + a3 + a4 + a5 + a6, t),
        contains_text(a5, t) ==> contains_text(a0 + a1 + a2 + a3 + a4 + a5 + a6, t),
        contains_text(a6, t) ==> contains_text(a0 + a1 + a2 + a3 + a4 + a5 + a6, t),
{
    if contains_text(a0, t) {
        lemma_contains_within(Seq::<char>::empty(), a0, a1 + a2 + a3 + a4 + a5 + a6, t);
        assert(a0 + a1 + a2 + a3 + a4 + a5 + a6 =~= (Seq::<char>::empty()) + a0 + (a1 + a2 + a3 + a4 + a5 + a6));
    }
    if contains_text(a1, t) {
        lemma_contains_within(a0, a1, a2 + a3 + a4 + a5 + a6, t);
        assert(a0 + a1 + a2 + a3 + a4 + a5 + a6 =~= (a0) + a1 + (a2 + a3 + a4 + a5 + a6));
    }
    if contains_text(a2, t) {
        lemma_contains_within(a0 + a1, a2, a3 + a4 + a5 + a6, t);
        assert(a0 + a1 + a2 + a3 + a4 + a5 + a6 =~= (a0 + a1) + a2 + (a3 + a4 + a5 + a6));
    }
    if contains_text(a3, t) {
        lemma_contains_within(a0 + a1 + a2, a3, a4 + a5 + a6, t);
        assert(a0 + a1 + a2 + a3 + a4 + a5 + a6 =~= (a0 + a1 + a2) + a3 + (a4 + a5 + a6));
    }
    if contains_text(a4, t) {
        lemma_contains_within(a0 + a1 + a2 + a3, a4, a5 + a6, t);
        assert(a0 + a1 + a2 + a3 + a4 + a5 + a6 =~= (a0 + a1 + a2 + a3) + a4 + (a5 + a6));
    }
    if contains_text(a5, t) {
        lemma_contains_within(a0 + a1 + a2 + a3 + a4, a5, a6, t);
        assert(a0 + a1 + a2 + a3 + a4 + a5 + a6 =~= (a0 + a1 + a2 + a3 + a4) + a5 + (a6));
    }
    if contains_text(a6, t) {
        lemma_contains_within(a0 + a1 + a2 + a3 + a4 + a5, a6, Seq::<char>::empty(), t);
        assert(a0 + a1 + a2 + a3 + a4 + a5 + a6 =~= (a0 + a1 + a2 + a3 + a4 + a5) + a6 + (Seq::<char>::empty()));
    }
}

/// A piece of any of 11 texts is a piece of their concatenation.
pub proof fn lemma_contains_in_sum11(a0: Seq<char>, a1: Seq<char>, a2: Seq<char>, a3: Seq<char>, a4: Seq<char>, a5: Seq<char>, a6: Seq<char>, a7: Seq<char>, a8: Seq<char>, a9: Seq<char>, a10: Seq<char>, t: Seq<char>)
    ensures
        contains_text(a0, t) ==> contains_text(a0 + a1 + a2 + a3 + a4 + a5 + a6 + a7 + a8 + a9 + a10, t),
        contains_text(a1, t) ==> contains_text(a0 + a1 + a2 + a3 + a4 + a5 + a6 + a7 + a8 + a9 + a10, t),
        contains_text(a2, t) ==> contains_text(a0 + a1 + a2 + a3 + a4 + a5 + a6 + a7 + a8 + a9 + a10, t),
        contains_text(a3, t) ==> contains_text(a0 + a1 + a2 + a3 + a4 + a5 + a6 + a7 + a8 + a9 + a10, t),
        contains_text(a4, t) ==> contains_text(a0 + a1 + a2 + a3 + a4 + a5 + a6 + a7 + a8 + a9 + a10, t),
        contains_text(a5, t) ==> contains_text(a0 + a1 + a2 + a3 + a4 + a5 + a6 + a7 + a8 + a9 + a10, t),
        contains_text(a6, t) ==> contains_text(a0 + a1 + a2 + a3 + a4 + a5 + a6 + a7 + a8 + a9 + a10, t),
        contains_text(a7, t) ==> contains_text(a0 + a1 + a2 + a3 + a4 + a5 + a6 + a7 + a8 + a9 + a10, t),
        contains_text(a8, t) ==> contains_text(a0 + a1 + a2 + a3 + a4 + a5 + a6 + a7 + a8 + a9 + a10, t),
        contains_text(a9, t) ==> contains_text(a0 + a1 + a2 + a3 + a4 + a5 + a6 + a7 + a8 + a9 + a10, t),
        contains_text(a10, t) ==> contains_text(a0 + a1 + a2 + a3 + a4 + a5 + a6 + a7 + a8 + a9 + a10, t),
{
    lemma_contains_in_sum7(a0, a1, a2, a3, a4, a5, a6, t);
    lemma_contains_in_sum5(a0 + a1 + a2 + a3 + a4 + a5 + a6, a7, a8, a9, a10, t);
}

} // verus!
