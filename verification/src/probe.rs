//! What a `/probe` request asks for: which router, with which credentials,
//! and which collectors to run.

use vstd::prelude::*;
use crate::configuration::{Collectors, RouterConfiguration, Settings};
use crate::text::{chars_of, same_text};

verus! {

/// A collector that a probe can run.
#[derive(Clone, Copy, Debug, PartialEq, Eq, Structural)]
pub enum CollectorKind {
    Interfaces,
    InterfacesMonitor,
    InterfacesPoe,
    IpFirewallFilter,
    IpFirewallNat,
    IpFirewallMangle,
    IpFirewallRaw,
}

/// The outcome of a probe request: the router and credentials to use, the
/// collectors in effect, and the collectors to run, in order.
#[derive(Debug)]
pub struct ProbePlan {
    pub username: String,
    pub password: String,
    pub address: String,
    pub port: u16,
    pub check_ssl: bool,
    pub collectors: Collectors,
    pub tasks: Vec<CollectorKind>,
}

/// The value of the last query parameter named `key`.
pub open spec fn last_value(q: Seq<(String, String)>, key: Seq<char>) -> Option<Seq<char>>
    decreases q.len(),
{
    if q.len() == 0 {
        None
    } else if q.last().0@ == key {
        Some(q.last().1@)
    } else {
        last_value(q.drop_last(), key)
    }
}

/// Some query parameter is named `key`.
pub open spec fn has_key(q: Seq<(String, String)>, key: Seq<char>) -> bool {
    exists|i: int| 0 <= i < q.len() && (#[trigger] q[i]).0@ == key
}

/// Some query parameter asks for the collector `name` (`collectors=<name>`).
pub open spec fn asked_for(q: Seq<(String, String)>, name: Seq<char>) -> bool {
    exists|i: int| 0 <= i < q.len() && (#[trigger] q[i]).0@ == "collectors"@ && q[i].1@ == name
}

/// The router address that a probe is for: the last `target` parameter,
/// else the default address.
pub open spec fn target(settings: Settings, q: Seq<(String, String)>) -> Seq<char> {
    match last_value(q, "target"@) {
        Some(a) => a,
        None => settings.defaults.address@,
    }
}

/// The last router in `insts` whose address is `address`.
pub open spec fn matching_instance(insts: Seq<RouterConfiguration>, address: Seq<char>) -> Option<int>
    decreases insts.len(),
{
    if insts.len() == 0 {
        None
    } else if insts.last().address@ == address {
        Some(insts.len() - 1)
    } else {
        matching_instance(insts.drop_last(), address)
    }
}

/// The configuration whose credentials, port and certificate check a probe
/// uses: that of the last configured router whose address is the target,
/// else the defaults.
pub open spec fn chosen(settings: Settings, q: Seq<(String, String)>) -> RouterConfiguration {
    match settings.instances {
        Some(insts) => match matching_instance(insts@, target(settings, q)) {
            Some(j) => insts@[j],
            None => settings.defaults,
        },
        None => settings.defaults,
    }
}

/// `over` where it is set, else `under`.
pub open spec fn pick(over: Option<bool>, under: Option<bool>) -> Option<bool> {
    if over is Some {
        over
    } else {
        under
    }
}

/// A router's collectors table laid over the default collectors, switch by
/// switch: each switch that the router's table sets wins, every other switch
/// keeps its default. A router without a table keeps the defaults.
pub open spec fn merged(table: Option<Collectors>, defaults: Collectors) -> Collectors {
    match table {
        None => defaults,
        Some(c) => Collectors {
            ip_firewall: pick(c.ip_firewall, defaults.ip_firewall),
            ip_firewall_filter: pick(c.ip_firewall_filter, defaults.ip_firewall_filter),
            ip_firewall_nat: pick(c.ip_firewall_nat, defaults.ip_firewall_nat),
            ip_firewall_mangle: pick(c.ip_firewall_mangle, defaults.ip_firewall_mangle),
            ip_firewall_raw: pick(c.ip_firewall_raw, defaults.ip_firewall_raw),
            ip_firewall_conntrack: pick(c.ip_firewall_conntrack, defaults.ip_firewall_conntrack),
            health: pick(c.health, defaults.health),
            resources: pick(c.resources, defaults.resources),
            interfaces: pick(c.interfaces, defaults.interfaces),
            interfaces_poe: pick(c.interfaces_poe, defaults.interfaces_poe),
            interfaces_monitor: pick(c.interfaces_monitor, defaults.interfaces_monitor),
        },
    }
}

/// The configured collectors of a probe: the default collectors, with the
/// collectors table of the router chosen for the target (if any) laid over them.
pub open spec fn base_collectors(settings: Settings, q: Seq<(String, String)>) -> Collectors {
    let defaults = settings.defaults.collectors.unwrap();
    match settings.instances {
        Some(insts) => match matching_instance(insts@, target(settings, q)) {
            Some(j) => merged(insts@[j].collectors, defaults),
            None => defaults,
        },
        None => defaults,
    }
}

/// The collectors in effect: those of `base`, with each that the query asks
/// for turned on. The query cannot ask for `ip_firewall_raw` or
/// `ip_firewall_conntrack`, nor turn any collector off.
pub open spec fn with_query(base: Collectors, q: Seq<(String, String)>) -> Collectors {
    Collectors {
        ip_firewall: if asked_for(q, "ip_firewall"@) { Some(true) } else { base.ip_firewall },
        ip_firewall_filter: if asked_for(q, "ip_firewall_filter"@) { Some(true) } else { base.ip_firewall_filter },
        ip_firewall_nat: if asked_for(q, "ip_firewall_nat"@) { Some(true) } else { base.ip_firewall_nat },
        ip_firewall_mangle: if asked_for(q, "ip_firewall_mangle"@) { Some(true) } else { base.ip_firewall_mangle },
        ip_firewall_raw: base.ip_firewall_raw,
        ip_firewall_conntrack: base.ip_firewall_conntrack,
        health: if asked_for(q, "health"@) { Some(true) } else { base.health },
        resources: if asked_for(q, "resources"@) { Some(true) } else { base.resources },
        interfaces: if asked_for(q, "interfaces"@) { Some(true) } else { base.interfaces },
        interfaces_poe: if asked_for(q, "interfaces_poe"@) { Some(true) } else { base.interfaces_poe },
        interfaces_monitor: if asked_for(q, "interfaces_monitor"@) { Some(true) } else { base.interfaces_monitor },
    }
}

/// `kind` where `run` holds, nothing otherwise.
pub open spec fn run_if(run: bool, kind: CollectorKind) -> Seq<CollectorKind> {
    if run {
        seq![kind]
    } else {
        Seq::empty()
    }
}

/// The collectors to run for `c`, in order: interfaces, monitor and PoE where
/// enabled; then, only where `ip_firewall` is enabled, each enabled firewall
/// collector (filter, nat, mangle, raw).
pub open spec fn planned(c: Collectors) -> Seq<CollectorKind> {
    let fw = c.ip_firewall == Some(true);
    run_if(c.interfaces == Some(true), CollectorKind::Interfaces)
        + run_if(c.interfaces_monitor == Some(true), CollectorKind::InterfacesMonitor)
        + run_if(c.interfaces_poe == Some(true), CollectorKind::InterfacesPoe)
        + run_if(fw && c.ip_firewall_filter == Some(true), CollectorKind::IpFirewallFilter)
        + run_if(fw && c.ip_firewall_nat == Some(true), CollectorKind::IpFirewallNat)
        + run_if(fw && c.ip_firewall_mangle == Some(true), CollectorKind::IpFirewallMangle)
        + run_if(fw && c.ip_firewall_raw == Some(true), CollectorKind::IpFirewallRaw)
}

/// The value of a string of decimal digits.
pub open spec fn digits_value(s: Seq<char>) -> nat
    decreases s.len(),
{
    if s.len() == 0 {
        0
    } else {
        digits_value(s.drop_last()) * 10 + ((s.last() as nat) - 48) as nat
    }
}

/// Every character of `s` is an ASCII decimal digit.
pub open spec fn all_digits(s: Seq<char>) -> bool {
    forall|i: int| 0 <= i < s.len() ==> '0' <= #[trigger] s[i] <= '9'
}

/// `s` read as a `u16`, as `str::parse::<u16>` reads it: an optional `+`,
/// then one or more decimal digits, with a value below 65536.
pub open spec fn parsed_u16(s: Seq<char>) -> Option<u16> {
    let d = if s.len() > 0 && s[0] == '+' { s.skip(1) } else { s };
    if d.len() == 0 || !all_digits(d) || digits_value(d) > 65535 {
        None
    } else {
        Some(digits_value(d) as u16)
    }
}

/// Every `port` parameter of the query reads as a port number.
pub open spec fn ports_parse(q: Seq<(String, String)>) -> bool {
    forall|i: int| 0 <= i < q.len() && (#[trigger] q[i]).0@ == "port"@ ==> parsed_u16(q[i].1@) is Some
}

/// What a probe needs of the settings and the query: default collectors, and
/// port parameters that read as numbers.
pub open spec fn probe_ok(settings: Settings, q: Seq<(String, String)>) -> bool {
    &&& settings.defaults.collectors is Some
    &&& ports_parse(q)
}

/// Reads `s` as a `u16` as `str::parse::<u16>` does.
pub fn parse_u16(s: &str) -> (r: Option<u16>)
    ensures
        r == parsed_u16(s@),
{
    let v = chars_of(s);
    let start: usize = if v.len() > 0 && v[0] == '+' { 1 } else { 0 };
    let ghost d = if s@.len() > 0 && s@[0] == '+' { s@.skip(1) } else { s@ };
    assert(d == v@.skip(start as int));
    if start >= v.len() {
        return None;
    }
    let mut i: usize = start;
    let mut acc: u32 = 0;
    while i < v.len()
        invariant
            v@ == s@,
            d == (if s@.len() > 0 && s@[0] == '+' { s@.skip(1) } else { s@ }),
            d == v@.skip(start as int),
            start <= i <= v@.len(),
            all_digits(v@.subrange(start as int, i as int)),
            acc as nat == if digits_value(v@.subrange(start as int, i as int)) > 65536 {
                65536
            } else {
                digits_value(v@.subrange(start as int, i as int))
            },
        decreases v@.len() - i,
    {
        let c = v[i];
        if c < '0' || c > '9' {
            assert(d[i - start] == v@[i as int]);
            assert(!('0' <= d[i - start] <= '9'));
            assert(!all_digits(d));
            return None;
        }
        let dig = (c as u32) - 48;
        let ghost before = v@.subrange(start as int, i as int);
        let ghost after = v@.subrange(start as int, i + 1);
        assert(after.drop_last() == before);
        assert(after.last() == c);
        assert(all_digits(after)) by {
            assert forall|k: int| 0 <= k < after.len() implies '0' <= #[trigger] after[k] <= '9' by {
                if k < before.len() {
                    assert(after[k] == before[k]);
                }
            }
        }
        if acc >= 65536 {
            assert(digits_value(after) >= digits_value(before) * 10);
            acc = 65536;
        } else {
            let next = acc * 10 + dig;
            acc = if next > 65536 { 65536 } else { next };
        }
        i = i + 1;
    }
    assert(v@.subrange(start as int, v@.len() as int) == d);
    if acc > 65535 {
        None
    } else {
        Some(acc as u16)
    }
}

proof fn lemma_last_value_step(q: Seq<(String, String)>, i: int, key: Seq<char>)
    requires
        0 <= i < q.len(),
    ensures
        last_value(q.take(i + 1), key) == if q[i].0@ == key {
            Some(q[i].1@)
        } else {
            last_value(q.take(i), key)
        },
{
    assert(q.take(i + 1).drop_last() == q.take(i));
    assert(q.take(i + 1).last() == q[i]);
}

proof fn lemma_asked_step(q: Seq<(String, String)>, i: int, name: Seq<char>)
    requires
        0 <= i < q.len(),
    ensures
        asked_for(q.take(i + 1), name) == (asked_for(q.take(i), name) || (q[i].0@ == "collectors"@ && q[i].1@ == name)),
{
    let a = q.take(i + 1);
    let b = q.take(i);
    if asked_for(b, name) {
        let k = choose|k: int| 0 <= k < b.len() && (#[trigger] b[k]).0@ == "collectors"@ && b[k].1@ == name;
        assert(a[k] == b[k]);
    }
    if q[i].0@ == "collectors"@ && q[i].1@ == name {
        assert(a[i] == q[i]);
    }
    if asked_for(a, name) {
        let k = choose|k: int| 0 <= k < a.len() && (#[trigger] a[k]).0@ == "collectors"@ && a[k].1@ == name;
        if k < i {
            assert(b[k] == a[k]);
        }
    }
}

proof fn lemma_has_key_step(q: Seq<(String, String)>, i: int, key: Seq<char>)
    requires
        0 <= i < q.len(),
    ensures
        has_key(q.take(i + 1), key) == (has_key(q.take(i), key) || q[i].0@ == key),
{
    let a = q.take(i + 1);
    let b = q.take(i);
    if has_key(b, key) {
        let k = choose|k: int| 0 <= k < b.len() && (#[trigger] b[k]).0@ == key;
        assert(a[k] == b[k]);
    }
    if q[i].0@ == key {
        assert(a[i] == q[i]);
    }
    if has_key(a, key) {
        let k = choose|k: int| 0 <= k < a.len() && (#[trigger] a[k]).0@ == key;
        if k < i {
            assert(b[k] == a[k]);
        }
    }
}

proof fn lemma_with_query_step(base: Collectors, q: Seq<(String, String)>, i: int)
    requires
        0 <= i < q.len(),
    ensures
        with_query(base, q.take(i + 1)) == (if q[i].0@ == "collectors"@ {
            let c = with_query(base, q.take(i));
            let v = q[i].1@;
            Collectors {
                ip_firewall: if v == "ip_firewall"@ { Some(true) } else { c.ip_firewall },
                ip_firewall_filter: if v == "ip_firewall_filter"@ { Some(true) } else { c.ip_firewall_filter },
                ip_firewall_nat: if v == "ip_firewall_nat"@ { Some(true) } else { c.ip_firewall_nat },
                ip_firewall_mangle: if v == "ip_firewall_mangle"@ { Some(true) } else { c.ip_firewall_mangle },
                ip_firewall_raw: c.ip_firewall_raw,
                ip_firewall_conntrack: c.ip_firewall_conntrack,
                health: if v == "health"@ { Some(true) } else { c.health },
                resources: if v == "resources"@ { Some(true) } else { c.resources },
                interfaces: if v == "interfaces"@ { Some(true) } else { c.interfaces },
                interfaces_poe: if v == "interfaces_poe"@ { Some(true) } else { c.interfaces_poe },
                interfaces_monitor: if v == "interfaces_monitor"@ { Some(true) } else { c.interfaces_monitor },
            }
        } else {
            with_query(base, q.take(i))
        }),
{
    lemma_asked_step(q, i, "ip_firewall"@);
    lemma_asked_step(q, i, "ip_firewall_filter"@);
    lemma_asked_step(q, i, "ip_firewall_nat"@);
    lemma_asked_step(q, i, "ip_firewall_mangle"@);
    lemma_asked_step(q, i, "health"@);
    lemma_asked_step(q, i, "resources"@);
    lemma_asked_step(q, i, "interfaces"@);
    lemma_asked_step(q, i, "interfaces_poe"@);
    lemma_asked_step(q, i, "interfaces_monitor"@);
}

/// The collectors `c` with those that the query parameter `(key, value)` asks for turned on.
fn apply_parameter(c: Collectors, key: &str, value: &str) -> (r: Collectors)
    ensures
        r == (if key@ == "collectors"@ {
            let v = value@;
            Collectors {
                ip_firewall: if v == "ip_firewall"@ { Some(true) } else { c.ip_firewall },
                ip_firewall_filter: if v == "ip_firewall_filter"@ { Some(true) } else { c.ip_firewall_filter },
                ip_firewall_nat: if v == "ip_firewall_nat"@ { Some(true) } else { c.ip_firewall_nat },
                ip_firewall_mangle: if v == "ip_firewall_mangle"@ { Some(true) } else { c.ip_firewall_mangle },
                ip_firewall_raw: c.ip_firewall_raw,
                ip_firewall_conntrack: c.ip_firewall_conntrack,
                health: if v == "health"@ { Some(true) } else { c.health },
                resources: if v == "resources"@ { Some(true) } else { c.resources },
                interfaces: if v == "interfaces"@ { Some(true) } else { c.interfaces },
                interfaces_poe: if v == "interfaces_poe"@ { Some(true) } else { c.interfaces_poe },
                interfaces_monitor: if v == "interfaces_monitor"@ { Some(true) } else { c.interfaces_monitor },
            }
        } else {
            c
        }),
{
    let mut r = c;
    if same_text(key, "collectors") {
        if same_text(value, "ip_firewall") {
            r.ip_firewall = Some(true);
        }
        if same_text(value, "ip_firewall_filter") {
            r.ip_firewall_filter = Some(true);
        }
        if same_text(value, "ip_firewall_nat") {
            r.ip_firewall_nat = Some(true);
        }
        if same_text(value, "ip_firewall_mangle") {
            r.ip_firewall_mangle = Some(true);
        }
        if same_text(value, "health") {
            r.health = Some(true);
        }
        if same_text(value, "resources") {
            r.resources = Some(true);
        }
        if same_text(value, "interfaces") {
            r.interfaces = Some(true);
        }
        if same_text(value, "interfaces_poe") {
            r.interfaces_poe = Some(true);
        }
        if same_text(value, "interfaces_monitor") {
            r.interfaces_monitor = Some(true);
        }
    }
    r
}

/// Is the collector switch on?
fn on(o: Option<bool>) -> (r: bool)
    ensures
        r == (o == Some(true)),
{
    match o {
        Some(b) => b,
        None => false,
    }
}

/// Appends `kind` where `run` holds.
fn push_if(r: &mut Vec<CollectorKind>, run: bool, kind: CollectorKind)
    ensures
        final(r)@ == old(r)@ + run_if(run, kind),
{
    if run {
        r.push(kind);
    } else {
        assert(old(r)@ + Seq::<CollectorKind>::empty() == old(r)@);
    }
}

/// The collectors to run for `c`, in order.
pub fn plan_tasks(c: &Collectors) -> (r: Vec<CollectorKind>)
    ensures
        r@ == planned(*c),
{
    let fw = on(c.ip_firewall);
    let mut r: Vec<CollectorKind> = Vec::new();
    push_if(&mut r, on(c.interfaces), CollectorKind::Interfaces);
    push_if(&mut r, on(c.interfaces_monitor), CollectorKind::InterfacesMonitor);
    push_if(&mut r, on(c.interfaces_poe), CollectorKind::InterfacesPoe);
    push_if(&mut r, fw && on(c.ip_firewall_filter), CollectorKind::IpFirewallFilter);
    push_if(&mut r, fw && on(c.ip_firewall_nat), CollectorKind::IpFirewallNat);
    push_if(&mut r, fw && on(c.ip_firewall_mangle), CollectorKind::IpFirewallMangle);
    push_if(&mut r, fw && on(c.ip_firewall_raw), CollectorKind::IpFirewallRaw);
    assert(Seq::<CollectorKind>::empty() + run_if(c.interfaces == Some(true), CollectorKind::Interfaces)
        == run_if(c.interfaces == Some(true), CollectorKind::Interfaces));
    r
}

/// `over` where it is set, else `under`.
fn pick_switch(over: Option<bool>, under: Option<bool>) -> (r: Option<bool>)
    ensures
        r == pick(over, under),
{
    match over {
        Some(b) => Some(b),
        None => under,
    }
}

/// A router's collectors table laid over the default collectors, switch by switch.
pub fn merge_collectors(table: Option<Collectors>, defaults: Collectors) -> (r: Collectors)
    ensures
        r == merged(table, defaults),
{
    match table {
        None => defaults,
        Some(c) => Collectors {
            ip_firewall: pick_switch(c.ip_firewall, defaults.ip_firewall),
            ip_firewall_filter: pick_switch(c.ip_firewall_filter, defaults.ip_firewall_filter),
            ip_firewall_nat: pick_switch(c.ip_firewall_nat, defaults.ip_firewall_nat),
            ip_firewall_mangle: pick_switch(c.ip_firewall_mangle, defaults.ip_firewall_mangle),
            ip_firewall_raw: pick_switch(c.ip_firewall_raw, defaults.ip_firewall_raw),
            ip_firewall_conntrack: pick_switch(c.ip_firewall_conntrack, defaults.ip_firewall_conntrack),
            health: pick_switch(c.health, defaults.health),
            resources: pick_switch(c.resources, defaults.resources),
            interfaces: pick_switch(c.interfaces, defaults.interfaces),
            interfaces_poe: pick_switch(c.interfaces_poe, defaults.interfaces_poe),
            interfaces_monitor: pick_switch(c.interfaces_monitor, defaults.interfaces_monitor),
        },
    }
}

/// No collector switched on.
fn no_collectors() -> (r: Collectors) {
    Collectors {
        ip_firewall: None,
        ip_firewall_filter: None,
        ip_firewall_nat: None,
        ip_firewall_mangle: None,
        ip_firewall_raw: None,
        ip_firewall_conntrack: None,
        health: None,
        resources: None,
        interfaces: None,
        interfaces_poe: None,
        interfaces_monitor: None,
    }
}

/// The router address of a probe: the last `target` parameter, else the default.
fn probe_target<'a>(settings: &'a Settings, query: &'a Vec<(String, String)>) -> (r: &'a str)
    ensures
        r@ == target(*settings, query@),
{
    let mut address: &str = settings.defaults.address.as_str();
    let mut i: usize = 0;
    while i < query.len()
        invariant
            i <= query@.len(),
            address@ == match last_value(query@.take(i as int), "target"@) {
                Some(a) => a,
                None => settings.defaults.address@,
            },
        decreases query@.len() - i,
    {
        proof {
            lemma_last_value_step(query@, i as int, "target"@);
        }
        if same_text(query[i].0.as_str(), "target") {
            address = query[i].1.as_str();
        }
        i = i + 1;
    }
    assert(query@.take(query@.len() as int) == query@);
    address
}

proof fn lemma_matching_instance(insts: Seq<RouterConfiguration>, address: Seq<char>)
    ensures
        matching_instance(insts, address) matches Some(j) ==> 0 <= j < insts.len() && insts[j].address@ == address,
    decreases insts.len(),
{
    if insts.len() > 0 {
        lemma_matching_instance(insts.drop_last(), address);
    }
}

/// The index of the last router in `insts` whose address is `address`.
fn find_instance(insts: &Vec<RouterConfiguration>, address: &str) -> (r: Option<usize>)
    ensures
        r matches Some(j) ==> matching_instance(insts@, address@) == Some(j as int) && j < insts@.len(),
        r is None ==> matching_instance(insts@, address@) is None,
{
    let mut found: Option<usize> = None;
    let mut i: usize = 0;
    while i < insts.len()
        invariant
            i <= insts@.len(),
            found matches Some(j) ==> matching_instance(insts@.take(i as int), address@) == Some(j as int) && j < i,
            found is None ==> matching_instance(insts@.take(i as int), address@) is None,
        decreases insts@.len() - i,
    {
        assert(insts@.take(i + 1).drop_last() == insts@.take(i as int));
        assert(insts@.take(i + 1).last() == insts@[i as int]);
        if same_text(insts[i].address.as_str(), address) {
            found = Some(i);
        }
        i = i + 1;
    }
    assert(insts@.take(insts@.len() as int) == insts@);
    found
}

/// Decides what a `/probe` request asks for. The router is the last `target`
/// parameter (else the default address); its credentials, port and
/// certificate check are those of the last configured router with that
/// address, else the defaults; its collectors are the defaults with that
/// router's collectors table (if it has one) laid over them switch by switch. Then each `collectors=<name>` parameter turns
/// a collector on, any `check_ssl` parameter turns the certificate check on,
/// and the last `port` parameter sets the port. The collectors to run follow
/// from the collectors in effect.
pub fn probe_plan(settings: &Settings, query: &Vec<(String, String)>) -> (r: ProbePlan)
    requires
        probe_ok(*settings, query@),
    ensures
        r.address@ == target(*settings, query@),
        r.username@ == chosen(*settings, query@).username@,
        r.password@ == chosen(*settings, query@).password@,
        r.check_ssl == (chosen(*settings, query@).check_ssl || has_key(query@, "check_ssl"@)),
        r.port == match last_value(query@, "port"@) {
            Some(p) => parsed_u16(p).unwrap(),
            None => chosen(*settings, query@).port,
        },
        r.collectors == with_query(base_collectors(*settings, query@), query@),
        r.tasks@ == planned(r.collectors),
{
    let address = probe_target(settings, query);
    let defaults = match settings.defaults.collectors {
        Some(c) => c,
        None => no_collectors(),
    };
    let (chosen_config, base): (&RouterConfiguration, Collectors) = match &settings.instances {
        Some(insts) => match find_instance(insts, address) {
            Some(j) => (&insts[j], merge_collectors(insts[j].collectors, defaults)),
            None => (&settings.defaults, defaults),
        },
        None => (&settings.defaults, defaults),
    };
    assert(*chosen_config == chosen(*settings, query@));
    assert(base == base_collectors(*settings, query@));
    let mut c = base;
    let mut check_ssl = chosen_config.check_ssl;
    let mut port = chosen_config.port;
    let mut i: usize = 0;
    assert(query@.take(0) == Seq::<(String, String)>::empty());
    assert(with_query(base, query@.take(0)) == base);
    while i < query.len()
        invariant
            ports_parse(query@),
            i <= query@.len(),
            c == with_query(base, query@.take(i as int)),
            check_ssl == (chosen_config.check_ssl || has_key(query@.take(i as int), "check_ssl"@)),
            port == match last_value(query@.take(i as int), "port"@) {
                Some(p) => parsed_u16(p).unwrap(),
                None => chosen_config.port,
            },
        decreases query@.len() - i,
    {
        proof {
            lemma_with_query_step(base, query@, i as int);
            lemma_has_key_step(query@, i as int, "check_ssl"@);
            lemma_last_value_step(query@, i as int, "port"@);
        }
        let key = query[i].0.as_str();
        let value = query[i].1.as_str();
        c = apply_parameter(c, key, value);
        if same_text(key, "check_ssl") {
            check_ssl = true;
        }
        if same_text(key, "port") {
            assert(parsed_u16(query@[i as int].1@) is Some);
            match parse_u16(value) {
                Some(p) => {
                    port = p;
                },
                None => {},
            }
        }
        i = i + 1;
    }
    assert(query@.take(query@.len() as int) == query@);
    let tasks = plan_tasks(&c);
    ProbePlan {
        username: chosen_config.username.clone(),
        password: chosen_config.password.clone(),
        address: String::from_str(address),
        port,
        check_ssl,
        collectors: c,
        tasks,
    }
}

/// The body of a probe response: each collector's text followed by a newline.
pub open spec fn response_body(results: Seq<String>) -> Seq<char>
    decreases results.len(),
{
    if results.len() == 0 {
        Seq::empty()
    } else {
        response_body(results.drop_last()) + results.last()@ + seq!['\n']
    }
}

/// The body of a probe response, from the collectors' texts in the order
/// in which they were gathered.
pub fn probe_response(results: &Vec<String>) -> (r: String)
    ensures
        r@ == response_body(results@),
{
    let mut r = String::new();
    let mut i: usize = 0;
    while i < results.len()
        invariant
            i <= results@.len(),
            r@ == response_body(results@.take(i as int)),
        decreases results@.len() - i,
    {
        r.append(results[i].as_str());
        r.push('\n');
        assert(results@.take(i + 1).drop_last() == results@.take(i as int));
        i = i + 1;
    }
    assert(results@.take(results@.len() as int) == results@);
    r
}

/// The firewall collectors run only where `ip_firewall` is on: without it,
/// only the interface, monitor and PoE collectors can run. With it, each
/// firewall collector runs where its own switch is on.
pub proof fn lemma_firewall_gate(c: Collectors)
    ensures
        c.ip_firewall != Some(true) ==> planned(c) == run_if(c.interfaces == Some(true), CollectorKind::Interfaces)
            + run_if(c.interfaces_monitor == Some(true), CollectorKind::InterfacesMonitor)
            + run_if(c.interfaces_poe == Some(true), CollectorKind::InterfacesPoe),
        c.ip_firewall == Some(true) ==> planned(c) == run_if(c.interfaces == Some(true), CollectorKind::Interfaces)
            + run_if(c.interfaces_monitor == Some(true), CollectorKind::InterfacesMonitor)
            + run_if(c.interfaces_poe == Some(true), CollectorKind::InterfacesPoe)
            + run_if(c.ip_firewall_filter == Some(true), CollectorKind::IpFirewallFilter)
            + run_if(c.ip_firewall_nat == Some(true), CollectorKind::IpFirewallNat)
            + run_if(c.ip_firewall_mangle == Some(true), CollectorKind::IpFirewallMangle)
            + run_if(c.ip_firewall_raw == Some(true), CollectorKind::IpFirewallRaw),
{
    let s123 = run_if(c.interfaces == Some(true), CollectorKind::Interfaces)
        + run_if(c.interfaces_monitor == Some(true), CollectorKind::InterfacesMonitor)
        + run_if(c.interfaces_poe == Some(true), CollectorKind::InterfacesPoe);
    if c.ip_firewall != Some(true) {
        let e = Seq::<CollectorKind>::empty();
        assert(s123 + e + e + e + e =~= s123);
    }
}

/// A query can only turn collectors on: every collector switched on in the
/// configuration stays on, and `ip_firewall_raw` and `ip_firewall_conntrack`
/// are as configured.
pub proof fn lemma_query_only_enables(base: Collectors, q: Seq<(String, String)>)
    ensures
        base.ip_firewall == Some(true) ==> with_query(base, q).ip_firewall == Some(true),
        base.ip_firewall_filter == Some(true) ==> with_query(base, q).ip_firewall_filter == Some(true),
        base.ip_firewall_nat == Some(true) ==> with_query(base, q).ip_firewall_nat == Some(true),
        base.ip_firewall_mangle == Some(true) ==> with_query(base, q).ip_firewall_mangle == Some(true),
        base.health == Some(true) ==> with_query(base, q).health == Some(true),
        base.resources == Some(true) ==> with_query(base, q).resources == Some(true),
        base.interfaces == Some(true) ==> with_query(base, q).interfaces == Some(true),
        base.interfaces_poe == Some(true) ==> with_query(base, q).interfaces_poe == Some(true),
        base.interfaces_monitor == Some(true) ==> with_query(base, q).interfaces_monitor == Some(true),
        with_query(base, q).ip_firewall_raw == base.ip_firewall_raw,
        with_query(base, q).ip_firewall_conntrack == base.ip_firewall_conntrack,
{
}

/// A query without parameters leaves the configured collectors as they are.
pub proof fn lemma_empty_query_keeps_collectors(base: Collectors)
    ensures
        with_query(base, Seq::empty()) == base,
{
}

/// A probe for the address of a configured router uses that router's
/// credentials, port and collectors; one for any other address uses the
/// defaults.
pub proof fn lemma_instance_overrides_defaults(settings: Settings, q: Seq<(String, String)>)
    ensures
        (settings.instances matches Some(insts) && exists|j: int|
            0 <= j < insts@.len() && (#[trigger] insts@[j]).address@ == target(settings, q))
            ==> chosen(settings, q).address@ == target(settings, q),
        (settings.instances is None || forall|j: int|
            0 <= j < settings.instances->0@.len() ==> (#[trigger] settings.instances->0@[j]).address@ != target(settings, q))
            ==> chosen(settings, q) == settings.defaults,
{
    if settings.instances is Some {
        let insts = settings.instances->0@;
        lemma_matching_instance(insts, target(settings, q));
        lemma_matching_instance_complete(insts, target(settings, q));
    }
}

proof fn lemma_matching_instance_complete(insts: Seq<RouterConfiguration>, address: Seq<char>)
    ensures
        (exists|j: int| 0 <= j < insts.len() && (#[trigger] insts[j]).address@ == address)
            <==> matching_instance(insts, address) is Some,
    decreases insts.len(),
{
    lemma_matching_instance(insts, address);
    if insts.len() > 0 {
        lemma_matching_instance_complete(insts.drop_last(), address);
        if exists|j: int| 0 <= j < insts.len() && (#[trigger] insts[j]).address@ == address {
            let j = choose|j: int| 0 <= j < insts.len() && (#[trigger] insts[j]).address@ == address;
            if j < insts.len() - 1 {
                assert(insts.drop_last()[j] == insts[j]);
            }
        }
        if matching_instance(insts.drop_last(), address) is Some {
            let j = matching_instance(insts.drop_last(), address)->0;
            lemma_matching_instance(insts.drop_last(), address);
            assert(insts[j] == insts.drop_last()[j]);
        }
    }
}

/// Are the settings and the query as `probe_ok` asks?
pub fn probe_accepted(settings: &Settings, query: &Vec<(String, String)>) -> (r: bool)
    ensures
        r == probe_ok(*settings, query@),
{
    if settings.defaults.collectors.is_none() {
        return false;
    }
    let mut i: usize = 0;
    while i < query.len()
        invariant
            i <= query@.len(),
            forall|k: int| 0 <= k < i && (#[trigger] query@[k]).0@ == "port"@ ==> parsed_u16(query@[k].1@) is Some,
        decreases query@.len() - i,
    {
        if same_text(query[i].0.as_str(), "port") && parse_u16(query[i].1.as_str()).is_none() {
            return false;
        }
        i = i + 1;
    }
    true
}

/// A router's collectors table overrides the defaults only in the switches
/// that it sets: every other switch keeps its default, and a router without
/// a table runs the default collectors.
pub proof fn lemma_collectors_override_by_switch(table: Option<Collectors>, defaults: Collectors)
    ensures
        table is None ==> merged(table, defaults) == defaults,
        table matches Some(c) ==> {
            &&& (c.interfaces is Some ==> merged(table, defaults).interfaces == c.interfaces)
            &&& (c.interfaces is None ==> merged(table, defaults).interfaces == defaults.interfaces)
            &&& (c.interfaces_poe is Some ==> merged(table, defaults).interfaces_poe == c.interfaces_poe)
            &&& (c.interfaces_poe is None ==> merged(table, defaults).interfaces_poe == defaults.interfaces_poe)
            &&& (c.interfaces_monitor is Some ==> merged(table, defaults).interfaces_monitor == c.interfaces_monitor)
            &&& (c.interfaces_monitor is None ==> merged(table, defaults).interfaces_monitor == defaults.interfaces_monitor)
            &&& (c.ip_firewall is Some ==> merged(table, defaults).ip_firewall == c.ip_firewall)
            &&& (c.ip_firewall is None ==> merged(table, defaults).ip_firewall == defaults.ip_firewall)
            &&& (c.ip_firewall_filter is Some ==> merged(table, defaults).ip_firewall_filter == c.ip_firewall_filter)
            &&& (c.ip_firewall_filter is None ==> merged(table, defaults).ip_firewall_filter == defaults.ip_firewall_filter)
            &&& (c.ip_firewall_nat is Some ==> merged(table, defaults).ip_firewall_nat == c.ip_firewall_nat)
            &&& (c.ip_firewall_nat is None ==> merged(table, defaults).ip_firewall_nat == defaults.ip_firewall_nat)
            &&& (c.ip_firewall_mangle is Some ==> merged(table, defaults).ip_firewall_mangle == c.ip_firewall_mangle)
            &&& (c.ip_firewall_mangle is None ==> merged(table, defaults).ip_firewall_mangle == defaults.ip_firewall_mangle)
            &&& (c.ip_firewall_raw is Some ==> merged(table, defaults).ip_firewall_raw == c.ip_firewall_raw)
            &&& (c.ip_firewall_raw is None ==> merged(table, defaults).ip_firewall_raw == defaults.ip_firewall_raw)
            &&& (c.ip_firewall_conntrack is Some ==> merged(table, defaults).ip_firewall_conntrack == c.ip_firewall_conntrack)
            &&& (c.ip_firewall_conntrack is None ==> merged(table, defaults).ip_firewall_conntrack == defaults.ip_firewall_conntrack)
            &&& (c.health is Some ==> merged(table, defaults).health == c.health)
            &&& (c.health is None ==> merged(table, defaults).health == defaults.health)
            &&& (c.resources is Some ==> merged(table, defaults).resources == c.resources)
            &&& (c.resources is None ==> merged(table, defaults).resources == defaults.resources)
        },
{
}

proof fn lemma_matching_is_last(insts: Seq<RouterConfiguration>, address: Seq<char>, j: int)
    requires
        0 <= j < insts.len(),
        insts[j].address@ == address,
        forall|k: int| j < k < insts.len() ==> (#[trigger] insts[k]).address@ != address,
    ensures
        matching_instance(insts, address) == Some(j),
    decreases insts.len(),
{
    if j < insts.len() - 1 {
        assert(insts[insts.len() - 1].address@ != address);
        lemma_matching_is_last(insts.drop_last(), address, j);
        assert(insts.drop_last()[j] == insts[j]);
        assert forall|k: int| j < k < insts.drop_last().len() implies (#[trigger] insts.drop_last()[k]).address@ != address by {
            assert(insts.drop_last()[k] == insts[k]);
        }
    }
}

/// A probe for the address of the last configured router with that address
/// uses that router: its username, password, port and certificate check,
/// and, before any query parameter, the default collectors with each switch
/// that this router's own collectors table sets replaced by the table's value
/// (the defaults as they are where it has no table), whatever the tables of
/// the other routers hold.
pub proof fn lemma_target_router_settings(settings: Settings, q: Seq<(String, String)>, j: int)
    requires
        settings.instances is Some,
        settings.defaults.collectors is Some,
        0 <= j < settings.instances->0@.len(),
        settings.instances->0@[j].address@ == target(settings, q),
        forall|k: int| j < k < settings.instances->0@.len() ==> (#[trigger] settings.instances->0@[k]).address@ != target(settings, q),
    ensures
        ({
            let r = settings.instances->0@[j];
            let d = settings.defaults.collectors->0;
            let b = base_collectors(settings, q);
            &&& chosen(settings, q).username@ == r.username@
            &&& chosen(settings, q).password@ == r.password@
            &&& chosen(settings, q).port == r.port
            &&& chosen(settings, q).check_ssl == r.check_ssl
            &&& (r.collectors is None ==> b == d)
            &&& (r.collectors matches Some(c) ==> {
                &&& b.ip_firewall == (if c.ip_firewall is Some { c.ip_firewall } else { d.ip_firewall })
                &&& b.ip_firewall_filter == (if c.ip_firewall_filter is Some { c.ip_firewall_filter } else { d.ip_firewall_filter })
                &&& b.ip_firewall_nat == (if c.ip_firewall_nat is Some { c.ip_firewall_nat } else { d.ip_firewall_nat })
                &&& b.ip_firewall_mangle == (if c.ip_firewall_mangle is Some { c.ip_firewall_mangle } else { d.ip_firewall_mangle })
                &&& b.ip_firewall_raw == (if c.ip_firewall_raw is Some { c.ip_firewall_raw } else { d.ip_firewall_raw })
                &&& b.ip_firewall_conntrack == (if c.ip_firewall_conntrack is Some { c.ip_firewall_conntrack } else { d.ip_firewall_conntrack })
                &&& b.health == (if c.health is Some { c.health } else { d.health })
                &&& b.resources == (if c.resources is Some { c.resources } else { d.resources })
                &&& b.interfaces == (if c.interfaces is Some { c.interfaces } else { d.interfaces })
                &&& b.interfaces_poe == (if c.interfaces_poe is Some { c.interfaces_poe } else { d.interfaces_poe })
                &&& b.interfaces_monitor == (if c.interfaces_monitor is Some { c.interfaces_monitor } else { d.interfaces_monitor })
            })
        }),
{
    lemma_matching_is_last(settings.instances->0@, target(settings, q), j);
}

/// A switch that the query does not ask for keeps its configured value in the
/// probe: in particular a switch that the target router's table turns off
/// stays off.
pub proof fn lemma_unasked_switch_kept(base: Collectors, q: Seq<(String, String)>)
    ensures
        !asked_for(q, "interfaces_poe"@) ==> with_query(base, q).interfaces_poe == base.interfaces_poe,
        !asked_for(q, "interfaces"@) ==> with_query(base, q).interfaces == base.interfaces,
        !asked_for(q, "interfaces_monitor"@) ==> with_query(base, q).interfaces_monitor == base.interfaces_monitor,
        !asked_for(q, "ip_firewall"@) ==> with_query(base, q).ip_firewall == base.ip_firewall,
{
}

} // verus!
