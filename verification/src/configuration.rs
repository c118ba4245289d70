//! The exporter's settings: where to listen, the metric prefix, and the
//! credentials and collectors of each router.

use vstd::prelude::*;

verus! {

/// Where the exporter listens.
#[derive(Clone, Copy, Debug)]
pub struct Server {
    pub port: u16,
}

/// Which collectors run. `ip_firewall` gates the firewall collectors, each of
/// which must be enabled too.
#[derive(Clone, Copy, Debug, PartialEq, Eq, Structural)]
pub struct Collectors {
    pub ip_firewall: Option<bool>,
    pub ip_firewall_filter: Option<bool>,
    pub ip_firewall_nat: Option<bool>,
    pub ip_firewall_mangle: Option<bool>,
    pub ip_firewall_raw: Option<bool>,
    pub ip_firewall_conntrack: Option<bool>,
    pub health: Option<bool>,
    pub resources: Option<bool>,
    pub interfaces: Option<bool>,
    pub interfaces_poe: Option<bool>,
    pub interfaces_monitor: Option<bool>,
}

/// How to reach one router, and what to collect from it.
#[derive(Debug)]
pub struct RouterConfiguration {
    pub username: String,
    pub password: String,
    pub check_ssl: bool,
    pub address: String,
    pub port: u16,
    pub collectors: Option<Collectors>,
}

/// All settings: the server, the metric prefix, the defaults, and the routers
/// that override them.
#[derive(Debug)]
pub struct Settings {
    pub server: Server,
    pub metrics_prefix: String,
    pub defaults: RouterConfiguration,
    pub instances: Option<Vec<RouterConfiguration>>,
}

} // verus!
