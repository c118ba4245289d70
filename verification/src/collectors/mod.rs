//! The collectors: each turns one kind of RouterOS reply into metric text.

pub mod helpers;
pub mod interfaces;
pub mod interfaces_monitor;
pub mod interfaces_poe;
pub mod ip_firewall_raw;
