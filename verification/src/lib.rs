//! Turning RouterOS REST replies into OpenMetrics text, and deciding what a
//! probe request asks for.

pub mod text;
pub mod json;
pub mod collectors;
pub mod configuration;
pub mod probe;
