//! State and logic of the MCP monitor's terminal interface: the proxy table,
//! the capped log buffer, per-tab log filters, list navigation and the
//! viewport that keeps the selected log entry visible.

pub mod model;
pub mod json;
pub mod filter;
pub mod text;
pub mod proxies;
pub mod app;
pub mod laws;
