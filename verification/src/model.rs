//! The records that proxies report to the monitor: identifiers, log entries
//! and traffic statistics.

use vstd::prelude::*;

verus! {

/// Identifier of a proxy instance.
#[derive(Debug)]
pub struct ProxyId(pub String);

impl View for ProxyId {
    type V = Seq<char>;

    open spec fn view(&self) -> Seq<char> {
        self.0@
    }
}

impl Clone for ProxyId {
    fn clone(&self) -> (r: Self)
        ensures
            r == *self,
    {
        ProxyId(self.0.clone())
    }
}

impl PartialEq for ProxyId {
    fn eq(&self, other: &Self) -> (r: bool) {
        self.0 == other.0
    }
}

impl vstd::std_specs::cmp::PartialEqSpecImpl for ProxyId {
    open spec fn obeys_eq_spec() -> bool {
        true
    }

    open spec fn eq_spec(&self, other: &Self) -> bool {
        self@ == other@
    }
}

impl Eq for ProxyId {
}

/// Severity or kind of a log entry.
#[derive(Debug, Clone, Copy, PartialEq, Eq, Structural)]
pub enum LogLevel {
    Request,
    Response,
    Info,
    Debug,
    Warning,
    Error,
}

/// One line of a proxy's log, with optional structured metadata.
#[derive(Debug)]
pub struct LogEntry {
    pub proxy_id: ProxyId,
    pub level: LogLevel,
    pub message: String,
    /// Structured metadata, as JSON text.
    pub metadata: Option<String>,
}

impl LogEntry {
    /// The metadata as a character sequence, if any.
    pub open spec fn metadata_text(self) -> Option<Seq<char>> {
        match self.metadata {
            Some(m) => Some(m@),
            None => None,
        }
    }
}

/// Traffic counters of one proxy.
#[derive(Debug)]
pub struct ProxyStats {
    pub proxy_id: ProxyId,
    pub total_requests: u64,
    pub successful_requests: u64,
    pub failed_requests: u64,
    pub active_connections: u64,
    pub bytes_transferred: u64,
}

impl Default for ProxyStats {
    fn default() -> (r: Self)
        ensures
            r.proxy_id@ == Seq::<char>::empty(),
            r.total_requests == 0,
            r.successful_requests == 0,
            r.failed_requests == 0,
            r.active_connections == 0,
            r.bytes_transferred == 0,
    {
        ProxyStats {
            proxy_id: ProxyId(String::new()),
            total_requests: 0,
            successful_requests: 0,
            failed_requests: 0,
            active_connections: 0,
            bytes_transferred: 0,
        }
    }
}

/// What the monitor knows of a connected proxy.
#[derive(Debug)]
pub struct ProxyInfo {
    pub id: ProxyId,
    pub name: String,
    pub stats: ProxyStats,
}

} // verus!
