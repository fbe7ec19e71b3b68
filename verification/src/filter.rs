//! Which log entries each tab shows, and where they sit in the log buffer.

use vstd::prelude::*;
use crate::model::{LogEntry, LogLevel, ProxyId};

verus! {

/// The tabs of the log view.
#[derive(Debug, Clone, Copy, PartialEq, Eq, Hash, Structural)]
pub enum TabType {
    /// Every entry.
    All,
    /// Requests and responses only.
    Messages,
    /// Errors and warnings.
    Errors,
    /// Info and debug entries, connection and disconnection logs among them.
    System,
}

/// Whether a tab shows entries of a level.
pub open spec fn tab_admits(tab: TabType, level: LogLevel) -> bool {
    match tab {
        TabType::All => true,
        TabType::Messages => level == LogLevel::Request || level == LogLevel::Response,
        TabType::Errors => level == LogLevel::Error || level == LogLevel::Warning,
        TabType::System => level == LogLevel::Info || level == LogLevel::Debug,
    }
}

/// Whether an entry comes from the selected proxy, when one is selected.
pub open spec fn from_selected_proxy(log: LogEntry, proxy: Option<ProxyId>) -> bool {
    match proxy {
        Some(p) => log.proxy_id@ == p@,
        None => true,
    }
}

/// Whether an entry is listed under `tab` while `proxy` narrows the view.
pub open spec fn log_shown(log: LogEntry, proxy: Option<ProxyId>, tab: TabType) -> bool {
    from_selected_proxy(log, proxy) && tab_admits(tab, log.level)
}

/// Positions in `logs` of the entries listed under `tab`, oldest first.
pub open spec fn shown_positions(logs: Seq<LogEntry>, proxy: Option<ProxyId>, tab: TabType) -> Seq<int>
    decreases logs.len(),
{
    if logs.len() == 0 {
        Seq::empty()
    } else {
        let earlier = shown_positions(logs.drop_last(), proxy, tab);
        if log_shown(logs.last(), proxy, tab) {
            earlier.push(logs.len() - 1)
        } else {
            earlier
        }
    }
}

/// The tab that follows `tab` in the tab bar, wrapping around.
pub open spec fn tab_after(tab: TabType) -> TabType {
    match tab {
        TabType::All => TabType::Messages,
        TabType::Messages => TabType::Errors,
        TabType::Errors => TabType::System,
        TabType::System => TabType::All,
    }
}

/// The tab that precedes `tab` in the tab bar, wrapping around.
pub open spec fn tab_before(tab: TabType) -> TabType {
    match tab {
        TabType::All => TabType::System,
        TabType::Messages => TabType::All,
        TabType::Errors => TabType::Messages,
        TabType::System => TabType::Errors,
    }
}

/// The listed positions are in range, name shown entries, and increase strictly.
pub proof fn lemma_shown_positions(logs: Seq<LogEntry>, proxy: Option<ProxyId>, tab: TabType)
    ensures
        shown_positions(logs, proxy, tab).len() <= logs.len(),
        forall|k: int|
            0 <= k < shown_positions(logs, proxy, tab).len() ==> {
                let p = #[trigger] shown_positions(logs, proxy, tab)[k];
                &&& 0 <= p < logs.len()
                &&& log_shown(logs[p], proxy, tab)
            },
        forall|k1: int, k2: int|
            0 <= k1 < k2 < shown_positions(logs, proxy, tab).len() ==> shown_positions(
                logs,
                proxy,
                tab,
            )[k1] < shown_positions(logs, proxy, tab)[k2],
    decreases logs.len(),
{
    if logs.len() > 0 {
        lemma_shown_positions(logs.drop_last(), proxy, tab);
    }
}

/// Extending the log by one entry extends the listed positions by at most that entry.
pub proof fn lemma_shown_positions_step(logs: Seq<LogEntry>, i: int, proxy: Option<ProxyId>, tab: TabType)
    requires
        0 <= i < logs.len(),
    ensures
        shown_positions(logs.take(i + 1), proxy, tab) == if log_shown(logs[i], proxy, tab) {
            shown_positions(logs.take(i), proxy, tab).push(i)
        } else {
            shown_positions(logs.take(i), proxy, tab)
        },
{
    assert(logs.take(i + 1).drop_last() =~= logs.take(i));
}

/// Whether `tab` lists entries of `level`.
pub fn tab_shows(tab: TabType, level: LogLevel) -> (r: bool)
    ensures
        r == tab_admits(tab, level),
{
    match tab {
        TabType::All => true,
        TabType::Messages => level == LogLevel::Request || level == LogLevel::Response,
        TabType::Errors => level == LogLevel::Error || level == LogLevel::Warning,
        TabType::System => level == LogLevel::Info || level == LogLevel::Debug,
    }
}

/// Whether `log` is listed under `tab` while `proxy` narrows the view.
pub fn is_shown(log: &LogEntry, proxy: &Option<ProxyId>, tab: TabType) -> (r: bool)
    ensures
        r == log_shown(*log, *proxy, tab),
{
    if let Some(selected) = proxy {
        if log.proxy_id != *selected {
            return false;
        }
    }
    tab_shows(tab, log.level)
}

/// Positions of the entries listed under `tab`, oldest first.
pub fn shown_positions_of(logs: &Vec<LogEntry>, proxy: &Option<ProxyId>, tab: TabType) -> (r: Vec<usize>)
    ensures
        r@.len() == shown_positions(logs@, *proxy, tab).len(),
        forall|k: int| 0 <= k < r@.len() ==> r@[k] as int == shown_positions(logs@, *proxy, tab)[k],
{
    let mut r: Vec<usize> = Vec::new();
    let n = logs.len();
    for i in 0..n
        invariant
            n == logs@.len(),
            r@.len() == shown_positions(logs@.take(i as int), *proxy, tab).len(),
            forall|k: int|
                0 <= k < r@.len() ==> r@[k] as int == shown_positions(logs@.take(i as int), *proxy, tab)[k],
    {
        proof {
            lemma_shown_positions_step(logs@, i as int, *proxy, tab);
        }
        if is_shown(&logs[i], proxy, tab) {
            r.push(i);
        }
    }
    assert(logs@.take(n as int) =~= logs@);
    r
}

/// Number of entries listed under `tab`.
pub fn count_shown(logs: &Vec<LogEntry>, proxy: &Option<ProxyId>, tab: TabType) -> (r: usize)
    ensures
        r == shown_positions(logs@, *proxy, tab).len(),
{
    let mut r: usize = 0;
    let n = logs.len();
    for i in 0..n
        invariant
            n == logs@.len(),
            r == shown_positions(logs@.take(i as int), *proxy, tab).len(),
            r <= i,
    {
        proof {
            lemma_shown_positions_step(logs@, i as int, *proxy, tab);
        }
        if is_shown(&logs[i], proxy, tab) {
            r = r + 1;
        }
    }
    assert(logs@.take(n as int) =~= logs@);
    r
}

} // verus!
