//! Properties that hold across the operations of the monitor.

use vstd::prelude::*;
use crate::model::{LogEntry, LogLevel, ProxyId, ProxyInfo, ProxyStats};
use crate::filter::{TabType, shown_positions, log_shown, tab_admits, tab_after, tab_before, lemma_shown_positions};
use crate::proxies::{holds_id, first_with_id, first_with_id_at, ids_distinct, connected,
    disconnected, stats_updated, proxy_table, lemma_first_with_id};
use crate::app::{AppView, AppEvent, NavigationMode, MAX_LOGS, PAGE_SIZE, capped};
use crate::json::{log_text, json_accepts, json_pretty_text};
use crate::text::text_le;

verus! {

/// The Messages, Errors and System tabs split the entries of the All tab
/// between them: their counts add up to the count of All.
pub proof fn law_tabs_partition_all(logs: Seq<LogEntry>, proxy: Option<ProxyId>)
    ensures
        shown_positions(logs, proxy, TabType::All).len() == shown_positions(
            logs,
            proxy,
            TabType::Messages,
        ).len() + shown_positions(logs, proxy, TabType::Errors).len() + shown_positions(
            logs,
            proxy,
            TabType::System,
        ).len(),
    decreases logs.len(),
{
    if logs.len() > 0 {
        law_tabs_partition_all(logs.drop_last(), proxy);
    }
}

/// A tab lists an entry exactly when the entry passes its filters: the
/// listed positions are the positions of the entries that pass, in log order.
pub proof fn law_tab_lists_exactly_matching(logs: Seq<LogEntry>, proxy: Option<ProxyId>, tab: TabType, j: int)
    requires
        0 <= j < logs.len(),
    ensures
        log_shown(logs[j], proxy, tab) <==> shown_positions(logs, proxy, tab).contains(j),
    decreases logs.len(),
{
    lemma_shown_positions(logs, proxy, tab);
    if j < logs.len() - 1 {
        law_tab_lists_exactly_matching(logs.drop_last(), proxy, tab, j);
        lemma_shown_positions(logs.drop_last(), proxy, tab);
        let earlier = shown_positions(logs.drop_last(), proxy, tab);
        if log_shown(logs.last(), proxy, tab) {
            let now = earlier.push(logs.len() - 1);
            if now.contains(j) {
                let k = choose|k: int| 0 <= k < now.len() && now[k] == j;
                assert(k < earlier.len());
                assert(earlier.contains(j));
            }
            if earlier.contains(j) {
                let k = choose|k: int| 0 <= k < earlier.len() && earlier[k] == j;
                assert(now[k] == j);
            }
        }
    } else {
        let earlier = shown_positions(logs.drop_last(), proxy, tab);
        lemma_shown_positions(logs.drop_last(), proxy, tab);
        if log_shown(logs.last(), proxy, tab) {
            let now = earlier.push(logs.len() - 1);
            assert(now[now.len() - 1] == j);
        } else {
            if earlier.contains(j) {
                let k = choose|k: int| 0 <= k < earlier.len() && earlier[k] == j;
                assert(earlier[k] < logs.len() - 1);
            }
        }
    }
}

/// Next and previous tab undo each other, and four steps come back to the start.
pub proof fn law_tab_cycle(tab: TabType)
    ensures
        tab_before(tab_after(tab)) == tab,
        tab_after(tab_before(tab)) == tab,
        tab_after(tab_after(tab_after(tab_after(tab)))) == tab,
{
}

/// Switching to another tab and back restores the selection, the scroll
/// position and the navigation mode, when the selection was on a listed entry.
pub proof fn law_switch_tab_round_trip(s: AppView, other: TabType)
    requires
        s.shown_count() > 0,
        s.selected_index < s.shown_count(),
    ensures
        s.after_switch_tab(other).after_switch_tab(s.active_tab).active_tab == s.active_tab,
        s.after_switch_tab(other).after_switch_tab(s.active_tab).list_state() == s.list_state(),
{
}

/// The selection is on a listed entry, or at the top when nothing is listed.
pub open spec fn selection_in_list(s: AppView) -> bool {
    if s.shown_count() == 0 {
        s.selected_index == 0
    } else {
        s.selected_index < s.shown_count()
    }
}

/// Switching tabs, fitting the viewport, and selecting or clearing a proxy
/// all leave the selection on a listed entry.
pub proof fn law_selection_settled(s: AppView, tab: TabType, height: usize, id: ProxyId)
    ensures
        selection_in_list(s.after_switch_tab(tab)),
        selection_in_list(s.after_prepare_viewport(height)),
        selection_in_list(s.after_select_proxy(id)),
        selection_in_list(s.after_clear_proxy_selection()),
{
}

/// The navigation keys keep the selection on a listed entry.
pub proof fn law_navigation_keeps_selection_in_list(s: AppView)
    requires
        selection_in_list(s),
    ensures
        selection_in_list(s.after_scroll_up()),
        selection_in_list(s.after_scroll_down()),
        selection_in_list(s.after_page_up()),
        s.page_down_fits() ==> selection_in_list(s.after_page_down()),
        selection_in_list(s.after_scroll_to_top()),
        selection_in_list(s.after_scroll_to_bottom()),
        selection_in_list(s.after_exit_navigation_mode()),
{
}

/// After the viewport is fitted to `height` rows, the selected entry is among
/// the visible ones, at the row that `get_relative_selection` reports.
pub proof fn law_prepared_viewport_shows_selection(s: AppView, height: usize)
    requires
        s.shown_count() > 0,
        height > 0,
        s.viewport_fits(height),
        s.after_prepare_viewport(height).relative_fits(height),
    ensures
        ({
            let p = s.after_prepare_viewport(height);
            &&& p.viewport_offset <= p.selected_index < p.viewport_offset + height
            &&& p.relative_selection(height) == Some((p.selected_index - p.viewport_offset) as usize)
            &&& p.visible_fits(height) ==> p.visible_range(height).0 <= p.selected_index < p.visible_range(
                height,
            ).1
        }),
{
}

/// The log keeps at most `MAX_LOGS` entries; a new entry is always kept, as
/// the last one, and nothing is dropped while there is room.
pub proof fn law_log_capacity(s: AppView, entry: LogEntry)
    requires
        s.logs.len() <= MAX_LOGS,
    ensures
        ({
            let after = s.after_event(AppEvent::NewLogEntry(entry));
            &&& after.logs.len() <= MAX_LOGS
            &&& after.logs.last() == entry
            &&& s.logs.len() < MAX_LOGS ==> after.logs == s.logs.push(entry)
            &&& s.logs.len() == MAX_LOGS ==> after.logs == s.logs.drop_first().push(entry)
        }),
{
    let after = s.after_event(AppEvent::NewLogEntry(entry));
    if s.logs.len() == MAX_LOGS {
        assert(after.logs =~= s.logs.drop_first().push(entry));
    }
}

/// When a full log drops its oldest entry for a new one, every saved selection
/// and scroll position moves back by one, so it stays on the entry it was on.
pub proof fn law_trim_moves_saved_selections(s: AppView, entry: LogEntry, tab: TabType)
    requires
        s.logs.len() == MAX_LOGS,
    ensures
        ({
            let before = s.tab_states.of(tab);
            let after = s.after_event(AppEvent::NewLogEntry(entry)).tab_states.of(tab);
            &&& after.selected_index == if before.selected_index > 0 { before.selected_index - 1 } else { 0 }
            &&& after.viewport_offset == if before.viewport_offset > 0 { before.viewport_offset - 1 } else { 0 }
            &&& after.navigation_mode == before.navigation_mode
        }),
{
}

/// In follow mode, a new entry that the active tab lists becomes the selection.
pub proof fn law_follow_selects_latest(s: AppView, entry: LogEntry)
    requires
        s.navigation_mode == NavigationMode::Follow,
        log_shown(entry, s.selected_proxy, s.active_tab),
    ensures
        ({
            let after = s.after_event(AppEvent::NewLogEntry(entry));
            &&& 0 <= after.selected_index < after.shown_count()
            &&& after.shown()[after.selected_index as int] == after.logs.len() - 1
        }),
{
    let after = s.after_event(AppEvent::NewLogEntry(entry));
    let logs = capped(s.logs.push(entry));
    assert(logs.last() == entry);
    assert(logs.len() > 0);
    lemma_shown_positions(logs, s.selected_proxy, s.active_tab);
    assert(shown_positions(logs, s.selected_proxy, s.active_tab) == shown_positions(
        logs.drop_last(),
        s.selected_proxy,
        s.active_tab,
    ).push(logs.len() - 1));
}

/// With distinct identifiers, a connecting proxy is stored under its identifier
/// and every other entry of the table stays as it was; identifiers stay distinct.
pub proof fn law_connect_is_insert(proxies: Seq<ProxyInfo>, info: ProxyInfo)
    requires
        ids_distinct(proxies),
    ensures
        ids_distinct(connected(proxies, info)),
        proxy_table(connected(proxies, info)) == proxy_table(proxies).insert(info.id@, info),
{
    let after = connected(proxies, info);
    if holds_id(proxies, info.id@) {
        let i = first_with_id(proxies, info.id@);
        let w = choose|w: int| 0 <= w < proxies.len() && #[trigger] proxies[w].id@ == info.id@;
        lemma_unique_position(proxies, info.id@, w);
        assert forall|a: int, b: int|
            0 <= a < after.len() && 0 <= b < after.len() && a != b implies after[a].id@ != after[b].id@ by {
            assert(after[a].id@ == proxies[a].id@);
            assert(after[b].id@ == proxies[b].id@);
        }
        assert forall|id: Seq<char>| #[trigger] holds_id(after, id) == holds_id(proxies, id) by {
            if holds_id(proxies, id) {
                let k = choose|k: int| 0 <= k < proxies.len() && #[trigger] proxies[k].id@ == id;
                assert(after[k].id@ == id);
            }
            if holds_id(after, id) {
                let k = choose|k: int| 0 <= k < after.len() && #[trigger] after[k].id@ == id;
                if k == i {
                    assert(proxies[i].id@ == id);
                } else {
                    assert(proxies[k].id@ == id);
                }
            }
        }
        assert forall|id: Seq<char>| holds_id(after, id) implies #[trigger] after[first_with_id(after, id)]
            == proxy_table(proxies).insert(info.id@, info)[id] by {
            let k = choose|k: int| 0 <= k < after.len() && #[trigger] after[k].id@ == id;
            lemma_unique_position(after, id, k);
            if k != i {
                lemma_unique_position(proxies, id, k);
            }
        }
        assert(proxy_table(after) =~= proxy_table(proxies).insert(info.id@, info));
    } else {
        assert forall|a: int, b: int|
            0 <= a < after.len() && 0 <= b < after.len() && a != b implies after[a].id@ != after[b].id@ by {
            if a == proxies.len() {
                assert(proxies[b].id@ != info.id@);
            } else if b == proxies.len() {
                assert(proxies[a].id@ != info.id@);
            }
        }
        assert forall|id: Seq<char>| #[trigger] holds_id(after, id) == (holds_id(proxies, id) || id == info.id@) by {
            if holds_id(proxies, id) {
                let k = choose|k: int| 0 <= k < proxies.len() && #[trigger] proxies[k].id@ == id;
                assert(after[k].id@ == id);
            }
            if id == info.id@ {
                assert(after[proxies.len() as int].id@ == id);
            }
            if holds_id(after, id) {
                let k = choose|k: int| 0 <= k < after.len() && #[trigger] after[k].id@ == id;
                if k < proxies.len() {
                    assert(proxies[k].id@ == id);
                }
            }
        }
        assert forall|id: Seq<char>| holds_id(after, id) implies #[trigger] after[first_with_id(after, id)]
            == proxy_table(proxies).insert(info.id@, info)[id] by {
            let k = choose|k: int| 0 <= k < after.len() && #[trigger] after[k].id@ == id;
            lemma_unique_position(after, id, k);
            if k < proxies.len() {
                lemma_unique_position(proxies, id, k);
            }
        }
        assert(proxy_table(after) =~= proxy_table(proxies).insert(info.id@, info));
    }
}

/// With distinct identifiers, a disconnecting proxy leaves the table and every
/// other entry stays as it was; identifiers stay distinct.
pub proof fn law_disconnect_is_remove(proxies: Seq<ProxyInfo>, id: Seq<char>)
    requires
        ids_distinct(proxies),
    ensures
        ids_distinct(disconnected(proxies, id)),
        proxy_table(disconnected(proxies, id)) == proxy_table(proxies).remove(id),
{
    let after = disconnected(proxies, id);
    if holds_id(proxies, id) {
        let i = first_with_id(proxies, id);
        let w = choose|w: int| 0 <= w < proxies.len() && #[trigger] proxies[w].id@ == id;
        lemma_unique_position(proxies, id, w);
        let old_pos = |k: int| if k < i { k } else { k + 1 };
        assert forall|a: int, b: int|
            0 <= a < after.len() && 0 <= b < after.len() && a != b implies after[a].id@ != after[b].id@ by {
            assert(after[a] == proxies[old_pos(a)]);
            assert(after[b] == proxies[old_pos(b)]);
        }
        assert forall|other: Seq<char>| #[trigger] holds_id(after, other) == (holds_id(proxies, other) && other != id) by {
            if holds_id(after, other) {
                let k = choose|k: int| 0 <= k < after.len() && #[trigger] after[k].id@ == other;
                assert(proxies[old_pos(k)].id@ == other);
                assert(old_pos(k) != i);
            }
            if holds_id(proxies, other) && other != id {
                let k = choose|k: int| 0 <= k < proxies.len() && #[trigger] proxies[k].id@ == other;
                assert(k != i);
                let m = if k < i { k } else { k - 1 };
                assert(after[m] == proxies[k]);
            }
        }
        assert forall|other: Seq<char>| holds_id(after, other) implies #[trigger] after[first_with_id(after, other)]
            == proxy_table(proxies).remove(id)[other] by {
            let k = choose|k: int| 0 <= k < after.len() && #[trigger] after[k].id@ == other;
            lemma_unique_position(after, other, k);
            lemma_unique_position(proxies, other, old_pos(k));
        }
        assert(proxy_table(after) =~= proxy_table(proxies).remove(id));
    } else {
        assert(proxy_table(after) =~= proxy_table(proxies).remove(id));
    }
}

/// With distinct identifiers, statistics reach the proxy they name and no other;
/// statistics of an unknown proxy change nothing.
pub proof fn law_stats_reach_their_proxy(proxies: Seq<ProxyInfo>, stats: ProxyStats)
    requires
        ids_distinct(proxies),
    ensures
        ids_distinct(stats_updated(proxies, stats)),
        proxy_table(stats_updated(proxies, stats)) == if holds_id(proxies, stats.proxy_id@) {
            proxy_table(proxies).insert(
                stats.proxy_id@,
                ProxyInfo { stats: stats, ..proxy_table(proxies)[stats.proxy_id@] },
            )
        } else {
            proxy_table(proxies)
        },
{
    let after = stats_updated(proxies, stats);
    let id = stats.proxy_id@;
    if holds_id(proxies, id) {
        let i = first_with_id(proxies, id);
        let w = choose|w: int| 0 <= w < proxies.len() && #[trigger] proxies[w].id@ == id;
        lemma_unique_position(proxies, id, w);
        assert forall|a: int, b: int|
            0 <= a < after.len() && 0 <= b < after.len() && a != b implies after[a].id@ != after[b].id@ by {
            assert(after[a].id == proxies[a].id);
            assert(after[b].id == proxies[b].id);
        }
        assert forall|other: Seq<char>| #[trigger] holds_id(after, other) == holds_id(proxies, other) by {
            if holds_id(after, other) {
                let k = choose|k: int| 0 <= k < after.len() && #[trigger] after[k].id@ == other;
                assert(proxies[k].id@ == other);
            }
            if holds_id(proxies, other) {
                let k = choose|k: int| 0 <= k < proxies.len() && #[trigger] proxies[k].id@ == other;
                assert(after[k].id@ == other);
            }
        }
        let expected = proxy_table(proxies).insert(id, ProxyInfo { stats: stats, ..proxy_table(proxies)[id] });
        assert forall|other: Seq<char>| holds_id(after, other) implies #[trigger] after[first_with_id(after, other)]
            == expected[other] by {
            let k = choose|k: int| 0 <= k < after.len() && #[trigger] after[k].id@ == other;
            lemma_unique_position(after, other, k);
            lemma_unique_position(proxies, other, k);
        }
        assert(proxy_table(after) =~= expected);
    } else {
        assert(proxy_table(after) =~= proxy_table(proxies));
    }
}

/// Every event from the proxies keeps the identifiers in the table distinct.
pub proof fn law_events_keep_ids_distinct(s: AppView, event: AppEvent)
    requires
        ids_distinct(s.proxies),
    ensures
        ids_distinct(s.after_event(event).proxies),
{
    match event {
        AppEvent::ProxyConnected(info) => law_connect_is_insert(s.proxies, info),
        AppEvent::ProxyDisconnected(id) => law_disconnect_is_remove(s.proxies, id@),
        AppEvent::NewLogEntry(_) => {},
        AppEvent::StatsUpdate(stats) => law_stats_reach_their_proxy(s.proxies, stats),
    }
}

/// Moving the selection down and then up again returns it to where it was,
/// unless it was already on the last listed entry.
pub proof fn law_scroll_down_then_up(s: AppView)
    requires
        s.logs.len() <= usize::MAX,
        s.selected_index + 1 < s.shown_count(),
    ensures
        s.after_scroll_down().after_scroll_up().selected_index == s.selected_index,
        s.after_scroll_down().after_scroll_up().tab_states.of(s.active_tab).selected_index == s.selected_index,
{
    lemma_shown_positions(s.logs, s.selected_proxy, s.active_tab);
    let down = s.after_scroll_down();
    assert(down.logs == s.logs && down.selected_proxy == s.selected_proxy && down.active_tab == s.active_tab);
    assert(down.selected_index == s.selected_index + 1);
}

/// After the log is cleared, no tab lists anything.
pub proof fn law_cleared_log_lists_nothing(s: AppView, tab: TabType)
    ensures
        s.after_clear_logs().shown_in(tab).len() == 0,
        s.after_clear_logs().tab_states.of(tab) == s.after_clear_logs().list_state(),
{
}

/// With distinct identifiers, any position holding `id` is its first position.
proof fn lemma_unique_position(proxies: Seq<ProxyInfo>, id: Seq<char>, k: int)
    requires
        ids_distinct(proxies),
        0 <= k < proxies.len(),
        proxies[k].id@ == id,
    ensures
        first_with_id(proxies, id) == k,
{
    assert(first_with_id_at(proxies, id, k));
    lemma_first_with_id(proxies, id, k);
}

/// The entry marked from the cursor is the listed entry under the cursor, and
/// it is in the log; the detail view then opens exactly for requests and responses.
pub proof fn law_cursor_marks_listed_entry(s: AppView)
    requires
        s.logs.len() <= usize::MAX,
        s.selected_index < s.shown_count(),
    ensures
        ({
            let marked = s.after_select_log_at_cursor();
            &&& marked.selected_log_index == Some(s.shown()[s.selected_index as int] as usize)
            &&& s.shown()[s.selected_index as int] < s.logs.len()
            &&& marked.after_show_selected_log_detail().show_detail_view == (s.show_detail_view
                || s.logs[s.shown()[s.selected_index as int]].level == LogLevel::Request
                || s.logs[s.shown()[s.selected_index as int]].level == LogLevel::Response)
        }),
{
    lemma_shown_positions(s.logs, s.selected_proxy, s.active_tab);
    let p = s.shown()[s.selected_index as int];
    assert(0 <= p < s.logs.len());
}

/// Metadata that is JSON decides the detail text, whatever the message is;
/// without such metadata, a JSON message is shown pretty-printed, and any
/// other message is shown as it is.
pub proof fn law_detail_text_prefers_metadata(metadata: Option<Seq<char>>, message: Seq<char>)
    ensures
        metadata matches Some(m) && json_accepts(m) ==> log_text(metadata, message) == json_pretty_text(
            metadata->0,
        ),
        !(metadata matches Some(m) && json_accepts(m)) && json_accepts(message) ==> log_text(
            metadata,
            message,
        ) == json_pretty_text(message),
        !(metadata matches Some(m) && json_accepts(m)) && !json_accepts(message) ==> log_text(
            metadata,
            message,
        ) == message,
{
}

/// `a` sorts before `b` at position `i`: they agree on the first `i`
/// characters and the character of `a` at `i` is the smaller one.
pub open spec fn sorts_before_at(a: Seq<char>, b: Seq<char>, i: int) -> bool {
    &&& 0 <= i < a.len()
    &&& i < b.len()
    &&& a.take(i) == b.take(i)
    &&& (a[i] as int) < (b[i] as int)
}

/// The name order is the lexicographic order of `str`: `a` sorts no later
/// than `b` exactly when `a` is a prefix of `b`, or the first character where
/// they differ is smaller in `a`. Length decides only between a text and its
/// extensions.
pub proof fn law_text_le_is_lexicographic(a: Seq<char>, b: Seq<char>)
    ensures
        text_le(a, b) <==> (a.len() <= b.len() && a == b.take(a.len() as int)) || exists|i: int|
            sorts_before_at(a, b, i),
    decreases a.len(),
{
    if a.len() == 0 {
        assert(a =~= b.take(0));
    } else if b.len() == 0 {
    } else if a[0] != b[0] {
        if (a[0] as int) < (b[0] as int) {
            assert(a.take(0) =~= b.take(0));
            assert(sorts_before_at(a, b, 0));
        } else {
            if a.len() <= b.len() && a == b.take(a.len() as int) {
                assert(a[0] == b.take(a.len() as int)[0]);
            }
            if exists|i: int| sorts_before_at(a, b, i) {
                let i = choose|i: int| sorts_before_at(a, b, i);
                if i > 0 {
                    assert(a.take(i)[0] == b.take(i)[0]);
                }
            }
        }
    } else {
        let a1 = a.drop_first();
        let b1 = b.drop_first();
        law_text_le_is_lexicographic(a1, b1);
        if a.len() <= b.len() && a == b.take(a.len() as int) {
            assert(a1 =~= b1.take(a1.len() as int)) by {
                assert forall|k: int| 0 <= k < a1.len() implies #[trigger] a1[k] == b1.take(a1.len() as int)[k] by {
                    assert(a[k + 1] == b.take(a.len() as int)[k + 1]);
                }
            }
        }
        if a1.len() <= b1.len() && a1 == b1.take(a1.len() as int) {
            assert(a =~= b.take(a.len() as int)) by {
                assert forall|k: int| 0 <= k < a.len() implies #[trigger] a[k] == b.take(a.len() as int)[k] by {
                    if k > 0 {
                        assert(a1[k - 1] == b1.take(a1.len() as int)[k - 1]);
                    }
                }
            }
        }
        if exists|i: int| sorts_before_at(a, b, i) {
            let i = choose|i: int| sorts_before_at(a, b, i);
            if i == 0 {
                assert(false);
            }
            assert(a1.take(i - 1) =~= b1.take(i - 1)) by {
                assert forall|k: int| 0 <= k < i - 1 implies #[trigger] a1.take(i - 1)[k] == b1.take(i - 1)[k] by {
                    assert(a.take(i)[k + 1] == b.take(i)[k + 1]);
                }
            }
            assert(sorts_before_at(a1, b1, i - 1));
        }
        if exists|j: int| sorts_before_at(a1, b1, j) {
            let j = choose|j: int| sorts_before_at(a1, b1, j);
            assert(a.take(j + 1) =~= b.take(j + 1)) by {
                assert forall|k: int| 0 <= k < j + 1 implies #[trigger] a.take(j + 1)[k] == b.take(j + 1)[k] by {
                    if k > 0 {
                        assert(a1.take(j)[k - 1] == b1.take(j)[k - 1]);
                    }
                }
            }
            assert(sorts_before_at(a, b, j + 1));
        }
    }
}

/// Fitting the viewport scrolls as little as it can: a selection already in
/// view leaves the viewport where it is, a selection above it becomes the top
/// row, and a selection below it becomes the bottom row.
pub proof fn law_prepare_viewport_scrolls_minimally(s: AppView, height: usize)
    requires
        s.shown_count() > 0,
        height > 0,
        s.viewport_fits(height),
    ensures
        ({
            let sel = s.clamped_selection();
            let p = s.after_prepare_viewport(height);
            &&& p.selected_index == sel
            &&& sel < s.viewport_offset ==> p.viewport_offset == sel
            &&& s.viewport_offset <= sel < s.viewport_offset + height ==> p.viewport_offset
                == s.viewport_offset
            &&& s.viewport_offset + height <= sel ==> p.viewport_offset + height == sel + 1
        }),
{
}

/// The reported row is where the selection sits in the viewport: a row is
/// reported exactly when the selection is a listed entry inside the `height`
/// rows from the viewport offset, and the row plus the offset is the selection.
pub proof fn law_relative_selection_is_row_in_view(s: AppView, height: usize)
    ensures
        s.relative_selection(height) is Some <==> (s.viewport_offset <= s.selected_index
            && s.selected_index < s.viewport_offset + height && s.selected_index < s.shown_count()),
        s.relative_selection(height) matches Some(r) ==> r < height && s.viewport_offset + r
            == s.selected_index,
{
}

/// In follow mode, after any new entry, the selection is on the last entry
/// the active tab lists, whenever it lists any; in navigation mode the
/// selection does not move.
pub proof fn law_follow_tracks_last_listed(s: AppView, entry: LogEntry)
    ensures
        ({
            let after = s.after_event(AppEvent::NewLogEntry(entry));
            &&& s.navigation_mode == NavigationMode::Follow && after.shown_count() > 0 ==> after.selected_index
                == after.shown_count() - 1
            &&& s.navigation_mode == NavigationMode::Navigate ==> after.selected_index == s.selected_index
        }),
{
    let after = s.after_event(AppEvent::NewLogEntry(entry));
    let logs = capped(s.logs.push(entry));
    assert(logs.len() <= MAX_LOGS);
    lemma_shown_positions(logs, s.selected_proxy, s.active_tab);
}

/// Messages lists requests and responses, Errors lists errors and warnings,
/// System lists info and debug entries, and All lists every level.
pub proof fn law_tab_levels(level: LogLevel)
    ensures
        tab_admits(TabType::All, level),
        tab_admits(TabType::Messages, level) <==> (level == LogLevel::Request || level == LogLevel::Response),
        tab_admits(TabType::Errors, level) <==> (level == LogLevel::Error || level == LogLevel::Warning),
        tab_admits(TabType::System, level) <==> (level == LogLevel::Info || level == LogLevel::Debug),
{
}

/// With no proxy selected, the All tab lists every entry of the log, in order.
pub proof fn law_all_tab_lists_everything(logs: Seq<LogEntry>)
    ensures
        shown_positions(logs, None, TabType::All).len() == logs.len(),
        forall|k: int| 0 <= k < logs.len() ==> #[trigger] shown_positions(logs, None, TabType::All)[k] == k,
    decreases logs.len(),
{
    if logs.len() > 0 {
        law_all_tab_lists_everything(logs.drop_last());
    }
}

/// A page down followed by a page up returns to the same entry when the page
/// down did not stop at the last one.
pub proof fn law_page_down_then_up(s: AppView)
    requires
        s.logs.len() <= usize::MAX,
        s.selected_index + PAGE_SIZE < s.shown_count() - 1,
    ensures
        s.after_page_down().selected_index == s.selected_index + PAGE_SIZE,
        s.after_page_down().after_page_up().selected_index == s.selected_index,
{
    lemma_shown_positions(s.logs, s.selected_proxy, s.active_tab);
    let down = s.after_page_down();
    assert(down.logs == s.logs && down.selected_proxy == s.selected_proxy && down.active_tab == s.active_tab);
}

/// Moving the selection up and then down again returns it to where it was,
/// unless it was already on the first entry.
pub proof fn law_scroll_up_then_down(s: AppView)
    requires
        0 < s.selected_index < s.shown_count(),
    ensures
        s.after_scroll_up().selected_index == s.selected_index - 1,
        s.after_scroll_up().after_scroll_down().selected_index == s.selected_index,
{
    let up = s.after_scroll_up();
    assert(up.logs == s.logs && up.selected_proxy == s.selected_proxy && up.active_tab == s.active_tab);
}

/// Jumping to the top selects the first entry with the viewport at the top;
/// jumping to the bottom, or leaving navigation mode, selects the last listed
/// entry.
pub proof fn law_jumps_reach_the_ends(s: AppView)
    requires
        s.logs.len() <= usize::MAX,
    ensures
        s.after_scroll_to_top().selected_index == 0,
        s.after_scroll_to_top().viewport_offset == 0,
        s.shown_count() > 0 ==> s.after_scroll_to_bottom().selected_index == s.shown_count() - 1,
        s.shown_count() > 0 ==> s.after_exit_navigation_mode().selected_index == s.shown_count() - 1,
        s.after_exit_navigation_mode().navigation_mode == NavigationMode::Follow,
        s.after_scroll_to_bottom().navigation_mode == NavigationMode::Navigate,
{
    lemma_shown_positions(s.logs, s.selected_proxy, s.active_tab);
}

/// The visible window starts at the viewport offset (or at the last listed
/// entry when the offset lies past it) and holds `height` entries, or as many
/// as remain after its start.
pub proof fn law_visible_window(s: AppView, height: usize)
    requires
        s.shown_count() > 0,
        height > 0,
    ensures
        ({
            let (start, end) = s.visible_range(height);
            &&& s.viewport_offset < s.shown_count() ==> start == s.viewport_offset
            &&& s.viewport_offset >= s.shown_count() ==> start == s.shown_count() - 1
            &&& start < end <= s.shown_count()
            &&& end - start == if height < s.shown_count() - start { height as int } else { s.shown_count() - start }
        }),
{
}

} // verus!
