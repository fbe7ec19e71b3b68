use mcp_monitor::app::{App, AppEvent, FocusArea, ListState, NavigationMode, MAX_LOGS};
use mcp_monitor::filter::TabType;
use mcp_monitor::model::{LogEntry, LogLevel, ProxyId, ProxyInfo, ProxyStats};

fn pid(s: &str) -> ProxyId {
    ProxyId(s.to_string())
}

fn entry(proxy: &str, level: LogLevel, message: &str) -> LogEntry {
    LogEntry { proxy_id: pid(proxy), level, message: message.to_string(), metadata: None }
}

fn stats(proxy: &str, total: u64, ok: u64, failed: u64, active: u64, bytes: u64) -> ProxyStats {
    ProxyStats {
        proxy_id: pid(proxy),
        total_requests: total,
        successful_requests: ok,
        failed_requests: failed,
        active_connections: active,
        bytes_transferred: bytes,
    }
}

fn proxy(id: &str, name: &str) -> ProxyInfo {
    ProxyInfo { id: pid(id), name: name.to_string(), stats: stats(id, 0, 0, 0, 0, 0) }
}

fn log(app: &mut App, proxy: &str, level: LogLevel, message: &str) {
    app.handle_event(AppEvent::NewLogEntry(entry(proxy, level, message)));
}

fn messages(app: &App) -> Vec<String> {
    app.get_filtered_logs().iter().map(|l| l.message.clone()).collect()
}

fn follow_state() -> ListState {
    ListState { selected_index: 0, viewport_offset: 0, navigation_mode: NavigationMode::Follow }
}

#[test]
fn new_app_starts_empty_on_messages_tab() {
    let app = App::new();
    assert!(app.proxies.is_empty());
    assert!(app.logs.is_empty());
    assert_eq!(app.selected_index, 0);
    assert_eq!(app.viewport_offset, 0);
    assert!(app.selected_proxy.is_none());
    assert_eq!(app.focus_area, FocusArea::LogView);
    assert_eq!(app.active_tab, TabType::Messages);
    assert_eq!(app.navigation_mode, NavigationMode::Follow);
    assert!(!app.show_detail_view);
    assert!(app.detail_word_wrap);
    assert_eq!(app.selected_log_index, None);
    for tab in [TabType::All, TabType::Messages, TabType::Errors, TabType::System] {
        assert_eq!(app.tab_states.get(tab), follow_state());
    }
}

#[test]
fn connect_replaces_proxy_with_same_id_and_disconnect_removes_it() {
    let mut app = App::new();
    app.handle_event(AppEvent::ProxyConnected(proxy("a", "alpha")));
    app.handle_event(AppEvent::ProxyConnected(proxy("b", "beta")));
    app.handle_event(AppEvent::ProxyConnected(proxy("a", "alpha-2")));
    assert_eq!(app.proxies.len(), 2);
    assert_eq!(app.proxies[0].name, "alpha-2");
    app.handle_event(AppEvent::ProxyDisconnected(pid("a")));
    assert_eq!(app.proxies.len(), 1);
    assert_eq!(app.proxies[0].id, pid("b"));
    app.handle_event(AppEvent::ProxyDisconnected(pid("zzz")));
    assert_eq!(app.proxies.len(), 1);
}

#[test]
fn disconnecting_the_selected_proxy_clears_the_selection() {
    let mut app = App::new();
    app.handle_event(AppEvent::ProxyConnected(proxy("a", "alpha")));
    app.handle_event(AppEvent::ProxyConnected(proxy("b", "beta")));
    app.selected_proxy = Some(pid("a"));
    app.handle_event(AppEvent::ProxyDisconnected(pid("b")));
    assert_eq!(app.selected_proxy, Some(pid("a")));
    app.handle_event(AppEvent::ProxyDisconnected(pid("a")));
    assert_eq!(app.selected_proxy, None);
}

#[test]
fn stats_update_reaches_only_the_named_proxy() {
    let mut app = App::new();
    app.handle_event(AppEvent::ProxyConnected(proxy("a", "alpha")));
    app.handle_event(AppEvent::ProxyConnected(proxy("b", "beta")));
    app.handle_event(AppEvent::StatsUpdate(stats("b", 7, 5, 2, 1, 300)));
    app.handle_event(AppEvent::StatsUpdate(stats("unknown", 99, 99, 99, 99, 99)));
    assert_eq!(app.proxies[0].stats.total_requests, 0);
    assert_eq!(app.proxies[1].stats.total_requests, 7);
    assert_eq!(app.proxies[1].stats.bytes_transferred, 300);
    assert_eq!(app.proxies.len(), 2);
}

#[test]
fn follow_mode_selects_the_latest_listed_log() {
    let mut app = App::new();
    log(&mut app, "a", LogLevel::Request, "r1");
    log(&mut app, "a", LogLevel::Info, "i1");
    log(&mut app, "a", LogLevel::Response, "r2");
    assert_eq!(messages(&app), vec!["r1", "r2"]);
    assert_eq!(app.selected_index, 1);
    log(&mut app, "a", LogLevel::Info, "i2");
    assert_eq!(app.selected_index, 1);
    app.scroll_up();
    assert_eq!(app.navigation_mode, NavigationMode::Navigate);
    assert_eq!(app.selected_index, 0);
    log(&mut app, "a", LogLevel::Request, "r3");
    assert_eq!(app.selected_index, 0);
}

#[test]
fn log_buffer_keeps_the_newest_entries() {
    let mut app = App::new();
    for i in 0..(MAX_LOGS + 5) {
        log(&mut app, "a", LogLevel::Request, &format!("m{}", i));
    }
    assert_eq!(app.logs.len(), MAX_LOGS);
    assert_eq!(app.logs[0].message, "m5");
    assert_eq!(app.logs[MAX_LOGS - 1].message, format!("m{}", MAX_LOGS + 4));
    assert_eq!(app.selected_index, MAX_LOGS - 1);
}

#[test]
fn dropping_old_logs_moves_saved_selections_back() {
    let mut app = App::new();
    for i in 0..MAX_LOGS {
        log(&mut app, "a", LogLevel::Request, &format!("m{}", i));
    }
    app.scroll_up();
    app.viewport_offset = 3;
    app.scroll_up();
    let saved = app.tab_states.get(TabType::Messages);
    assert_eq!(saved.selected_index, MAX_LOGS - 3);
    assert_eq!(saved.viewport_offset, 3);
    app.tab_states.set(TabType::Errors, follow_state());
    log(&mut app, "a", LogLevel::Request, "newest");
    let moved = app.tab_states.get(TabType::Messages);
    assert_eq!(moved.selected_index, MAX_LOGS - 4);
    assert_eq!(moved.viewport_offset, 2);
    assert_eq!(moved.navigation_mode, NavigationMode::Navigate);
    assert_eq!(app.tab_states.get(TabType::Errors), follow_state());
    assert_eq!(app.selected_index, MAX_LOGS - 3);
}

#[test]
fn tabs_filter_by_level_and_selected_proxy() {
    let mut app = App::new();
    log(&mut app, "a", LogLevel::Request, "a-req");
    log(&mut app, "b", LogLevel::Response, "b-resp");
    log(&mut app, "a", LogLevel::Error, "a-err");
    log(&mut app, "b", LogLevel::Warning, "b-warn");
    log(&mut app, "a", LogLevel::Info, "a-info");
    log(&mut app, "b", LogLevel::Debug, "b-debug");
    assert_eq!(app.get_tab_log_count(TabType::All), 6);
    assert_eq!(app.get_tab_log_count(TabType::Messages), 2);
    assert_eq!(app.get_tab_log_count(TabType::Errors), 2);
    assert_eq!(app.get_tab_log_count(TabType::System), 2);
    assert_eq!(messages(&app), vec!["a-req", "b-resp"]);
    app.selected_proxy = Some(pid("b"));
    assert_eq!(app.get_tab_log_count(TabType::All), 3);
    assert_eq!(messages(&app), vec!["b-resp"]);
    app.switch_tab(TabType::Errors);
    assert_eq!(messages(&app), vec!["b-warn"]);
    app.switch_tab(TabType::System);
    assert_eq!(messages(&app), vec!["b-debug"]);
}

#[test]
fn tab_counts_add_up_to_all() {
    let mut app = App::new();
    let levels = [
        LogLevel::Request,
        LogLevel::Info,
        LogLevel::Error,
        LogLevel::Response,
        LogLevel::Debug,
        LogLevel::Warning,
        LogLevel::Request,
    ];
    for (i, level) in levels.iter().enumerate() {
        log(&mut app, if i % 2 == 0 { "a" } else { "b" }, *level, "x");
    }
    for selected in [None, Some(pid("a")), Some(pid("b"))] {
        app.selected_proxy = selected;
        assert_eq!(
            app.get_tab_log_count(TabType::All),
            app.get_tab_log_count(TabType::Messages)
                + app.get_tab_log_count(TabType::Errors)
                + app.get_tab_log_count(TabType::System)
        );
    }
}

#[test]
fn scrolling_stops_at_both_ends() {
    let mut app = App::new();
    for i in 0..3 {
        log(&mut app, "a", LogLevel::Request, &format!("m{}", i));
    }
    assert_eq!(app.selected_index, 2);
    app.scroll_down();
    assert_eq!(app.selected_index, 2);
    assert_eq!(app.navigation_mode, NavigationMode::Navigate);
    app.scroll_up();
    app.scroll_up();
    app.scroll_up();
    assert_eq!(app.selected_index, 0);
    app.scroll_down();
    assert_eq!(app.selected_index, 1);
    assert_eq!(app.tab_states.get(TabType::Messages).selected_index, 1);
}

#[test]
fn paging_moves_by_ten_within_the_list() {
    let mut app = App::new();
    for i in 0..25 {
        log(&mut app, "a", LogLevel::Request, &format!("m{}", i));
    }
    app.scroll_to_top();
    assert_eq!(app.selected_index, 0);
    assert_eq!(app.viewport_offset, 0);
    app.page_down();
    assert_eq!(app.selected_index, 10);
    app.page_down();
    app.page_down();
    assert_eq!(app.selected_index, 24);
    app.page_up();
    assert_eq!(app.selected_index, 14);
    app.page_up();
    app.page_up();
    assert_eq!(app.selected_index, 0);
    assert_eq!(app.tab_states.get(TabType::Messages).selected_index, 0);
    app.scroll_to_bottom();
    assert_eq!(app.selected_index, 24);
    assert_eq!(app.navigation_mode, NavigationMode::Navigate);
}

#[test]
fn page_down_on_an_empty_list_only_enters_navigation() {
    let mut app = App::new();
    app.page_down();
    assert_eq!(app.selected_index, 0);
    assert_eq!(app.navigation_mode, NavigationMode::Navigate);
    assert_eq!(app.tab_states.get(TabType::Messages), follow_state());
}

#[test]
fn exit_navigation_mode_returns_to_the_latest_log() {
    let mut app = App::new();
    for i in 0..5 {
        log(&mut app, "a", LogLevel::Request, &format!("m{}", i));
    }
    app.scroll_to_top();
    app.exit_navigation_mode();
    assert_eq!(app.navigation_mode, NavigationMode::Follow);
    assert_eq!(app.selected_index, 4);
    assert_eq!(app.tab_states.get(TabType::Messages).navigation_mode, NavigationMode::Follow);
}

#[test]
fn switching_tabs_and_back_restores_the_selection() {
    let mut app = App::new();
    for i in 0..6 {
        log(&mut app, "a", LogLevel::Request, &format!("r{}", i));
        log(&mut app, "a", LogLevel::Error, &format!("e{}", i));
    }
    app.scroll_up();
    app.scroll_up();
    app.viewport_offset = 1;
    let before = (app.selected_index, app.viewport_offset, app.navigation_mode);
    app.switch_tab(TabType::Errors);
    assert_eq!(app.active_tab, TabType::Errors);
    assert_eq!(app.selected_index, 0);
    app.scroll_down();
    app.switch_tab(TabType::Messages);
    assert_eq!((app.selected_index, app.viewport_offset, app.navigation_mode), before);
    app.switch_tab(TabType::Errors);
    assert_eq!(app.selected_index, 1);
}

#[test]
fn switching_to_an_empty_tab_resets_the_selection() {
    let mut app = App::new();
    for i in 0..4 {
        log(&mut app, "a", LogLevel::Request, &format!("r{}", i));
    }
    app.tab_states.set(
        TabType::System,
        ListState { selected_index: 9, viewport_offset: 5, navigation_mode: NavigationMode::Navigate },
    );
    app.switch_tab(TabType::System);
    assert_eq!(app.selected_index, 0);
    assert_eq!(app.viewport_offset, 0);
    assert_eq!(app.navigation_mode, NavigationMode::Navigate);
}

#[test]
fn switching_clamps_a_saved_selection_past_the_end() {
    let mut app = App::new();
    log(&mut app, "a", LogLevel::Error, "e0");
    log(&mut app, "a", LogLevel::Error, "e1");
    app.tab_states.set(
        TabType::Errors,
        ListState { selected_index: 7, viewport_offset: 0, navigation_mode: NavigationMode::Navigate },
    );
    app.switch_tab(TabType::Errors);
    assert_eq!(app.selected_index, 1);
}

#[test]
fn next_and_prev_tab_cycle_through_all_four() {
    let mut app = App::new();
    let mut seen = vec![app.active_tab];
    for _ in 0..4 {
        app.next_tab();
        seen.push(app.active_tab);
    }
    assert_eq!(
        seen,
        vec![TabType::Messages, TabType::Errors, TabType::System, TabType::All, TabType::Messages]
    );
    app.prev_tab();
    assert_eq!(app.active_tab, TabType::All);
    app.prev_tab();
    assert_eq!(app.active_tab, TabType::System);
    app.next_tab();
    assert_eq!(app.active_tab, TabType::All);
    app.next_tab();
    assert_eq!(app.active_tab, TabType::Messages);
}

#[test]
fn prepared_viewport_shows_the_selection() {
    let mut app = App::new();
    for i in 0..20 {
        log(&mut app, "a", LogLevel::Request, &format!("m{}", i));
    }
    app.prepare_viewport(5);
    assert_eq!(app.selected_index, 19);
    assert_eq!(app.viewport_offset, 15);
    assert_eq!(app.get_relative_selection(5), Some(4));
    let visible: Vec<String> = app.get_visible_logs(5).iter().map(|l| l.message.clone()).collect();
    assert_eq!(visible, vec!["m15", "m16", "m17", "m18", "m19"]);
    app.scroll_to_top();
    app.viewport_offset = 15;
    assert_eq!(app.get_relative_selection(5), None);
    app.prepare_viewport(5);
    assert_eq!(app.viewport_offset, 0);
    assert_eq!(app.get_relative_selection(5), Some(0));
}

#[test]
fn prepare_viewport_clamps_the_selection_and_handles_empty_lists() {
    let mut app = App::new();
    app.selected_index = 4;
    app.viewport_offset = 3;
    app.prepare_viewport(10);
    assert_eq!(app.selected_index, 0);
    assert_eq!(app.viewport_offset, 0);
    log(&mut app, "a", LogLevel::Request, "m0");
    log(&mut app, "a", LogLevel::Request, "m1");
    app.selected_index = 9;
    app.viewport_offset = 0;
    app.prepare_viewport(0);
    assert_eq!(app.selected_index, 1);
    assert_eq!(app.viewport_offset, 0);
}

#[test]
fn visible_logs_are_empty_for_zero_height_or_empty_list() {
    let mut app = App::new();
    assert!(app.get_visible_logs(5).is_empty());
    assert_eq!(app.get_relative_selection(5), None);
    log(&mut app, "a", LogLevel::Request, "m0");
    assert!(app.get_visible_logs(0).is_empty());
    app.viewport_offset = 50;
    let visible: Vec<String> = app.get_visible_logs(3).iter().map(|l| l.message.clone()).collect();
    assert_eq!(visible, vec!["m0"]);
}

#[test]
fn proxy_list_is_sorted_by_name() {
    let mut app = App::new();
    app.handle_event(AppEvent::ProxyConnected(proxy("1", "delta")));
    app.handle_event(AppEvent::ProxyConnected(proxy("2", "alpha")));
    app.handle_event(AppEvent::ProxyConnected(proxy("3", "Zulu")));
    app.handle_event(AppEvent::ProxyConnected(proxy("4", "\u{c9}mile")));
    app.handle_event(AppEvent::ProxyConnected(proxy("5", "alp")));
    let names: Vec<String> = app.get_proxy_list().iter().map(|p| p.name.clone()).collect();
    let mut expected = names.clone();
    expected.sort();
    assert_eq!(names, expected);
    assert_eq!(names, vec!["Zulu", "alp", "alpha", "delta", "\u{c9}mile"]);
}

#[test]
fn proxy_cursor_stays_within_the_list() {
    let mut app = App::new();
    app.proxy_scroll_down();
    assert_eq!(app.proxy_selected_index, 0);
    app.handle_event(AppEvent::ProxyConnected(proxy("1", "one")));
    app.handle_event(AppEvent::ProxyConnected(proxy("2", "two")));
    app.proxy_scroll_down();
    app.proxy_scroll_down();
    assert_eq!(app.proxy_selected_index, 1);
    app.proxy_scroll_up();
    app.proxy_scroll_up();
    assert_eq!(app.proxy_selected_index, 0);
}

#[test]
fn selecting_a_proxy_narrows_logs_and_follows_the_latest() {
    let mut app = App::new();
    app.handle_event(AppEvent::ProxyConnected(proxy("p-b", "bravo")));
    app.handle_event(AppEvent::ProxyConnected(proxy("p-a", "alpha")));
    log(&mut app, "p-a", LogLevel::Request, "a1");
    log(&mut app, "p-b", LogLevel::Request, "b1");
    log(&mut app, "p-a", LogLevel::Request, "a2");
    app.scroll_to_top();
    app.viewport_offset = 2;
    app.proxy_selected_index = 0;
    app.select_current_proxy();
    assert_eq!(app.selected_proxy, Some(pid("p-a")));
    assert_eq!(messages(&app), vec!["a1", "a2"]);
    assert_eq!(app.selected_index, 1);
    assert_eq!(app.viewport_offset, 0);
    assert_eq!(app.navigation_mode, NavigationMode::Follow);
    assert_eq!(app.tab_states.get(TabType::Messages).selected_index, 1);
    app.clear_proxy_selection();
    assert_eq!(app.selected_proxy, None);
    assert_eq!(app.selected_index, 2);
}

#[test]
fn selecting_past_the_proxy_list_changes_nothing() {
    let mut app = App::new();
    app.handle_event(AppEvent::ProxyConnected(proxy("p", "only")));
    app.proxy_selected_index = 3;
    app.select_current_proxy();
    assert_eq!(app.selected_proxy, None);
}

#[test]
fn selecting_a_proxy_without_logs_selects_the_top() {
    let mut app = App::new();
    app.handle_event(AppEvent::ProxyConnected(proxy("p", "quiet")));
    log(&mut app, "other", LogLevel::Request, "x");
    app.select_current_proxy();
    assert_eq!(app.selected_index, 0);
    assert!(app.get_filtered_logs().is_empty());
}

#[test]
fn total_stats_sums_every_proxy() {
    let mut app = App::new();
    assert_eq!(app.total_stats().total_requests, 0);
    app.handle_event(AppEvent::ProxyConnected(proxy("a", "alpha")));
    app.handle_event(AppEvent::ProxyConnected(proxy("b", "beta")));
    app.handle_event(AppEvent::StatsUpdate(stats("a", 10, 8, 2, 1, 1000)));
    app.handle_event(AppEvent::StatsUpdate(stats("b", 5, 4, 1, 3, 24)));
    let total = app.total_stats();
    assert_eq!(total.total_requests, 15);
    assert_eq!(total.successful_requests, 12);
    assert_eq!(total.failed_requests, 3);
    assert_eq!(total.active_connections, 4);
    assert_eq!(total.bytes_transferred, 1024);
    assert_eq!(total.proxy_id, pid(""));
}

#[test]
fn cursor_marks_the_listed_entry_for_the_detail_view() {
    let mut app = App::new();
    log(&mut app, "a", LogLevel::Info, "info");
    log(&mut app, "a", LogLevel::Request, "req");
    log(&mut app, "a", LogLevel::Info, "info2");
    log(&mut app, "a", LogLevel::Response, "resp");
    app.scroll_up();
    app.select_log_at_cursor();
    assert_eq!(app.selected_log_index, Some(1));
    assert_eq!(app.get_selected_log().map(|l| l.message.clone()), Some("req".to_string()));
    app.show_selected_log_detail();
    assert!(app.show_detail_view);
    app.hide_detail_view();
    assert!(!app.show_detail_view);
    assert_eq!(app.selected_log_index, None);
    assert!(app.get_selected_log().is_none());
}

#[test]
fn detail_view_opens_only_for_requests_and_responses() {
    let mut app = App::new();
    log(&mut app, "a", LogLevel::Warning, "warn");
    app.switch_tab(TabType::Errors);
    app.select_log_at_cursor();
    assert_eq!(app.selected_log_index, Some(0));
    app.show_selected_log_detail();
    assert!(!app.show_detail_view);
    app.selected_log_index = Some(5);
    assert!(app.get_selected_log().is_none());
    app.show_selected_log_detail();
    assert!(!app.show_detail_view);
}

#[test]
fn select_log_at_cursor_without_entries_keeps_the_mark() {
    let mut app = App::new();
    app.selected_log_index = Some(3);
    app.select_log_at_cursor();
    assert_eq!(app.selected_log_index, Some(3));
}

#[test]
fn word_wrap_toggles_back_and_forth() {
    let mut app = App::new();
    app.toggle_word_wrap();
    assert!(!app.detail_word_wrap);
    app.toggle_word_wrap();
    assert!(app.detail_word_wrap);
}

#[test]
fn focus_moves_between_panels() {
    let mut app = App::new();
    app.switch_focus_to_proxy_list();
    assert_eq!(app.focus_area, FocusArea::ProxyList);
    app.switch_focus_to_logs();
    assert_eq!(app.focus_area, FocusArea::LogView);
}

#[test]
fn clear_logs_resets_every_tab() {
    let mut app = App::new();
    for i in 0..5 {
        log(&mut app, "a", LogLevel::Request, &format!("m{}", i));
    }
    app.scroll_up();
    app.switch_tab(TabType::All);
    app.scroll_up();
    app.clear_logs();
    assert!(app.logs.is_empty());
    assert_eq!(app.selected_index, 0);
    assert_eq!(app.viewport_offset, 0);
    assert_eq!(app.navigation_mode, NavigationMode::Follow);
    for tab in [TabType::All, TabType::Messages, TabType::Errors, TabType::System] {
        assert_eq!(app.tab_states.get(tab), follow_state());
    }
    assert_eq!(app.active_tab, TabType::All);
}

#[test]
fn refresh_and_tick_leave_the_state_alone() {
    let mut app = App::new();
    log(&mut app, "a", LogLevel::Request, "m");
    app.refresh();
    app.tick();
    assert_eq!(app.logs.len(), 1);
    assert_eq!(app.selected_index, 0);
}

#[test]
fn format_prefers_metadata_as_pretty_json() {
    let app = App::new();
    let log = LogEntry {
        proxy_id: pid("a"),
        level: LogLevel::Request,
        message: "{\"other\":1}".to_string(),
        metadata: Some("{\"method\":\"tools/list\"}".to_string()),
    };
    assert_eq!(app.format_log_content(&log), "{\n  \"method\": \"tools/list\"\n}");
}

#[test]
fn format_pretty_prints_a_json_message() {
    let app = App::new();
    let log = entry("a", LogLevel::Response, "{\"id\":1,\"result\":[1,2]}");
    assert_eq!(app.format_log_content(&log), "{\n  \"id\": 1,\n  \"result\": [\n    1,\n    2\n  ]\n}");
}

#[test]
fn format_skips_metadata_that_is_not_json() {
    let app = App::new();
    let log = LogEntry {
        proxy_id: pid("a"),
        level: LogLevel::Response,
        message: "[true,null]".to_string(),
        metadata: Some("not json".to_string()),
    };
    assert_eq!(app.format_log_content(&log), "[\n  true,\n  null\n]");
}

#[test]
fn format_falls_back_to_the_raw_message() {
    let app = App::new();
    let log = entry("a", LogLevel::Info, "proxy started on :8080");
    assert_eq!(app.format_log_content(&log), "proxy started on :8080");
}
