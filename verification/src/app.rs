//! The monitor's interface state: what happens on each event from the proxies
//! and on each key the user presses.

use vstd::prelude::*;
use crate::model::{LogEntry, LogLevel, ProxyId, ProxyInfo, ProxyStats};
use crate::filter::{TabType, shown_positions, tab_after, tab_before, count_shown, is_shown,
    shown_positions_of, lemma_shown_positions_step};
use crate::proxies::{connected, disconnected, stats_updated, connect_proxy, disconnect_proxy,
    update_proxy_stats, is_name_order, name_order, name_sorted, StatField, stat_sum, totals_fit,
    lemma_stat_sum_prefix};
use crate::json::{format_log_text, log_text};

verus! {

/// The log buffer keeps at most this many entries, dropping the oldest.
pub const MAX_LOGS: usize = 10000;

/// How far page-up and page-down move the selection.
pub const PAGE_SIZE: usize = 10;

/// What the proxies report to the monitor.
#[derive(Debug)]
pub enum AppEvent {
    ProxyConnected(ProxyInfo),
    ProxyDisconnected(ProxyId),
    NewLogEntry(LogEntry),
    StatsUpdate(ProxyStats),
}

/// How the log selection moves.
#[derive(Debug, Clone, Copy, PartialEq, Eq, Structural)]
pub enum NavigationMode {
    /// The selection follows the latest entry.
    Follow,
    /// The user moves the selection.
    Navigate,
}

/// Which panel has the keyboard.
#[derive(Debug, Clone, Copy, PartialEq, Eq, Structural)]
pub enum FocusArea {
    /// The proxy list on the left.
    ProxyList,
    /// The log view on the right.
    LogView,
}

/// Selection and scroll position of one tab.
#[derive(Debug, Clone, Copy, PartialEq, Eq, Structural)]
pub struct ListState {
    pub selected_index: usize,
    pub viewport_offset: usize,
    pub navigation_mode: NavigationMode,
}

/// The saved selection and scroll position of every tab.
#[derive(Debug, Clone, Copy, PartialEq, Eq, Structural)]
pub struct TabStates {
    pub all: ListState,
    pub messages: ListState,
    pub errors: ListState,
    pub system: ListState,
}

/// A list state moved back by `by` entries, as after dropping the oldest logs.
pub open spec fn shifted_back(state: ListState, by: usize) -> ListState {
    ListState {
        selected_index: if state.selected_index > 0 {
            if state.selected_index >= by { (state.selected_index - by) as usize } else { 0 }
        } else {
            state.selected_index
        },
        viewport_offset: if state.viewport_offset > 0 {
            if state.viewport_offset >= by { (state.viewport_offset - by) as usize } else { 0 }
        } else {
            state.viewport_offset
        },
        navigation_mode: state.navigation_mode,
    }
}

impl ListState {
    /// The state of a tab with nothing selected, following the latest entry.
    pub open spec fn initial() -> ListState {
        ListState { selected_index: 0, viewport_offset: 0, navigation_mode: NavigationMode::Follow }
    }

    fn shift_back(&mut self, by: usize)
        ensures
            *final(self) == shifted_back(*old(self), by),
    {
        if self.selected_index > 0 {
            self.selected_index = self.selected_index.saturating_sub(by);
        }
        if self.viewport_offset > 0 {
            self.viewport_offset = self.viewport_offset.saturating_sub(by);
        }
    }
}

impl TabStates {
    /// The saved state of `tab`.
    pub open spec fn of(self, tab: TabType) -> ListState {
        match tab {
            TabType::All => self.all,
            TabType::Messages => self.messages,
            TabType::Errors => self.errors,
            TabType::System => self.system,
        }
    }

    /// These states with the one of `tab` replaced by `state`.
    pub open spec fn with(self, tab: TabType, state: ListState) -> TabStates {
        match tab {
            TabType::All => TabStates { all: state, ..self },
            TabType::Messages => TabStates { messages: state, ..self },
            TabType::Errors => TabStates { errors: state, ..self },
            TabType::System => TabStates { system: state, ..self },
        }
    }

    /// Every saved state moved back by `by` entries.
    pub open spec fn shifted_back_by(self, by: usize) -> TabStates {
        TabStates {
            all: shifted_back(self.all, by),
            messages: shifted_back(self.messages, by),
            errors: shifted_back(self.errors, by),
            system: shifted_back(self.system, by),
        }
    }

    /// Every tab in `state`.
    pub open spec fn uniform(state: ListState) -> TabStates {
        TabStates { all: state, messages: state, errors: state, system: state }
    }

    /// Every tab in the same state.
    pub fn new(state: ListState) -> (r: TabStates)
        ensures
            r == TabStates::uniform(state),
    {
        TabStates { all: state, messages: state, errors: state, system: state }
    }

    /// The saved state of `tab`.
    pub fn get(&self, tab: TabType) -> (r: ListState)
        ensures
            r == self.of(tab),
    {
        match tab {
            TabType::All => self.all,
            TabType::Messages => self.messages,
            TabType::Errors => self.errors,
            TabType::System => self.system,
        }
    }

    /// Saves `state` as the state of `tab`.
    pub fn set(&mut self, tab: TabType, state: ListState)
        ensures
            *final(self) == old(self).with(tab, state),
    {
        match tab {
            TabType::All => self.all = state,
            TabType::Messages => self.messages = state,
            TabType::Errors => self.errors = state,
            TabType::System => self.system = state,
        }
    }

    /// Moves every saved selection back by `by` entries.
    fn shift_back(&mut self, by: usize)
        ensures
            *final(self) == old(self).shifted_back_by(by),
    {
        self.all.shift_back(by);
        self.messages.shift_back(by);
        self.errors.shift_back(by);
        self.system.shift_back(by);
    }
}

/// How many of the oldest entries the buffer drops to keep `MAX_LOGS`.
pub open spec fn surplus(logs: Seq<LogEntry>) -> int {
    if logs.len() > MAX_LOGS {
        logs.len() - MAX_LOGS
    } else {
        0
    }
}

/// The log buffer after appending an entry: the newest `MAX_LOGS` entries.
pub open spec fn capped(logs: Seq<LogEntry>) -> Seq<LogEntry> {
    if logs.len() > MAX_LOGS {
        logs.subrange(logs.len() - MAX_LOGS, logs.len() as int)
    } else {
        logs
    }
}

/// The interface state as mathematical values.
pub struct AppView {
    pub proxies: Seq<ProxyInfo>,
    pub logs: Seq<LogEntry>,
    pub selected_index: usize,
    pub viewport_offset: usize,
    pub selected_proxy: Option<ProxyId>,
    pub proxy_selected_index: usize,
    pub focus_area: FocusArea,
    pub active_tab: TabType,
    pub tab_states: TabStates,
    pub selected_log_index: Option<usize>,
    pub show_detail_view: bool,
    pub detail_word_wrap: bool,
    pub navigation_mode: NavigationMode,
}

impl AppView {
    /// The state of a monitor that has seen nothing yet.
    pub open spec fn initial() -> AppView {
        AppView {
            proxies: Seq::empty(),
            logs: Seq::empty(),
            selected_index: 0,
            viewport_offset: 0,
            selected_proxy: None,
            proxy_selected_index: 0,
            focus_area: FocusArea::LogView,
            active_tab: TabType::Messages,
            tab_states: TabStates::uniform(ListState::initial()),
            selected_log_index: None,
            show_detail_view: false,
            detail_word_wrap: true,
            navigation_mode: NavigationMode::Follow,
        }
    }

    /// Positions in the log of the entries that `tab` lists under the current proxy filter.
    pub open spec fn shown_in(self, tab: TabType) -> Seq<int> {
        shown_positions(self.logs, self.selected_proxy, tab)
    }

    /// Positions in the log of the entries that the active tab lists.
    pub open spec fn shown(self) -> Seq<int> {
        self.shown_in(self.active_tab)
    }

    /// Number of entries that the active tab lists.
    pub open spec fn shown_count(self) -> int {
        self.shown().len() as int
    }

    /// The selection and scroll position of the active tab.
    pub open spec fn list_state(self) -> ListState {
        ListState {
            selected_index: self.selected_index,
            viewport_offset: self.viewport_offset,
            navigation_mode: self.navigation_mode,
        }
    }

    /// The state with the active tab's selection saved in the tab states.
    pub open spec fn saved(self) -> AppView {
        AppView { tab_states: self.tab_states.with(self.active_tab, self.list_state()), ..self }
    }

    /// The state with the selection moved by the user.
    pub open spec fn navigating(self) -> AppView {
        AppView { navigation_mode: NavigationMode::Navigate, ..self }
    }

    /// The state after an event from the proxies.
    pub open spec fn after_event(self, event: AppEvent) -> AppView {
        match event {
            AppEvent::ProxyConnected(info) => AppView { proxies: connected(self.proxies, info), ..self },
            AppEvent::ProxyDisconnected(id) => AppView {
                proxies: disconnected(self.proxies, id@),
                selected_proxy: match self.selected_proxy {
                    Some(p) => if p@ == id@ { None } else { self.selected_proxy },
                    None => None,
                },
                ..self
            },
            AppEvent::NewLogEntry(entry) => {
                let pushed = self.logs.push(entry);
                let stored = AppView {
                    logs: capped(pushed),
                    tab_states: if surplus(pushed) > 0 {
                        self.tab_states.shifted_back_by(surplus(pushed) as usize)
                    } else {
                        self.tab_states
                    },
                    ..self
                };
                if self.navigation_mode == NavigationMode::Follow && stored.shown_count() > 0 {
                    AppView { selected_index: (stored.shown_count() - 1) as usize, ..stored }
                } else {
                    stored
                }
            },
            AppEvent::StatsUpdate(stats) => AppView { proxies: stats_updated(self.proxies, stats), ..self },
        }
    }

    /// The state after the log is cleared.
    pub open spec fn after_clear_logs(self) -> AppView {
        AppView {
            logs: Seq::empty(),
            selected_index: 0,
            viewport_offset: 0,
            navigation_mode: NavigationMode::Follow,
            tab_states: TabStates::uniform(ListState::initial()),
            ..self
        }
    }

    /// The state after moving the selection up by one.
    pub open spec fn after_scroll_up(self) -> AppView {
        if self.selected_index > 0 {
            AppView { selected_index: (self.selected_index - 1) as usize, ..self.navigating() }.saved()
        } else {
            self.navigating()
        }
    }

    /// The state after moving the selection down by one.
    pub open spec fn after_scroll_down(self) -> AppView {
        if self.shown_count() > 0 && self.selected_index < self.shown_count() - 1 {
            AppView { selected_index: (self.selected_index + 1) as usize, ..self.navigating() }.saved()
        } else {
            self.navigating()
        }
    }

    /// The state after moving the selection up by a page.
    pub open spec fn after_page_up(self) -> AppView {
        AppView {
            selected_index: if self.selected_index >= PAGE_SIZE {
                (self.selected_index - PAGE_SIZE) as usize
            } else {
                0
            },
            ..self.navigating()
        }.saved()
    }

    /// Whether moving down a page computes within `usize`.
    pub open spec fn page_down_fits(self) -> bool {
        self.shown_count() > 0 ==> self.selected_index + PAGE_SIZE <= usize::MAX
    }

    /// The state after moving the selection down by a page, stopping at the last entry.
    pub open spec fn after_page_down(self) -> AppView {
        let n = self.shown_count();
        if n > 0 {
            AppView {
                selected_index: if self.selected_index + PAGE_SIZE < n - 1 {
                    (self.selected_index + PAGE_SIZE) as usize
                } else {
                    (n - 1) as usize
                },
                ..self.navigating()
            }.saved()
        } else {
            self.navigating()
        }
    }

    /// The state after jumping to the first entry.
    pub open spec fn after_scroll_to_top(self) -> AppView {
        AppView { selected_index: 0, viewport_offset: 0, ..self.navigating() }.saved()
    }

    /// The state after jumping to the last entry.
    pub open spec fn after_scroll_to_bottom(self) -> AppView {
        if self.shown_count() > 0 {
            AppView { selected_index: (self.shown_count() - 1) as usize, ..self.navigating() }.saved()
        } else {
            self.navigating()
        }
    }

    /// The state after going back to following the latest entry.
    pub open spec fn after_exit_navigation_mode(self) -> AppView {
        let following = AppView { navigation_mode: NavigationMode::Follow, ..self };
        if self.shown_count() > 0 {
            AppView { selected_index: (self.shown_count() - 1) as usize, ..following }.saved()
        } else {
            following
        }
    }

    /// The state with the selection on the latest entry, following it, scrolled to the top.
    pub open spec fn following_latest(self) -> AppView {
        AppView {
            navigation_mode: NavigationMode::Follow,
            selected_index: if self.shown_count() > 0 { (self.shown_count() - 1) as usize } else { 0 },
            viewport_offset: 0,
            ..self
        }.saved()
    }

    /// The state after narrowing the log view to the proxy `id`.
    pub open spec fn after_select_proxy(self, id: ProxyId) -> AppView {
        AppView { selected_proxy: Some(id), ..self }.following_latest()
    }

    /// The state after showing the logs of every proxy again.
    pub open spec fn after_clear_proxy_selection(self) -> AppView {
        AppView { selected_proxy: None, ..self }.following_latest()
    }

    /// The selection, moved onto the last listed entry when it lies past it.
    pub open spec fn clamped_selection(self) -> usize {
        if self.selected_index >= self.shown_count() {
            (self.shown_count() - 1) as usize
        } else {
            self.selected_index
        }
    }

    /// Whether fitting the viewport of `height` rows computes within `usize`.
    pub open spec fn viewport_fits(self, height: usize) -> bool {
        self.shown_count() > 0 && height > 0 && self.clamped_selection() >= self.viewport_offset
            ==> self.viewport_offset + height <= usize::MAX
    }

    /// The state after fitting a viewport of `height` rows: the selection is
    /// moved onto a listed entry and the viewport scrolled just enough to show it.
    pub open spec fn after_prepare_viewport(self, height: usize) -> AppView {
        if self.shown_count() == 0 {
            AppView { selected_index: 0, viewport_offset: 0, ..self }
        } else {
            let sel = self.clamped_selection();
            let offset = if height == 0 {
                self.viewport_offset
            } else if sel < self.viewport_offset {
                sel
            } else if sel >= self.viewport_offset + height {
                (sel - (height - 1)) as usize
            } else {
                self.viewport_offset
            };
            AppView { selected_index: sel, viewport_offset: offset, ..self }
        }
    }

    /// First listed entry that the viewport shows.
    pub open spec fn visible_start(self) -> int {
        if self.viewport_offset < self.shown_count() - 1 {
            self.viewport_offset as int
        } else {
            self.shown_count() - 1
        }
    }

    /// Whether listing the visible entries of a viewport of `height` rows computes within `usize`.
    pub open spec fn visible_fits(self, height: usize) -> bool {
        self.shown_count() > 0 && height > 0 ==> self.visible_start() + height <= usize::MAX
    }

    /// The listed entries (by position in the list, from, to) that a viewport of `height` rows shows.
    pub open spec fn visible_range(self, height: usize) -> (int, int) {
        if self.shown_count() == 0 || height == 0 {
            (0, 0)
        } else {
            let start = self.visible_start();
            let end = if start + height < self.shown_count() {
                start + height
            } else {
                self.shown_count()
            };
            (start, end)
        }
    }

    /// Whether locating the selection in a viewport of `height` rows computes within `usize`.
    pub open spec fn relative_fits(self, height: usize) -> bool {
        self.shown_count() > 0 ==> self.viewport_offset + height <= usize::MAX
    }

    /// The row of the selection within a viewport of `height` rows, if it shows there.
    pub open spec fn relative_selection(self, height: usize) -> Option<usize> {
        if self.shown_count() == 0 {
            None
        } else {
            let end = if self.viewport_offset + height < self.shown_count() {
                self.viewport_offset + height
            } else {
                self.shown_count()
            };
            if self.selected_index >= self.viewport_offset && self.selected_index < end {
                Some((self.selected_index - self.viewport_offset) as usize)
            } else {
                None
            }
        }
    }

    /// The state after switching to `tab`: the active tab's selection is saved,
    /// the one saved for `tab` restored, and moved back onto its list.
    pub open spec fn after_switch_tab(self, tab: TabType) -> AppView {
        let saved = self.saved();
        let restored = saved.tab_states.of(tab);
        let switched = AppView {
            active_tab: tab,
            selected_index: restored.selected_index,
            viewport_offset: restored.viewport_offset,
            navigation_mode: restored.navigation_mode,
            ..saved
        };
        let n = switched.shown_count();
        if n == 0 {
            AppView { selected_index: 0, viewport_offset: 0, ..switched }
        } else if switched.selected_index >= n {
            AppView { selected_index: (n - 1) as usize, ..switched }
        } else {
            switched
        }
    }

    /// The state after marking the entry under the cursor as the one to show in detail.
    pub open spec fn after_select_log_at_cursor(self) -> AppView {
        if self.shown_count() > 0 && self.selected_index < self.shown_count() {
            AppView { selected_log_index: Some(self.shown()[self.selected_index as int] as usize), ..self }
        } else {
            self
        }
    }

    /// The state after opening the detail view, which only requests and responses have.
    pub open spec fn after_show_selected_log_detail(self) -> AppView {
        match self.selected_log_index {
            Some(i) => if i < self.logs.len() && (self.logs[i as int].level == LogLevel::Request
                || self.logs[i as int].level == LogLevel::Response) {
                AppView { show_detail_view: true, ..self }
            } else {
                self
            },
            None => self,
        }
    }
}

/// The state of the monitor's interface.
pub struct App {
    pub proxies: Vec<ProxyInfo>,
    pub logs: Vec<LogEntry>,
    /// Currently selected item in the filtered list.
    pub selected_index: usize,
    /// First visible item in the viewport.
    pub viewport_offset: usize,
    pub selected_proxy: Option<ProxyId>,
    /// Currently selected proxy in the list.
    pub proxy_selected_index: usize,
    pub focus_area: FocusArea,
    pub active_tab: TabType,
    /// Selection and viewport stored for each tab.
    pub tab_states: TabStates,
    pub selected_log_index: Option<usize>,
    pub show_detail_view: bool,
    pub detail_word_wrap: bool,
    pub navigation_mode: NavigationMode,
}

impl View for App {
    type V = AppView;

    open spec fn view(&self) -> AppView {
        AppView {
            proxies: self.proxies@,
            logs: self.logs@,
            selected_index: self.selected_index,
            viewport_offset: self.viewport_offset,
            selected_proxy: self.selected_proxy,
            proxy_selected_index: self.proxy_selected_index,
            focus_area: self.focus_area,
            active_tab: self.active_tab,
            tab_states: self.tab_states,
            selected_log_index: self.selected_log_index,
            show_detail_view: self.show_detail_view,
            detail_word_wrap: self.detail_word_wrap,
            navigation_mode: self.navigation_mode,
        }
    }
}

impl App {
    /// A monitor with no proxies and no logs, on the Messages tab, following the latest log.
    pub fn new() -> (r: App)
        ensures
            r@ == AppView::initial(),
    {
        let initial = ListState { selected_index: 0, viewport_offset: 0, navigation_mode: NavigationMode::Follow };
        App {
            proxies: Vec::new(),
            logs: Vec::new(),
            selected_index: 0,
            viewport_offset: 0,
            selected_proxy: None,
            proxy_selected_index: 0,
            focus_area: FocusArea::LogView,
            active_tab: TabType::Messages,
            tab_states: TabStates::new(initial),
            selected_log_index: None,
            show_detail_view: false,
            detail_word_wrap: true,
            navigation_mode: NavigationMode::Follow,
        }
    }

    /// Number of entries that the active tab lists.
    fn shown_count(&self) -> (r: usize)
        ensures
            r == self@.shown_count(),
    {
        self.get_tab_log_count(self.active_tab)
    }

    /// Applies an event from the proxies.
    pub fn handle_event(&mut self, event: AppEvent)
        ensures
            final(self)@ == old(self)@.after_event(event),
    {
        match event {
            AppEvent::ProxyConnected(info) => {
                connect_proxy(&mut self.proxies, info);
            },
            AppEvent::ProxyDisconnected(id) => {
                self.proxy_disconnected(id);
            },
            AppEvent::NewLogEntry(entry) => {
                self.log_entry_arrived(entry);
            },
            AppEvent::StatsUpdate(stats) => {
                update_proxy_stats(&mut self.proxies, stats);
            },
        }
    }

    fn proxy_disconnected(&mut self, id: ProxyId)
        ensures
            final(self)@ == old(self)@.after_event(AppEvent::ProxyDisconnected(id)),
    {
        disconnect_proxy(&mut self.proxies, &id);
        let is_selected = match &self.selected_proxy {
            Some(p) => *p == id,
            None => false,
        };
        if is_selected {
            self.selected_proxy = None;
        }
    }

    fn log_entry_arrived(&mut self, entry: LogEntry)
        ensures
            final(self)@ == old(self)@.after_event(AppEvent::NewLogEntry(entry)),
    {
        let ghost before = self@;
        self.logs.push(entry);
        if self.logs.len() > MAX_LOGS {
            let dropped = self.logs.len() - MAX_LOGS;
            let kept = self.logs.split_off(dropped);
            self.logs = kept;
            // The saved selections follow their entries back by the number dropped.
            self.tab_states.shift_back(dropped);
        }
        assert(self.logs@ == capped(before.logs.push(entry)));
        if self.navigation_mode == NavigationMode::Follow {
            let n = self.shown_count();
            if n > 0 {
                self.selected_index = n - 1;
            }
        }
    }

    /// Empties the log and resets the selection of every tab.
    pub fn clear_logs(&mut self)
        ensures
            final(self)@ == old(self)@.after_clear_logs(),
    {
        self.logs.clear();
        self.selected_index = 0;
        self.viewport_offset = 0;
        self.navigation_mode = NavigationMode::Follow;
        self.tab_states = TabStates::new(
            ListState { selected_index: 0, viewport_offset: 0, navigation_mode: NavigationMode::Follow },
        );
    }

    /// Asks for fresh data; the state keeps nothing to refresh.
    pub fn refresh(&mut self)
        ensures
            final(self)@ == old(self)@,
    {
    }

    /// Saves the active tab's selection and scroll position.
    fn save_tab_state(&mut self)
        ensures
            final(self)@ == old(self)@.saved(),
    {
        let state = ListState {
            selected_index: self.selected_index,
            viewport_offset: self.viewport_offset,
            navigation_mode: self.navigation_mode,
        };
        self.tab_states.set(self.active_tab, state);
    }

    /// Moves the selection up by one.
    pub fn scroll_up(&mut self)
        ensures
            final(self)@ == old(self)@.after_scroll_up(),
    {
        self.navigation_mode = NavigationMode::Navigate;
        if self.selected_index > 0 {
            self.selected_index -= 1;
            self.save_tab_state();
        }
    }

    /// Moves the selection down by one, stopping at the last listed entry.
    pub fn scroll_down(&mut self)
        ensures
            final(self)@ == old(self)@.after_scroll_down(),
    {
        self.navigation_mode = NavigationMode::Navigate;
        let n = self.shown_count();
        if n > 0 && self.selected_index < n - 1 {
            self.selected_index += 1;
            self.save_tab_state();
        }
    }

    /// Moves the selection up by a page, stopping at the first entry.
    pub fn page_up(&mut self)
        ensures
            final(self)@ == old(self)@.after_page_up(),
    {
        self.navigation_mode = NavigationMode::Navigate;
        self.selected_index = self.selected_index.saturating_sub(PAGE_SIZE);
        self.save_tab_state();
    }

    /// Moves the selection down by a page, stopping at the last listed entry.
    pub fn page_down(&mut self)
        requires
            old(self)@.page_down_fits(),
        ensures
            final(self)@ == old(self)@.after_page_down(),
    {
        self.navigation_mode = NavigationMode::Navigate;
        let n = self.shown_count();
        if n > 0 {
            let moved = self.selected_index + PAGE_SIZE;
            self.selected_index = if moved < n - 1 { moved } else { n - 1 };
            self.save_tab_state();
        }
    }

    /// Jumps to the first entry.
    pub fn scroll_to_top(&mut self)
        ensures
            final(self)@ == old(self)@.after_scroll_to_top(),
    {
        self.navigation_mode = NavigationMode::Navigate;
        self.selected_index = 0;
        self.viewport_offset = 0;
        self.save_tab_state();
    }

    /// Jumps to the last listed entry.
    pub fn scroll_to_bottom(&mut self)
        ensures
            final(self)@ == old(self)@.after_scroll_to_bottom(),
    {
        self.navigation_mode = NavigationMode::Navigate;
        let n = self.shown_count();
        if n > 0 {
            self.selected_index = n - 1;
            self.save_tab_state();
        }
    }

    /// Goes back to following the latest entry.
    pub fn exit_navigation_mode(&mut self)
        ensures
            final(self)@ == old(self)@.after_exit_navigation_mode(),
    {
        self.navigation_mode = NavigationMode::Follow;
        let n = self.shown_count();
        if n > 0 {
            self.selected_index = n - 1;
            self.save_tab_state();
        }
    }

    /// Gives the keyboard to the proxy list.
    pub fn switch_focus_to_proxy_list(&mut self)
        ensures
            final(self)@ == (AppView { focus_area: FocusArea::ProxyList, ..old(self)@ }),
    {
        self.focus_area = FocusArea::ProxyList;
    }

    /// Gives the keyboard to the log view.
    pub fn switch_focus_to_logs(&mut self)
        ensures
            final(self)@ == (AppView { focus_area: FocusArea::LogView, ..old(self)@ }),
    {
        self.focus_area = FocusArea::LogView;
    }

    /// Moves the proxy selection up by one.
    pub fn proxy_scroll_up(&mut self)
        ensures
            final(self)@ == (AppView {
                proxy_selected_index: if old(self).proxy_selected_index > 0 {
                    (old(self).proxy_selected_index - 1) as usize
                } else {
                    0
                },
                ..old(self)@
            }),
    {
        if self.proxy_selected_index > 0 {
            self.proxy_selected_index -= 1;
        }
    }

    /// Moves the proxy selection down by one, stopping at the last proxy.
    pub fn proxy_scroll_down(&mut self)
        ensures
            final(self)@ == (AppView {
                proxy_selected_index: if old(self).proxy_selected_index + 1 < old(self).proxies@.len() {
                    (old(self).proxy_selected_index + 1) as usize
                } else {
                    old(self).proxy_selected_index
                },
                ..old(self)@
            }),
    {
        let proxy_count = self.get_proxy_list().len();
        if proxy_count > 0 && self.proxy_selected_index < proxy_count - 1 {
            self.proxy_selected_index += 1;
        }
    }

    /// Narrows the log view to the proxy under the cursor of the proxy list
    /// (in name order), and follows its latest entry.
    pub fn select_current_proxy(&mut self)
        ensures
            old(self).proxy_selected_index < old(self).proxies@.len() ==> final(self)@
                == old(self)@.after_select_proxy(
                old(self).proxies@[name_sorted(old(self).proxies@)[old(self).proxy_selected_index as int] as int].id,
            ),
            old(self).proxy_selected_index >= old(self).proxies@.len() ==> final(self)@ == old(self)@,
    {
        let order = name_order(&self.proxies);
        if self.proxy_selected_index < order.len() {
            let selected_proxy_id = self.proxies[order[self.proxy_selected_index]].id.clone();
            self.selected_proxy = Some(selected_proxy_id);
            self.navigation_mode = NavigationMode::Follow;
            let n = self.shown_count();
            if n > 0 {
                self.selected_index = n - 1;
            } else {
                self.selected_index = 0;
            }
            self.viewport_offset = 0;
            self.save_tab_state();
        }
    }

    /// Shows the logs of every proxy again and follows the latest entry.
    pub fn clear_proxy_selection(&mut self)
        ensures
            final(self)@ == old(self)@.after_clear_proxy_selection(),
    {
        self.selected_proxy = None;
        self.navigation_mode = NavigationMode::Follow;
        let n = self.shown_count();
        if n > 0 {
            self.selected_index = n - 1;
        } else {
            self.selected_index = 0;
        }
        self.viewport_offset = 0;
        self.save_tab_state();
    }

    /// Periodic hook for time-based updates; the state has none.
    pub fn tick(&mut self)
        ensures
            final(self)@ == old(self)@,
    {
    }
}

impl App {
    /// Fits the viewport of `height` rows: moves the selection onto a listed
    /// entry and scrolls just enough to show it.
    pub fn prepare_viewport(&mut self, height: usize)
        requires
            old(self)@.viewport_fits(height),
        ensures
            final(self)@ == old(self)@.after_prepare_viewport(height),
    {
        let n = self.shown_count();
        if n == 0 {
            self.selected_index = 0;
            self.viewport_offset = 0;
            return;
        }
        if self.selected_index >= n {
            self.selected_index = n.saturating_sub(1);
        }
        if height > 0 {
            if self.selected_index < self.viewport_offset {
                self.viewport_offset = self.selected_index;
            } else if self.selected_index >= self.viewport_offset + height {
                self.viewport_offset = self.selected_index.saturating_sub(height - 1);
            }
        }
    }

    /// The listed entries that a viewport of `height` rows shows.
    pub fn get_visible_logs(&self, height: usize) -> (r: Vec<&LogEntry>)
        requires
            self@.visible_fits(height),
        ensures
            r@.len() == self@.visible_range(height).1 - self@.visible_range(height).0,
            forall|k: int|
                0 <= k < r@.len() ==> *r@[k] == self@.logs[self@.shown()[self@.visible_range(height).0 + k]],
    {
        let filtered_logs = self.get_filtered_logs();
        let n = filtered_logs.len();
        if n == 0 || height == 0 {
            return Vec::new();
        }
        let start = if self.viewport_offset < n - 1 { self.viewport_offset } else { n - 1 };
        let end = if start + height < n { start + height } else { n };
        let mut visible: Vec<&LogEntry> = Vec::new();
        for i in start..end
            invariant
                start <= end <= n,
                n == filtered_logs@.len(),
                visible@.len() == i - start,
                forall|k: int| 0 <= k < visible@.len() ==> visible@[k] == filtered_logs@[start + k],
        {
            visible.push(filtered_logs[i]);
        }
        visible
    }

    /// The row of the selection within a viewport of `height` rows, if it shows there.
    pub fn get_relative_selection(&self, height: usize) -> (r: Option<usize>)
        requires
            self@.relative_fits(height),
        ensures
            r == self@.relative_selection(height),
    {
        let n = self.shown_count();
        if n == 0 {
            return None;
        }
        let end = if self.viewport_offset + height < n { self.viewport_offset + height } else { n };
        if self.selected_index >= self.viewport_offset && self.selected_index < end {
            Some(self.selected_index - self.viewport_offset)
        } else {
            None
        }
    }

    /// The entries that the active tab lists under the current proxy filter, oldest first.
    pub fn get_filtered_logs(&self) -> (r: Vec<&LogEntry>)
        ensures
            r@.len() == self@.shown().len(),
            forall|k: int| 0 <= k < r@.len() ==> *r@[k] == self@.logs[self@.shown()[k]],
    {
        let mut r: Vec<&LogEntry> = Vec::new();
        let n = self.logs.len();
        for i in 0..n
            invariant
                n == self.logs@.len(),
                r@.len() == shown_positions(self.logs@.take(i as int), self.selected_proxy, self.active_tab).len(),
                forall|k: int|
                    0 <= k < r@.len() ==> *r@[k] == self.logs@[shown_positions(
                        self.logs@.take(i as int),
                        self.selected_proxy,
                        self.active_tab,
                    )[k]],
        {
            proof {
                lemma_shown_positions_step(self.logs@, i as int, self.selected_proxy, self.active_tab);
            }
            if is_shown(&self.logs[i], &self.selected_proxy, self.active_tab) {
                r.push(&self.logs[i]);
            }
        }
        assert(self.logs@.take(n as int) =~= self.logs@);
        r
    }

    /// Saves the active tab's selection, switches to `tab` and restores the
    /// selection saved for it, moved back onto its list.
    pub fn switch_tab(&mut self, tab: TabType)
        ensures
            final(self)@ == old(self)@.after_switch_tab(tab),
    {
        self.save_tab_state();
        self.active_tab = tab;
        let state = self.tab_states.get(tab);
        self.selected_index = state.selected_index;
        self.viewport_offset = state.viewport_offset;
        self.navigation_mode = state.navigation_mode;
        let n = self.shown_count();
        if n == 0 {
            self.selected_index = 0;
            self.viewport_offset = 0;
        } else if self.selected_index >= n {
            self.selected_index = n - 1;
        }
    }

    /// Switches to the next tab: All, Messages, Errors, System, then All again.
    pub fn next_tab(&mut self)
        ensures
            final(self)@ == old(self)@.after_switch_tab(tab_after(old(self).active_tab)),
    {
        let next_tab = match self.active_tab {
            TabType::All => TabType::Messages,
            TabType::Messages => TabType::Errors,
            TabType::Errors => TabType::System,
            TabType::System => TabType::All,
        };
        self.switch_tab(next_tab);
    }

    /// Switches to the previous tab.
    pub fn prev_tab(&mut self)
        ensures
            final(self)@ == old(self)@.after_switch_tab(tab_before(old(self).active_tab)),
    {
        let prev_tab = match self.active_tab {
            TabType::All => TabType::System,
            TabType::Messages => TabType::All,
            TabType::Errors => TabType::Messages,
            TabType::System => TabType::Errors,
        };
        self.switch_tab(prev_tab);
    }

    /// Number of entries that `tab` lists under the current proxy filter.
    pub fn get_tab_log_count(&self, tab: TabType) -> (r: usize)
        ensures
            r == self@.shown_in(tab).len(),
    {
        count_shown(&self.logs, &self.selected_proxy, tab)
    }

    /// The proxies in name order (by name, and among equal names by position in the table).
    pub fn get_proxy_list(&self) -> (r: Vec<&ProxyInfo>)
        ensures
            r@.len() == self.proxies@.len(),
            forall|k: int| 0 <= k < r@.len() ==> *r@[k] == self.proxies@[name_sorted(self.proxies@)[k] as int],
            is_name_order(self.proxies@, name_sorted(self.proxies@)),
    {
        let order = name_order(&self.proxies);
        let mut r: Vec<&ProxyInfo> = Vec::new();
        let n = order.len();
        for i in 0..n
            invariant
                n == order@.len(),
                order@ == name_sorted(self.proxies@),
                is_name_order(self.proxies@, order@),
                r@.len() == i,
                forall|k: int| 0 <= k < r@.len() ==> *r@[k] == self.proxies@[order@[k] as int],
        {
            r.push(&self.proxies[order[i]]);
        }
        r
    }

    /// Traffic counters summed over every proxy.
    pub fn total_stats(&self) -> (r: ProxyStats)
        requires
            totals_fit(self.proxies@),
        ensures
            r.proxy_id@ == Seq::<char>::empty(),
            r.total_requests == stat_sum(self.proxies@, StatField::TotalRequests),
            r.successful_requests == stat_sum(self.proxies@, StatField::SuccessfulRequests),
            r.failed_requests == stat_sum(self.proxies@, StatField::FailedRequests),
            r.active_connections == stat_sum(self.proxies@, StatField::ActiveConnections),
            r.bytes_transferred == stat_sum(self.proxies@, StatField::BytesTransferred),
    {
        let mut total = ProxyStats::default();
        let n = self.proxies.len();
        for i in 0..n
            invariant
                n == self.proxies@.len(),
                totals_fit(self.proxies@),
                total.proxy_id@ == Seq::<char>::empty(),
                total.total_requests == stat_sum(self.proxies@.take(i as int), StatField::TotalRequests),
                total.successful_requests == stat_sum(self.proxies@.take(i as int), StatField::SuccessfulRequests),
                total.failed_requests == stat_sum(self.proxies@.take(i as int), StatField::FailedRequests),
                total.active_connections == stat_sum(self.proxies@.take(i as int), StatField::ActiveConnections),
                total.bytes_transferred == stat_sum(self.proxies@.take(i as int), StatField::BytesTransferred),
        {
            let ghost s = self.proxies@;
            proof {
                assert(s.take(i + 1).drop_last() =~= s.take(i as int));
                lemma_stat_sum_prefix(s, i + 1, StatField::TotalRequests);
                lemma_stat_sum_prefix(s, i + 1, StatField::SuccessfulRequests);
                lemma_stat_sum_prefix(s, i + 1, StatField::FailedRequests);
                lemma_stat_sum_prefix(s, i + 1, StatField::ActiveConnections);
                lemma_stat_sum_prefix(s, i + 1, StatField::BytesTransferred);
            }
            let stats = &self.proxies[i].stats;
            total.total_requests += stats.total_requests;
            total.successful_requests += stats.successful_requests;
            total.failed_requests += stats.failed_requests;
            total.active_connections += stats.active_connections;
            total.bytes_transferred += stats.bytes_transferred;
        }
        assert(self.proxies@.take(n as int) =~= self.proxies@);
        total
    }

    /// Marks the entry under the cursor as the one to show in detail.
    pub fn select_log_at_cursor(&mut self)
        ensures
            final(self)@ == old(self)@.after_select_log_at_cursor(),
    {
        let n = self.shown_count();
        if n > 0 && self.selected_index < n {
            let positions = shown_positions_of(&self.logs, &self.selected_proxy, self.active_tab);
            self.selected_log_index = Some(positions[self.selected_index]);
        }
    }

    /// Opens the detail view of the marked entry, if it is a request or a response.
    pub fn show_selected_log_detail(&mut self)
        ensures
            final(self)@ == old(self)@.after_show_selected_log_detail(),
    {
        if let Some(index) = self.selected_log_index {
            if index < self.logs.len() {
                let level = self.logs[index].level;
                if level == LogLevel::Request || level == LogLevel::Response {
                    self.show_detail_view = true;
                }
            }
        }
    }

    /// Closes the detail view and forgets the marked entry.
    pub fn hide_detail_view(&mut self)
        ensures
            final(self)@ == (AppView { show_detail_view: false, selected_log_index: None, ..old(self)@ }),
    {
        self.show_detail_view = false;
        self.selected_log_index = None;
    }

    /// Turns word wrap in the detail view on or off.
    pub fn toggle_word_wrap(&mut self)
        ensures
            final(self)@ == (AppView { detail_word_wrap: !old(self).detail_word_wrap, ..old(self)@ }),
    {
        self.detail_word_wrap = !self.detail_word_wrap;
    }

    /// The marked entry, if it is still in the log.
    pub fn get_selected_log(&self) -> (r: Option<&LogEntry>)
        ensures
            match self.selected_log_index {
                Some(i) => if i < self.logs@.len() {
                    r matches Some(e) && *e == self.logs@[i as int]
                } else {
                    r is None
                },
                None => r is None,
            },
    {
        if let Some(index) = self.selected_log_index {
            if index < self.logs.len() {
                Some(&self.logs[index])
            } else {
                None
            }
        } else {
            None
        }
    }

    /// The text of the detail view: the entry's metadata as pretty JSON, else
    /// its message as pretty JSON, else its raw message.
    pub fn format_log_content(&self, log: &LogEntry) -> (r: String)
        ensures
            r@ == log_text(log.metadata_text(), log.message@),
    {
        format_log_text(&log.metadata, &log.message)
    }
}

} // verus!
