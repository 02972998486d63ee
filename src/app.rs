//! The dashboard's controller: it ties the aggregation state to the view
//! state and turns keys and mouse events into operations on both.
use vstd::prelude::*;
use crate::app_state::{ingest, AppState, LogEntry, StateModel};
use crate::app_view::{clamp, offset_showing, AppView, ScrollDirection};
use crate::layout::{calculate_layout, layout_for, next_panel, previous_panel, Panel, Rect};

verus! {

/// Rows moved by one step of the keys or the wheel.
pub const SCROLL_UNIT: usize = 1;

/// Rows moved by a page key.
pub const SCROLL_PAGE_SIZE: usize = 10;

/// Requests skipped by a page key in the request list.
pub const REQUEST_SKIP_COUNT: usize = 3;

/// Rows above the first request row of the request list: border and padding.
pub const LIST_HEADER_ROWS: u16 = 2;

/// A key press, as far as the dashboard tells keys apart.
#[derive(Clone, Copy, Debug, PartialEq, Eq, Structural)]
pub enum KeyInput {
    Char(char),
    /// A character typed with Control held.
    Ctrl(char),
    Tab,
    BackTab,
    Up,
    Down,
    PageUp,
    PageDown,
    Other,
}

/// The kinds of mouse event the dashboard reacts to.
#[derive(Clone, Copy, Debug, PartialEq, Eq, Structural)]
pub enum MouseKind {
    ScrollDown,
    ScrollUp,
    LeftDown,
    Other,
}

/// A mouse event at a terminal cell.
#[derive(Clone, Copy, Debug, PartialEq, Eq, Structural)]
pub struct MouseInput {
    pub kind: MouseKind,
    pub column: u16,
    pub row: u16,
}

/// What a key asks for.
#[derive(Clone, Copy, Debug, PartialEq, Eq, Structural)]
pub enum Command {
    Quit,
    FocusNext,
    FocusPrevious,
    JumpToLatest,
    ToggleCopyMode,
    ToggleSimpleMode,
    ToggleLogStream,
    NextRequest(usize),
    PreviousRequest(usize),
    Scroll(Panel, isize),
    Nothing,
}

/// What the loop around the dashboard has to do after a key.
#[derive(Clone, Copy, Debug, PartialEq, Eq, Structural)]
pub enum KeyOutcome {
    Continue,
    Quit,
    /// Mouse capture is to be switched on (`true`) or off.
    SetMouseCapture(bool),
}

/// The binding table: the command of each key, given the focused panel.
pub open spec fn command_for(focused: Panel, key: KeyInput) -> Command {
    let page = SCROLL_PAGE_SIZE as isize;
    let unit = SCROLL_UNIT as isize;
    match key {
        KeyInput::Ctrl('c') => Command::Quit,
        KeyInput::BackTab => Command::FocusPrevious,
        KeyInput::Tab => Command::FocusNext,
        KeyInput::Char(' ') => Command::JumpToLatest,
        KeyInput::Char('m') | KeyInput::Char('M') => Command::ToggleCopyMode,
        KeyInput::Char('s') | KeyInput::Char('S') => Command::ToggleSimpleMode,
        KeyInput::Char('a') => Command::ToggleLogStream,
        KeyInput::Ctrl('d') => if focused == Panel::RequestList {
            Command::NextRequest(REQUEST_SKIP_COUNT)
        } else {
            Command::Scroll(focused, page)
        },
        KeyInput::Ctrl('u') => if focused == Panel::RequestList {
            Command::PreviousRequest(REQUEST_SKIP_COUNT)
        } else {
            Command::Scroll(focused, (-page) as isize)
        },
        KeyInput::Char('j') | KeyInput::Down => if focused == Panel::RequestList {
            Command::NextRequest(SCROLL_UNIT)
        } else {
            Command::Scroll(focused, unit)
        },
        KeyInput::Char('k') | KeyInput::Up => if focused == Panel::RequestList {
            Command::PreviousRequest(SCROLL_UNIT)
        } else {
            Command::Scroll(focused, (-unit) as isize)
        },
        KeyInput::PageDown => if focused == Panel::RequestList {
            Command::Nothing
        } else {
            Command::Scroll(focused, page)
        },
        KeyInput::PageUp => if focused == Panel::RequestList {
            Command::Nothing
        } else {
            Command::Scroll(focused, (-page) as isize)
        },
        _ => Command::Nothing,
    }
}

/// The command of `key` while `focused` has focus.
pub fn key_command(focused: Panel, key: KeyInput) -> (r: Command)
    ensures
        r == command_for(focused, key),
{
    let list = match focused {
        Panel::RequestList => true,
        _ => false,
    };
    let page = SCROLL_PAGE_SIZE as isize;
    let unit = SCROLL_UNIT as isize;
    match key {
        KeyInput::Ctrl('c') => Command::Quit,
        KeyInput::BackTab => Command::FocusPrevious,
        KeyInput::Tab => Command::FocusNext,
        KeyInput::Char(' ') => Command::JumpToLatest,
        KeyInput::Char('m') | KeyInput::Char('M') => Command::ToggleCopyMode,
        KeyInput::Char('s') | KeyInput::Char('S') => Command::ToggleSimpleMode,
        KeyInput::Char('a') => Command::ToggleLogStream,
        KeyInput::Ctrl('d') => if list {
            Command::NextRequest(REQUEST_SKIP_COUNT)
        } else {
            Command::Scroll(focused, page)
        },
        KeyInput::Ctrl('u') => if list {
            Command::PreviousRequest(REQUEST_SKIP_COUNT)
        } else {
            Command::Scroll(focused, -page)
        },
        KeyInput::Char('j') | KeyInput::Down => if list {
            Command::NextRequest(SCROLL_UNIT)
        } else {
            Command::Scroll(focused, unit)
        },
        KeyInput::Char('k') | KeyInput::Up => if list {
            Command::PreviousRequest(SCROLL_UNIT)
        } else {
            Command::Scroll(focused, -unit)
        },
        KeyInput::PageDown => if list {
            Command::Nothing
        } else {
            Command::Scroll(focused, page)
        },
        KeyInput::PageUp => if list {
            Command::Nothing
        } else {
            Command::Scroll(focused, -page)
        },
        _ => Command::Nothing,
    }
}

/// The part `[start, end)` of `total` rows that a window of `height` rows at
/// `offset` shows, the start kept on the last row where `offset` is past it.
pub open spec fn window(offset: int, total: int, height: int) -> (int, int) {
    if total == 0 {
        (0, 0)
    } else {
        let start = if offset < total - 1 {
            offset
        } else {
            total - 1
        };
        let count = if height < total - start {
            height
        } else {
            total - start
        };
        (start, start + count)
    }
}

/// The part of `total` rows that a window of `height` rows at `offset`
/// shows.
pub fn visible_window(offset: usize, total: usize, height: usize) -> (r: (usize, usize))
    ensures
        r.0 as int == window(offset as int, total as int, height as int).0,
        r.1 as int == window(offset as int, total as int, height as int).1,
        r.0 <= r.1 <= total,
{
    if total == 0 {
        return (0, 0);
    }
    let start = if offset < total - 1 {
        offset
    } else {
        total - 1
    };
    let count = if height < total - start {
        height
    } else {
        total - start
    };
    (start, start + count)
}

/// The dashboard: aggregation state, view state and two modes.
pub struct App {
    pub state: AppState,
    pub app_view: AppView,
    /// The mouse is left to the terminal, so that text can be selected.
    pub copy_mode_enabled: bool,
    /// The detail panel shows only the lines that summarize a request.
    pub simple_mode_enabled: bool,
}

impl App {
    pub open spec fn wf(&self) -> bool {
        self.state.wf()
    }

    /// The rows of content of panel `p`.
    pub open spec fn content_len(&self, p: Panel) -> int {
        let s = self.state@;
        match p {
            Panel::RequestList => s.ids.len() as int,
            Panel::RequestDetail => if s.ids.len() > 0 {
                s.groups[s.selected].entries.len() as int
            } else {
                0
            },
            Panel::SqlInfo => if s.ids.len() > 0 {
                crate::sql_info::sat_add(s.groups[s.selected].sql.tables.dom().len() as int, 4)
            } else {
                0
            },
            Panel::LogStream => s.all_logs.len() as int,
        }
    }

    /// The largest scroll offset of `p`: its content less its viewport, at
    /// least 0.
    pub open spec fn max_scroll(&self, p: Panel) -> int {
        let c = self.content_len(p);
        let v = self.app_view.viewport(p);
        if c > v {
            c - v
        } else {
            0
        }
    }

    /// `new` is `old` with everything but the scroll offset of `p` kept.
    pub open spec fn only_offset_changed(old: &App, new: &App, p: Panel) -> bool {
        &&& new.state@ == old.state@
        &&& new.app_view.same_offsets_but(&old.app_view, p)
        &&& new.app_view.focused_panel == old.app_view.focused_panel
        &&& new.app_view.layout_info == old.app_view.layout_info
        &&& new.copy_mode_enabled == old.copy_mode_enabled
        &&& new.simple_mode_enabled == old.simple_mode_enabled
    }

    /// `new` is `old` after request `index` was selected: the detail panel back
    /// at its top, the list scrolled to show the selection.
    pub open spec fn selected_to(old: &App, new: &App, index: int) -> bool {
        &&& new.state@ == (StateModel { selected: index, ..old.state@ })
        &&& new.app_view.offset(Panel::RequestDetail) == 0
        &&& new.app_view.offset(Panel::RequestList) == offset_showing(
            old.app_view.offset(Panel::RequestList),
            old.app_view.viewport(Panel::RequestList),
            index,
        )
        &&& new.app_view.offset(Panel::SqlInfo) == old.app_view.offset(Panel::SqlInfo)
        &&& new.app_view.offset(Panel::LogStream) == old.app_view.offset(Panel::LogStream)
        &&& new.app_view.focused_panel == old.app_view.focused_panel
        &&& new.app_view.layout_info == old.app_view.layout_info
        &&& new.copy_mode_enabled == old.copy_mode_enabled
        &&& new.simple_mode_enabled == old.simple_mode_enabled
    }

    /// `new` is `old` after the selection moved `n` requests towards the
    /// oldest.
    pub open spec fn moved_down(old: &App, new: &App, n: int) -> bool {
        let s = old.state@;
        if s.ids.len() > 0 && n > 0 {
            App::selected_to(old, new, if s.selected + n < s.ids.len() {
                s.selected + n
            } else {
                s.ids.len() - 1
            })
        } else {
            *new == *old
        }
    }

    /// `new` is `old` after the selection moved `n` requests towards the
    /// newest.
    pub open spec fn moved_up(old: &App, new: &App, n: int) -> bool {
        let s = old.state@;
        if s.ids.len() > 0 && n > 0 {
            App::selected_to(old, new, if s.selected > n {
                s.selected - n
            } else {
                0
            })
        } else {
            *new == *old
        }
    }

    /// `new` is `old` after a scroll of `amount` rows of panel `p`.
    pub open spec fn scrolled_by(old: &App, new: &App, p: Panel, amount: int) -> bool {
        &&& App::only_offset_changed(old, new, p)
        &&& new.app_view.offset(p) == clamp(old.app_view.offset(p) + amount, 0, old.max_scroll(p))
    }

    /// `new` is `old` after `c` was carried out, with outcome `r`.
    pub open spec fn performed(old: &App, new: &App, c: Command, r: KeyOutcome) -> bool {
        match c {
            Command::Quit => r == KeyOutcome::Quit && *new == *old,
            Command::FocusNext => r == KeyOutcome::Continue && App::focused_to(
                old,
                new,
                next_panel(old.app_view.focused_panel),
            ),
            Command::FocusPrevious => r == KeyOutcome::Continue && App::focused_to(
                old,
                new,
                previous_panel(old.app_view.focused_panel),
            ),
            Command::JumpToLatest => r == KeyOutcome::Continue && (old.state@.ids.len() > 0
                ==> App::selected_to(old, new, 0)) && (old.state@.ids.len() == 0 ==> *new == *old),
            Command::ToggleCopyMode => r == KeyOutcome::SetMouseCapture(!new.copy_mode_enabled)
                && new.copy_mode_enabled == !old.copy_mode_enabled && new.state == old.state
                && new.app_view == old.app_view && new.simple_mode_enabled == old.simple_mode_enabled,
            Command::ToggleSimpleMode => r == KeyOutcome::Continue && new.simple_mode_enabled
                == !old.simple_mode_enabled && new.state == old.state && new.app_view
                == old.app_view && new.copy_mode_enabled == old.copy_mode_enabled,
            Command::ToggleLogStream => r == KeyOutcome::Continue && App::focused_to(
                old,
                new,
                if old.app_view.focused_panel == Panel::LogStream {
                    Panel::RequestList
                } else {
                    Panel::LogStream
                },
            ),
            Command::NextRequest(n) => r == KeyOutcome::Continue && App::moved_down(old, new, n as int),
            Command::PreviousRequest(n) => r == KeyOutcome::Continue && App::moved_up(old, new, n as int),
            Command::Scroll(p, a) => r == KeyOutcome::Continue && App::scrolled_by(old, new, p, a as int),
            Command::Nothing => r == KeyOutcome::Continue && *new == *old,
        }
    }

    /// `new` is `old` with the focus on `p` and nothing else changed.
    pub open spec fn focused_to(old: &App, new: &App, p: Panel) -> bool {
        &&& new.state@ == old.state@
        &&& new.app_view.same_offsets_but(&old.app_view, Panel::RequestList)
        &&& new.app_view.offset(Panel::RequestList) == old.app_view.offset(Panel::RequestList)
        &&& new.app_view.focused_panel == p
        &&& new.app_view.layout_info == old.app_view.layout_info
        &&& new.copy_mode_enabled == old.copy_mode_enabled
        &&& new.simple_mode_enabled == old.simple_mode_enabled
    }

    /// An empty dashboard with the request list focused.
    pub fn new() -> (r: Self)
        ensures
            r.wf(),
            r.state@.ids.len() == 0 && r.state@.all_logs.len() == 0 && r.state@.selected == 0,
            r.app_view.focused_panel == Panel::RequestList,
            forall|p: Panel| r.app_view.offset(p) == 0,
            !r.copy_mode_enabled && !r.simple_mode_enabled,
    {
        App {
            state: AppState::new(),
            app_view: AppView::new(),
            copy_mode_enabled: false,
            simple_mode_enabled: false,
        }
    }

    /// The id of the selected request, if there is any request.
    pub fn selected_request_id(&self) -> (r: Option<&String>)
        requires
            self.wf(),
        ensures
            match r {
                Some(id) => 0 <= self.state@.selected < self.state@.ids.len() && id@
                    == self.state@.ids[self.state@.selected],
                None => self.state@.ids.len() == 0,
            },
    {
        self.state.selected_request_id()
    }

    /// Selects request `index`, showing the newest entries of its detail and
    /// keeping it visible in the list; no change where `index` is out of range.
    pub fn select_request(&mut self, index: usize)
        requires
            old(self).wf(),
        ensures
            final(self).wf(),
            index < old(self).state@.ids.len() ==> App::selected_to(old(self), final(self), index as int),
            index >= old(self).state@.ids.len() ==> *final(self) == *old(self),
    {
        if self.state.select_request(index) {
            self.app_view.set_scroll_offset(Panel::RequestDetail, 0);
            self.app_view.adjust_scroll_for_index(Panel::RequestList, self.state.selected_index);
        }
    }

    /// Moves the selection `n` requests towards the oldest, as
    /// `select_request` does.
    pub fn next_request(&mut self, n: usize)
        requires
            old(self).wf(),
        ensures
            final(self).wf(),
            App::moved_down(old(self), final(self), n as int),
    {
        if self.state.next_request(n) {
            self.app_view.set_scroll_offset(Panel::RequestDetail, 0);
            self.app_view.adjust_scroll_for_index(Panel::RequestList, self.state.selected_index);
        }
    }

    /// Moves the selection `n` requests towards the newest, as
    /// `select_request` does.
    pub fn previous_request(&mut self, n: usize)
        requires
            old(self).wf(),
        ensures
            final(self).wf(),
            App::moved_up(old(self), final(self), n as int),
    {
        if self.state.previous_request(n) {
            self.app_view.set_scroll_offset(Panel::RequestDetail, 0);
            self.app_view.adjust_scroll_for_index(Panel::RequestList, self.state.selected_index);
        }
    }

    /// The rows of content of `panel`.
    pub fn content_rows(&self, panel: Panel) -> (r: usize)
        requires
            self.wf(),
        ensures
            r == self.content_len(panel),
    {
        match panel {
            Panel::RequestList => self.state.request_ids.len(),
            Panel::RequestDetail => self.state.selected_entries_count(),
            Panel::SqlInfo => self.state.selected_sql_line_count(),
            Panel::LogStream => self.state.all_logs.len(),
        }
    }

    /// The largest scroll offset of `panel`.
    pub fn max_scroll_of(&self, panel: Panel) -> (r: usize)
        requires
            self.wf(),
        ensures
            r == self.max_scroll(panel),
    {
        self.content_rows(panel).saturating_sub(self.app_view.viewport_height(panel))
    }

    /// The largest scroll offset of the request detail.
    pub fn get_max_detail_scroll(&self) -> (r: usize)
        requires
            self.wf(),
        ensures
            r == self.max_scroll(Panel::RequestDetail),
    {
        self.max_scroll_of(Panel::RequestDetail)
    }

    /// The largest scroll offset of the SQL summary.
    pub fn get_max_sql_scroll(&self) -> (r: usize)
        requires
            self.wf(),
        ensures
            r == self.max_scroll(Panel::SqlInfo),
    {
        self.max_scroll_of(Panel::SqlInfo)
    }

    /// The largest scroll offset of the log stream.
    pub fn get_max_stream_scroll(&self) -> (r: usize)
        requires
            self.wf(),
        ensures
            r == self.max_scroll(Panel::LogStream),
    {
        self.max_scroll_of(Panel::LogStream)
    }

    /// Scrolls `panel` by `amount` rows (negative: up), within
    /// `[0, max_scroll]`.
    pub fn apply_scroll_to(&mut self, panel: Panel, amount: isize)
        requires
            old(self).wf(),
        ensures
            final(self).wf(),
            App::scrolled_by(old(self), final(self), panel, amount as int),
    {
        let max_scroll = self.max_scroll_of(panel);
        let direction = if amount < 0 {
            let magnitude: usize = if amount == isize::MIN {
                (isize::MAX as usize) + 1
            } else {
                (-amount) as usize
            };
            ScrollDirection::Up(magnitude)
        } else {
            ScrollDirection::Down(amount as usize)
        };
        self.app_view.apply_scroll(panel, direction, max_scroll);
    }

    /// Pins the log stream to its newest rows where it has focus or was
    /// already within one row of its end.
    fn auto_scroll_if_needed(&mut self)
        requires
            old(self).wf(),
        ensures
            final(self).wf(),
            App::only_offset_changed(old(self), final(self), Panel::LogStream),
            ({
                let m = old(self).max_scroll(Panel::LogStream);
                let o = old(self).app_view.offset(Panel::LogStream);
                final(self).app_view.offset(Panel::LogStream) == if old(self).app_view.focused_panel
                    == Panel::LogStream || o >= m - 1 {
                    m
                } else {
                    o
                }
            }),
    {
        let max_stream = self.get_max_stream_scroll();
        let offset = self.app_view.get_scroll_offset(Panel::LogStream);
        let focused = match self.app_view.focused_panel {
            Panel::LogStream => true,
            _ => false,
        };
        if focused || offset >= max_stream.saturating_sub(1) {
            self.app_view.set_scroll_offset(Panel::LogStream, max_stream);
        }
    }

    /// Ingests one entry, keeps the selection visible in the list when a new
    /// request pushed it down, and lets the log stream follow new entries.
    pub fn add_log_entry(&mut self, log_entry: LogEntry)
        requires
            old(self).wf(),
        ensures
            final(self).wf(),
            final(self).state@ == ingest(old(self).state@, log_entry),
            ({
                let is_new = log_entry.request_id@.len() > 0 && !old(self).state@.ids.contains(
                    log_entry.request_id@,
                );
                final(self).app_view.offset(Panel::RequestList) == if is_new {
                    offset_showing(
                        old(self).app_view.offset(Panel::RequestList),
                        old(self).app_view.viewport(Panel::RequestList),
                        final(self).state@.selected,
                    )
                } else {
                    old(self).app_view.offset(Panel::RequestList)
                }
            }),
            ({
                let m = final(self).max_scroll(Panel::LogStream);
                let o = old(self).app_view.offset(Panel::LogStream);
                final(self).app_view.offset(Panel::LogStream) == if old(self).app_view.focused_panel
                    == Panel::LogStream || o >= m - 1 {
                    m
                } else {
                    o
                }
            }),
            final(self).app_view.offset(Panel::RequestDetail) == old(self).app_view.offset(Panel::RequestDetail),
            final(self).app_view.offset(Panel::SqlInfo) == old(self).app_view.offset(Panel::SqlInfo),
            final(self).app_view.focused_panel == old(self).app_view.focused_panel,
            final(self).app_view.layout_info == old(self).app_view.layout_info,
            final(self).copy_mode_enabled == old(self).copy_mode_enabled,
            final(self).simple_mode_enabled == old(self).simple_mode_enabled,
    {
        let is_new_request = self.state.add_log_entry(log_entry);
        if is_new_request {
            self.app_view.adjust_scroll_for_index(Panel::RequestList, self.state.selected_index);
        }
        self.auto_scroll_if_needed();
    }

    /// Moves the focus to the next panel.
    pub fn toggle_focus(&mut self)
        requires
            old(self).wf(),
        ensures
            final(self).wf(),
            App::focused_to(old(self), final(self), next_panel(old(self).app_view.focused_panel)),
    {
        self.app_view.focused_panel = self.app_view.focused_panel.next();
    }

    /// Moves the focus to the previous panel.
    pub fn toggle_focus_reverse(&mut self)
        requires
            old(self).wf(),
        ensures
            final(self).wf(),
            App::focused_to(old(self), final(self), previous_panel(old(self).app_view.focused_panel)),
    {
        self.app_view.focused_panel = self.app_view.focused_panel.previous();
    }

    /// Focuses the log stream, or the request list where the stream had focus.
    pub fn toggle_all_logs_panel(&mut self)
        requires
            old(self).wf(),
        ensures
            final(self).wf(),
            App::focused_to(old(self), final(self), if old(self).app_view.focused_panel == Panel::LogStream {
                Panel::RequestList
            } else {
                Panel::LogStream
            }),
    {
        self.app_view.focused_panel = match self.app_view.focused_panel {
            Panel::LogStream => Panel::RequestList,
            _ => Panel::LogStream,
        };
    }

    /// Selects the newest request.
    pub fn jump_to_latest(&mut self)
        requires
            old(self).wf(),
        ensures
            final(self).wf(),
            old(self).state@.ids.len() > 0 ==> App::selected_to(old(self), final(self), 0),
            old(self).state@.ids.len() == 0 ==> *final(self) == *old(self),
    {
        self.select_request(0);
    }

    /// Switches copy mode; returns whether it is now on.
    pub fn toggle_copy_mode(&mut self) -> (r: bool)
        ensures
            final(self).copy_mode_enabled == !old(self).copy_mode_enabled,
            r == final(self).copy_mode_enabled,
            final(self).state == old(self).state,
            final(self).app_view == old(self).app_view,
            final(self).simple_mode_enabled == old(self).simple_mode_enabled,
    {
        self.copy_mode_enabled = !self.copy_mode_enabled;
        self.copy_mode_enabled
    }

    /// Switches simple mode.
    pub fn toggle_simple_mode(&mut self)
        ensures
            final(self).simple_mode_enabled == !old(self).simple_mode_enabled,
            final(self).state == old(self).state,
            final(self).app_view == old(self).app_view,
            final(self).copy_mode_enabled == old(self).copy_mode_enabled,
    {
        self.simple_mode_enabled = !self.simple_mode_enabled;
    }

    /// Recomputes the geometry for a screen of size `area`.
    pub fn set_screen(&mut self, area: Rect)
        ensures
            final(self).app_view.layout_info == layout_for(area),
            final(self).state == old(self).state,
            final(self).app_view.focused_panel == old(self).app_view.focused_panel,
            forall|p: Panel| final(self).app_view.offset(p) == old(self).app_view.offset(p),
            final(self).copy_mode_enabled == old(self).copy_mode_enabled,
            final(self).simple_mode_enabled == old(self).simple_mode_enabled,
    {
        self.app_view.layout_info = calculate_layout(area);
    }
}

impl App {
    /// Carries out the command that `key` is bound to, and says what the loop
    /// around the dashboard has to do next.
    pub fn handle_key(&mut self, key: KeyInput) -> (r: KeyOutcome)
        requires
            old(self).wf(),
        ensures
            final(self).wf(),
            App::performed(old(self), final(self), command_for(old(self).app_view.focused_panel, key), r),
    {
        match key_command(self.app_view.focused_panel, key) {
            Command::Quit => KeyOutcome::Quit,
            Command::FocusNext => {
                self.toggle_focus();
                KeyOutcome::Continue
            },
            Command::FocusPrevious => {
                self.toggle_focus_reverse();
                KeyOutcome::Continue
            },
            Command::JumpToLatest => {
                self.jump_to_latest();
                KeyOutcome::Continue
            },
            Command::ToggleCopyMode => {
                let copy = self.toggle_copy_mode();
                KeyOutcome::SetMouseCapture(!copy)
            },
            Command::ToggleSimpleMode => {
                self.toggle_simple_mode();
                KeyOutcome::Continue
            },
            Command::ToggleLogStream => {
                self.toggle_all_logs_panel();
                KeyOutcome::Continue
            },
            Command::NextRequest(n) => {
                self.next_request(n);
                KeyOutcome::Continue
            },
            Command::PreviousRequest(n) => {
                self.previous_request(n);
                KeyOutcome::Continue
            },
            Command::Scroll(p, a) => {
                self.apply_scroll_to(p, a);
                KeyOutcome::Continue
            },
            Command::Nothing => KeyOutcome::Continue,
        }
    }

    /// The request index that a click at row `y` of the request list points
    /// at.
    pub open spec fn clicked_index(&self, y: int) -> int {
        let top = self.app_view.layout_info.region_of(Panel::RequestList).y + LIST_HEADER_ROWS;
        self.app_view.offset(Panel::RequestList) + if y > top {
            y - top
        } else {
            0
        }
    }

    /// Reacts to a mouse event (none in copy mode): the wheel moves the
    /// selection over the request list and scrolls the other panels; a left
    /// click focuses the panel under it and, in the request list, selects the
    /// request clicked.
    pub fn handle_mouse_event(&mut self, event: MouseInput)
        requires
            old(self).wf(),
        ensures
            final(self).wf(),
            ({
                let hit = crate::app_view::hit_panel(
                    old(self).app_view.layout_info,
                    event.column as int,
                    event.row as int,
                );
                if old(self).copy_mode_enabled || hit is None {
                    *final(self) == *old(self)
                } else {
                    let p = hit->0;
                    match event.kind {
                        MouseKind::ScrollDown => if p == Panel::RequestList {
                            App::moved_down(old(self), final(self), SCROLL_UNIT as int)
                        } else {
                            App::scrolled_by(old(self), final(self), p, SCROLL_UNIT as int)
                        },
                        MouseKind::ScrollUp => if p == Panel::RequestList {
                            App::moved_up(old(self), final(self), SCROLL_UNIT as int)
                        } else {
                            App::scrolled_by(old(self), final(self), p, -(SCROLL_UNIT as int))
                        },
                        MouseKind::LeftDown => {
                            let focused = App {
                                app_view: AppView { focused_panel: p, ..old(self).app_view },
                                ..*old(self)
                            };
                            let k = old(self).clicked_index(event.row as int);
                            if p == Panel::RequestList && k < old(self).state@.ids.len() {
                                App::selected_to(&focused, final(self), k)
                            } else {
                                *final(self) == focused
                            }
                        },
                        MouseKind::Other => *final(self) == *old(self),
                    }
                }
            }),
    {
        if self.copy_mode_enabled {
            return;
        }
        let (x, y) = (event.column, event.row);
        let hit = self.app_view.panel_at_point(x, y);
        let p = match hit {
            Some(p) => p,
            None => return,
        };
        let list = match p {
            Panel::RequestList => true,
            _ => false,
        };
        match event.kind {
            MouseKind::ScrollDown => {
                if list {
                    self.next_request(SCROLL_UNIT);
                } else {
                    self.apply_scroll_to(p, SCROLL_UNIT as isize);
                }
            },
            MouseKind::ScrollUp => {
                if list {
                    self.previous_request(SCROLL_UNIT);
                } else {
                    self.apply_scroll_to(p, -(SCROLL_UNIT as isize));
                }
            },
            MouseKind::LeftDown => {
                self.app_view.focused_panel = p;
                if list {
                    let top = self.app_view.layout_info.region(Panel::RequestList).y as usize
                        + LIST_HEADER_ROWS as usize;
                    let row = (y as usize).saturating_sub(top);
                    let offset = self.app_view.get_scroll_offset(Panel::RequestList);
                    if row < self.state.request_ids.len() && offset < self.state.request_ids.len() - row {
                        self.select_request(offset + row);
                    }
                }
            },
            MouseKind::Other => {},
        }
    }

    /// The entries of the log stream in view in a window of
    /// `viewport_height` rows at the stream's scroll offset, oldest first.
    pub fn get_visible_logs(&self, viewport_height: usize) -> (r: Vec<&LogEntry>)
        requires
            self.wf(),
        ensures
            ({
                let w = window(
                    self.app_view.offset(Panel::LogStream),
                    self.state@.all_logs.len() as int,
                    viewport_height as int,
                );
                &&& r@.len() == w.1 - w.0
                &&& forall|i: int| 0 <= i < r@.len() ==> *(#[trigger] r@[i]) == self.state@.all_logs[w.0 + i]
            }),
    {
        let (start, end) = visible_window(
            self.app_view.stream_offset,
            self.state.all_logs.len(),
            viewport_height,
        );
        let mut r: Vec<&LogEntry> = Vec::new();
        let mut i = start;
        while i < end
            invariant
                start <= i <= end <= self.state.all_logs@.len(),
                r@.len() == i - start,
                forall|j: int| 0 <= j < r@.len() ==> *(#[trigger] r@[j]) == self.state.all_logs@[start + j],
            decreases end - i,
        {
            r.push(&self.state.all_logs[i]);
            i += 1;
        }
        r
    }

    /// The entries of the selected request in view in the detail panel,
    /// newest first, from the panel's scroll offset on, at most
    /// `viewport_height` of them.
    pub fn visible_detail_entries(&self, viewport_height: usize) -> (r: Vec<&LogEntry>)
        requires
            self.wf(),
        ensures
            ({
                let s = self.state@;
                let entries = if s.ids.len() > 0 {
                    s.groups[s.selected].entries
                } else {
                    seq![]
                };
                let w = window(
                    self.app_view.offset(Panel::RequestDetail),
                    entries.len() as int,
                    viewport_height as int,
                );
                &&& r@.len() == w.1 - w.0
                &&& forall|i: int| 0 <= i < r@.len() ==> *(#[trigger] r@[i]) == entries[w.0 + i]
            }),
    {
        let mut r: Vec<&LogEntry> = Vec::new();
        let group = match self.state.selected_group() {
            Some(g) => g,
            None => return r,
        };
        let (start, end) = visible_window(
            self.app_view.detail_offset,
            group.entries.len(),
            viewport_height,
        );
        let mut i = start;
        while i < end
            invariant
                start <= i <= end <= group.entries@.len(),
                r@.len() == i - start,
                forall|j: int| 0 <= j < r@.len() ==> *(#[trigger] r@[j]) == group.entries@[start + j],
            decreases end - i,
        {
            r.push(&group.entries[i]);
            i += 1;
        }
        r
    }

    /// The indices `[start, end)` of the requests in view in the request list.
    pub fn visible_request_range(&self) -> (r: (usize, usize))
        requires
            self.wf(),
        ensures
            r.0 as int == window(
                self.app_view.offset(Panel::RequestList),
                self.state@.ids.len() as int,
                self.app_view.viewport(Panel::RequestList),
            ).0,
            r.1 as int == window(
                self.app_view.offset(Panel::RequestList),
                self.state@.ids.len() as int,
                self.app_view.viewport(Panel::RequestList),
            ).1,
            r.1 <= self.state@.ids.len(),
    {
        visible_window(
            self.app_view.list_offset,
            self.state.request_ids.len(),
            self.app_view.viewport_height(Panel::RequestList),
        )
    }
}

impl App {
    /// The group of the selected request, if there is any request.
    pub fn selected_group(&self) -> (r: Option<&crate::app_state::LogGroup>)
        requires
            self.wf(),
        ensures
            match r {
                Some(g) => 0 <= self.state@.selected < self.state@.ids.len() && g@
                    == self.state@.groups[self.state@.selected] && g.wf(),
                None => self.state@.ids.len() == 0,
            },
    {
        self.state.selected_group()
    }

    /// The key help shown at the foot of the detail panel, by mode.
    pub fn help_text(&self) -> (r: &'static str)
        ensures
            r@ == if self.copy_mode_enabled {
                " COPY MODE (press 'm' to exit) "@
            } else if self.simple_mode_enabled {
                " SIMPLE MODE (press 's' to exit) | j/k | Tab/Shift+Tab | Ctrl+c | m: copy "@
            } else {
                " j/k | Ctrl+d/u | Tab/Shift+Tab | Ctrl+c | m: copy | s: simple | a: stream"@
            },
    {
        if self.copy_mode_enabled {
            " COPY MODE (press 'm' to exit) "
        } else if self.simple_mode_enabled {
            " SIMPLE MODE (press 's' to exit) | j/k | Tab/Shift+Tab | Ctrl+c | m: copy "
        } else {
            " j/k | Ctrl+d/u | Tab/Shift+Tab | Ctrl+c | m: copy | s: simple | a: stream"
        }
    }
}

} // verus!
