//! What a key or the mouse does to the dashboard, depending on the panel
//! that has the focus.
use crate::app::App;
use crate::focus::{rect_contains, FocusPanel};
use crate::model::AppView;
use vstd::prelude::*;
use vstd::string::StrSliceExecFns;

verus! {

/// The lines that one turn of the mouse wheel scrolls.
pub const WHEEL_LINES: u16 = 3;

/// The lines that half a page scrolls.
pub const HALF_PAGE_LINES: u16 = 15;

/// The lines that a page scrolls.
pub const PAGE_LINES: u16 = 30;

/// A key, as far as the dashboard tells keys apart.
#[derive(Debug, Clone, Copy, PartialEq, Eq, Structural)]
pub enum KeyCode {
    Char(char),
    Up,
    Down,
    Home,
    End,
    Enter,
    PageUp,
    PageDown,
    Tab,
    Esc,
    Other,
}

/// A key that was pressed.
#[derive(Debug, Clone, Copy, PartialEq, Eq, Structural)]
pub struct KeyEvent {
    pub code: KeyCode,
    /// The control key was held.
    pub ctrl: bool,
}

/// What the mouse did.
#[derive(Debug, Clone, Copy, PartialEq, Eq, Structural)]
pub enum MouseKind {
    /// The left button went down.
    LeftDown,
    ScrollUp,
    ScrollDown,
    Other,
}

/// Something the mouse did, and the cell at which it did so.
#[derive(Debug, Clone, Copy, PartialEq, Eq, Structural)]
pub struct MouseEvent {
    pub kind: MouseKind,
    pub column: u16,
    pub row: u16,
}

/// What the terminal reports.
#[derive(Debug, Clone, Copy, PartialEq, Eq, Structural)]
pub enum Event {
    Key(KeyEvent),
    Mouse(MouseEvent),
    Other,
}

/// How the round goes on after an event.
#[derive(Debug, Clone, Copy, PartialEq, Eq, Structural)]
pub enum Next {
    /// Draw again at once: the round ends here.
    Redraw,
    /// Go on with the round; before that, read the job list anew if
    /// `refresh` is set.
    Proceed { refresh: bool },
}

/// The setting `binding` names the key of the character `c`.
pub open spec fn binds(binding: Seq<char>, c: char) -> bool {
    binding == seq![c]
}

/// What a key does while the job list has the focus, and whether the job
/// list is to be read anew. A character with the control key does nothing:
/// the log is scrolled by pages and half pages only while it has the focus.
/// Otherwise a character does what the first of these settings that names
/// it says: quit, down, up, top, bottom, refresh, toggle logs.
pub open spec fn on_jobs_key(m: AppView, key: KeyEvent) -> (AppView, bool) {
    let keys = m.config.keybindings;
    match key.code {
        KeyCode::Char(c) => if key.ctrl {
            (m, false)
        } else if binds(keys.quit@, c) {
            (m.quitting(), false)
        } else if binds(keys.down@, c) {
            (m.next_job(), false)
        } else if binds(keys.up@, c) {
            (m.previous_job(), false)
        } else if binds(keys.top@, c) {
            (m.select_first(), false)
        } else if binds(keys.bottom@, c) {
            (m.select_last(), false)
        } else if binds(keys.refresh@, c) {
            (m, true)
        } else if binds(keys.toggle_logs@, c) {
            (m.toggled_log_mode(), false)
        } else {
            (m, false)
        },
        KeyCode::Up => (m.previous_job(), false),
        KeyCode::Down => (m.next_job(), false),
        KeyCode::Home => (m.select_first(), false),
        KeyCode::End => (m.select_last(), false),
        KeyCode::Enter => (m.cycled_focus(), false),
        _ => (m, false),
    }
}

/// What a key does while the log has the focus, and whether the job list
/// is to be read anew. With the control key, `d` and `u` scroll by half a
/// page. Otherwise a character does what the first of these settings that
/// names it says: quit, down, up, top, bottom, toggle logs, refresh; down
/// and up scroll by one line.
pub open spec fn on_log_key(m: AppView, key: KeyEvent) -> (AppView, bool) {
    let keys = m.config.keybindings;
    match key.code {
        KeyCode::Char(c) => if key.ctrl {
            if c == 'd' {
                (m.scrolled_down(HALF_PAGE_LINES as nat), false)
            } else if c == 'u' {
                (m.scrolled_up(HALF_PAGE_LINES as nat), false)
            } else {
                (m, false)
            }
        } else if binds(keys.quit@, c) {
            (m.quitting(), false)
        } else if binds(keys.down@, c) {
            (m.scrolled_down(1), false)
        } else if binds(keys.up@, c) {
            (m.scrolled_up(1), false)
        } else if binds(keys.top@, c) {
            (m.scrolled_top(), false)
        } else if binds(keys.bottom@, c) {
            (m.scrolled_bottom(), false)
        } else if binds(keys.toggle_logs@, c) {
            (m.toggled_log_mode(), false)
        } else if binds(keys.refresh@, c) {
            (m, true)
        } else {
            (m, false)
        },
        KeyCode::Up => (m.scrolled_up(1), false),
        KeyCode::Down => (m.scrolled_down(1), false),
        KeyCode::PageUp => (m.scrolled_up(PAGE_LINES as nat), false),
        KeyCode::PageDown => (m.scrolled_down(PAGE_LINES as nat), false),
        KeyCode::Home => (m.scrolled_top(), false),
        KeyCode::End => (m.scrolled_bottom(), false),
        _ => (m, false),
    }
}

/// What a key does. Control and `c` asks for the end whatever else the key
/// does. Tab moves the focus to the other panel and Escape to the job list,
/// and either ends the round; any other key goes to the panel that has the
/// focus.
pub open spec fn on_key(m: AppView, key: KeyEvent) -> (AppView, Next) {
    let m = if key.ctrl && key.code == KeyCode::Char('c') {
        m.quitting()
    } else {
        m
    };
    match key.code {
        KeyCode::Tab => (m.cycled_focus(), Next::Redraw),
        KeyCode::Esc => (m.focused_jobs(), Next::Redraw),
        _ => {
            let done = match m.focus {
                FocusPanel::Jobs => on_jobs_key(m, key),
                FocusPanel::Log => on_log_key(m, key),
            };
            (done.0, Next::Proceed { refresh: done.1 })
        },
    }
}

/// What the mouse does: a click moves the focus to the panel under it, and
/// the wheel scrolls the log while it is over the log.
pub open spec fn on_mouse(m: AppView, mouse: MouseEvent) -> AppView {
    let over_log = m.log_area.holds(mouse.column as int, mouse.row as int);
    match mouse.kind {
        MouseKind::LeftDown => m.clicked(mouse.column as int, mouse.row as int),
        MouseKind::ScrollUp => if over_log {
            m.scrolled_up(WHEEL_LINES as nat)
        } else {
            m
        },
        MouseKind::ScrollDown => if over_log {
            m.scrolled_down(WHEEL_LINES as nat)
        } else {
            m
        },
        MouseKind::Other => m,
    }
}

/// What an event does, and how the round goes on.
pub open spec fn on_event(m: AppView, event: Event) -> (AppView, Next) {
    match event {
        Event::Key(key) => on_key(m, key),
        Event::Mouse(mouse) => (on_mouse(m, mouse), Next::Proceed { refresh: false }),
        Event::Other => (m, Next::Proceed { refresh: false }),
    }
}

/// No event changes the settings, the job list or what is known and
/// remembered of the jobs' output: an event moves the selection, the focus
/// and the view of the log, and asks for the end or for a refresh.
pub proof fn law_event_frame(m: AppView, event: Event)
    ensures
        on_event(m, event).0.config == m.config,
        on_event(m, event).0.jobs == m.jobs,
        on_event(m, event).0.log_preview == m.log_preview,
        on_event(m, event).0.log_error == m.log_error,
        on_event(m, event).0.log_line_count == m.log_line_count,
        on_event(m, event).0.last_detail_job_id == m.last_detail_job_id,
        on_event(m, event).0.job_list_area == m.job_list_area,
        on_event(m, event).0.log_area == m.log_area,
        m.should_quit ==> on_event(m, event).0.should_quit,
        m.selection_valid() ==> on_event(m, event).0.selection_valid(),
        m.log_valid() ==> on_event(m, event).0.log_valid(),
{
}

/// While the job list has the focus, no key scrolls the log but the one
/// that shows the other stream, which shows it from its top.
pub proof fn law_jobs_keys_leave_log(m: AppView, key: KeyEvent)
    ensures
        on_jobs_key(m, key).0.log_scroll == m.log_scroll || on_jobs_key(m, key).0
            == m.toggled_log_mode(),
{
}

/// Escape gives the focus to the job list and Tab to the other panel,
/// whatever panel had it; no other key but Enter in the job list moves
/// the focus.
pub proof fn law_focus_keys(m: AppView, key: KeyEvent)
    ensures
        key.code == KeyCode::Esc ==> on_key(m, key).0.focus == FocusPanel::Jobs,
        key.code == KeyCode::Tab ==> on_key(m, key).0.focus == m.focus.other(),
        key.code != KeyCode::Esc && key.code != KeyCode::Tab && !(key.code == KeyCode::Enter
            && m.focus == FocusPanel::Jobs) ==> on_key(m, key).0.focus == m.focus,
{
}

/// Whether the setting `binding` names the key of the character `c`.
pub fn binding_is(binding: &String, c: char) -> (named: bool)
    ensures
        named == binds(binding@, c),
{
    let s = binding.as_str();
    if s.unicode_len() == 1 {
        let only = s.get_char(0);
        proof {
            if only == c {
                assert(binding@ =~= seq![c]);
            } else {
                assert(seq![c][0] == c);
            }
        }
        only == c
    } else {
        proof {
            assert(seq![c].len() == 1);
        }
        false
    }
}

/// The settings that name the key of a character.
struct Named {
    quit: bool,
    down: bool,
    up: bool,
    top: bool,
    bottom: bool,
    refresh: bool,
    toggle_logs: bool,
}

/// Which settings of `app` name the key of the character `c`.
fn named_by(app: &App, c: char) -> (named: Named)
    ensures
        named.quit == binds(app@.config.keybindings.quit@, c),
        named.down == binds(app@.config.keybindings.down@, c),
        named.up == binds(app@.config.keybindings.up@, c),
        named.top == binds(app@.config.keybindings.top@, c),
        named.bottom == binds(app@.config.keybindings.bottom@, c),
        named.refresh == binds(app@.config.keybindings.refresh@, c),
        named.toggle_logs == binds(app@.config.keybindings.toggle_logs@, c),
{
    let keys = &app.config().keybindings;
    Named {
        quit: binding_is(&keys.quit, c),
        down: binding_is(&keys.down, c),
        up: binding_is(&keys.up, c),
        top: binding_is(&keys.top, c),
        bottom: binding_is(&keys.bottom, c),
        refresh: binding_is(&keys.refresh, c),
        toggle_logs: binding_is(&keys.toggle_logs, c),
    }
}

/// Does what a key does while the job list has the focus. Returns whether
/// the job list is to be read anew.
pub fn handle_jobs_keys(app: &mut App, key: KeyEvent) -> (refresh: bool)
    ensures
        (final(app)@, refresh) == on_jobs_key(old(app)@, key),
{
    match key.code {
        KeyCode::Char(c) => {
            if !key.ctrl {
                let named = named_by(app, c);
                if named.quit {
                    app.quit();
                } else if named.down {
                    app.next_job();
                } else if named.up {
                    app.previous_job();
                } else if named.top {
                    app.select_first();
                } else if named.bottom {
                    app.select_last();
                } else if named.refresh {
                    return true;
                } else if named.toggle_logs {
                    app.toggle_log_mode();
                }
            }
        },
        KeyCode::Up => app.previous_job(),
        KeyCode::Down => app.next_job(),
        KeyCode::Home => app.select_first(),
        KeyCode::End => app.select_last(),
        KeyCode::Enter => app.cycle_focus(),
        _ => {},
    }
    false
}

/// Does what a key does while the log has the focus. Returns whether the
/// job list is to be read anew.
pub fn handle_log_keys(app: &mut App, key: KeyEvent) -> (refresh: bool)
    ensures
        (final(app)@, refresh) == on_log_key(old(app)@, key),
{
    match key.code {
        KeyCode::Char(c) => {
            if key.ctrl {
                if c == 'd' {
                    app.scroll_log_down(HALF_PAGE_LINES);
                } else if c == 'u' {
                    app.scroll_log_up(HALF_PAGE_LINES);
                }
            } else {
                let named = named_by(app, c);
                if named.quit {
                    app.quit();
                } else if named.down {
                    app.scroll_log_down(1);
                } else if named.up {
                    app.scroll_log_up(1);
                } else if named.top {
                    app.scroll_log_top();
                } else if named.bottom {
                    app.scroll_log_bottom();
                } else if named.toggle_logs {
                    app.toggle_log_mode();
                } else if named.refresh {
                    return true;
                }
            }
        },
        KeyCode::Up => app.scroll_log_up(1),
        KeyCode::Down => app.scroll_log_down(1),
        KeyCode::PageUp => app.scroll_log_up(PAGE_LINES),
        KeyCode::PageDown => app.scroll_log_down(PAGE_LINES),
        KeyCode::Home => app.scroll_log_top(),
        KeyCode::End => app.scroll_log_bottom(),
        _ => {},
    }
    false
}

/// Does what the mouse does.
pub fn handle_mouse(app: &mut App, mouse: MouseEvent)
    ensures
        final(app)@ == on_mouse(old(app)@, mouse),
{
    match mouse.kind {
        MouseKind::LeftDown => app.click(mouse.column, mouse.row),
        MouseKind::ScrollUp => {
            if rect_contains(app.log_area(), mouse.column, mouse.row) {
                app.scroll_log_up(WHEEL_LINES);
            }
        },
        MouseKind::ScrollDown => {
            if rect_contains(app.log_area(), mouse.column, mouse.row) {
                app.scroll_log_down(WHEEL_LINES);
            }
        },
        MouseKind::Other => {},
    }
}

/// Does what an event does, and says how the round goes on.
pub fn handle_event(app: &mut App, event: Event) -> (next: Next)
    ensures
        (final(app)@, next) == on_event(old(app)@, event),
{
    match event {
        Event::Key(key) => {
            match key.code {
                KeyCode::Char(c) => {
                    if key.ctrl && c == 'c' {
                        app.quit();
                    }
                },
                _ => {},
            }
            match key.code {
                KeyCode::Tab => {
                    app.cycle_focus();
                    Next::Redraw
                },
                KeyCode::Esc => {
                    app.focus_jobs();
                    Next::Redraw
                },
                _ => {
                    let refresh = match app.focus() {
                        FocusPanel::Jobs => handle_jobs_keys(app, key),
                        FocusPanel::Log => handle_log_keys(app, key),
                    };
                    Next::Proceed { refresh }
                },
            }
        },
        Event::Mouse(mouse) => {
            handle_mouse(app, mouse);
            Next::Proceed { refresh: false }
        },
        Event::Other => Next::Proceed { refresh: false },
    }
}

} // verus!
