//! The interactive session, modeled as a finite-state machine: discrete
//! input events drive the lifecycle and the active view, and every
//! reaction is returned as an explicit command for the display shell to
//! carry out. The shell performs the drawing and the waiting; the
//! decisions live here.

use crate::diff::TrowelDiff;
use vstd::prelude::*;

verus! {

/// Whether the session keeps running.
#[derive(Clone, Copy, Debug, PartialEq, Eq, Structural)]
pub enum Lifecycle {
    Running,
    Quit,
}

/// Which of the two fixed views is shown.
#[derive(Clone, Copy, Debug, PartialEq, Eq, Structural)]
pub enum ActiveView {
    TreeView,
    TextView,
}

/// A key, reduced to what the session reacts to.
#[derive(Clone, Copy, Debug, PartialEq, Eq, Structural)]
pub enum Key {
    Char(char),
    Enter,
    Tab,
    Left,
    Right,
    Up,
    Down,
    Home,
    End,
    Other,
}

/// One keyboard event.
#[derive(Clone, Copy, Debug, PartialEq, Eq, Structural)]
pub struct KeyInput {
    pub key: Key,
    pub ctrl: bool,
    /// Only press events act; repeats and releases are ignored.
    pub is_press: bool,
}

/// One mouse event.
#[derive(Clone, Copy, Debug, PartialEq, Eq, Structural)]
pub enum MouseInput {
    ScrollUp,
    ScrollDown,
    Click(u16, u16),
    Other,
}

/// One discrete input event.
#[derive(Clone, Copy, Debug, PartialEq, Eq, Structural)]
pub enum InputEvent {
    Key(KeyInput),
    Mouse(MouseInput),
    Resize(u16, u16),
    Other,
}

/// What the shell must do to its tree rendering state.
#[derive(Clone, Copy, Debug, PartialEq, Eq, Structural)]
pub enum TreeCommand {
    ToggleSelected,
    KeyLeft,
    KeyRight,
    KeyDown,
    KeyUp,
    SelectFirst,
    SelectLast,
    ScrollDown(u16),
    ScrollUp(u16),
    ClickAt(u16, u16),
    Still,
}

/// What the shell must do to its text rendering state.
#[derive(Clone, Copy, Debug, PartialEq, Eq, Structural)]
pub enum TextCommand {
    ScrollUp(u16),
    ScrollDown(u16),
    Still,
}

/// What the shell must do after an event was processed.
#[derive(Clone, Copy, Debug, PartialEq, Eq, Structural)]
pub enum ViewCommand {
    Tree(TreeCommand),
    Text(TextCommand),
    Still,
}

/// How many lines a page scroll moves.
pub const PAGE_DOWN_LINES: u16 = 10;

/// The reaction of the text view to a key.
pub open spec fn text_command_spec(k: KeyInput) -> TextCommand {
    match k.key {
        Key::Char(c) => if c == 'j' {
            TextCommand::ScrollDown(1)
        } else if c == 'k' {
            TextCommand::ScrollUp(1)
        } else if c == 'u' {
            TextCommand::ScrollUp(PAGE_DOWN_LINES)
        } else if c == 'd' {
            TextCommand::ScrollDown(PAGE_DOWN_LINES)
        } else {
            TextCommand::Still
        },
        _ => TextCommand::Still,
    }
}

/// The reaction of the tree view to a key.
pub open spec fn tree_command_spec(k: KeyInput) -> TreeCommand {
    match k.key {
        Key::Enter => TreeCommand::ToggleSelected,
        Key::Char(c) => if c == 'h' {
            TreeCommand::KeyLeft
        } else if c == 'l' {
            TreeCommand::KeyRight
        } else if c == 'j' {
            TreeCommand::KeyDown
        } else if c == 'k' {
            TreeCommand::KeyUp
        } else if c == 'g' {
            TreeCommand::SelectFirst
        } else if c == 'G' {
            TreeCommand::SelectLast
        } else {
            TreeCommand::Still
        },
        Key::Left => TreeCommand::KeyLeft,
        Key::Right => TreeCommand::KeyRight,
        Key::Down => TreeCommand::KeyDown,
        Key::Up => TreeCommand::KeyUp,
        Key::Home => TreeCommand::SelectFirst,
        Key::End => TreeCommand::SelectLast,
        _ => TreeCommand::Still,
    }
}

/// The reaction of the tree view to a mouse event.
pub open spec fn tree_mouse_spec(m: MouseInput) -> TreeCommand {
    match m {
        MouseInput::ScrollDown => TreeCommand::ScrollDown(1),
        MouseInput::ScrollUp => TreeCommand::ScrollUp(1),
        MouseInput::Click(column, row) => TreeCommand::ClickAt(column, row),
        MouseInput::Other => TreeCommand::Still,
    }
}

/// Whether a key quits the session.
pub open spec fn is_quit_binding_spec(k: KeyInput) -> bool {
    ||| k.key == Key::Char('q')
    ||| (k.key == Key::Char('c') && k.ctrl)
}

/// The text view's session state: the plan text it shows.
pub struct TextViewState {
    pub plan: String,
}

impl TextViewState {
    /// A text view over the given plan text.
    pub fn new(plan: String) -> (r: Self)
        ensures
            r.plan@ == plan@,
    {
        TextViewState { plan }
    }

    /// Decides how a key moves the text view.
    pub fn process_keypress(&self, key: &KeyInput) -> (c: TextCommand)
        ensures
            c == text_command_spec(*key),
    {
        match key.key {
            Key::Char(ch) => {
                if ch == 'j' {
                    TextCommand::ScrollDown(1)
                } else if ch == 'k' {
                    TextCommand::ScrollUp(1)
                } else if ch == 'u' {
                    TextCommand::ScrollUp(PAGE_DOWN_LINES)
                } else if ch == 'd' {
                    TextCommand::ScrollDown(PAGE_DOWN_LINES)
                } else {
                    TextCommand::Still
                }
            },
            _ => TextCommand::Still,
        }
    }
}

/// The tree view's session state: the change set it shows.
pub struct TreeViewState {
    pub diff: TrowelDiff,
}

impl TreeViewState {
    /// A tree view over the given change set.
    pub fn new(diff: TrowelDiff) -> (r: Self)
        ensures
            r.diff@ == diff@,
    {
        TreeViewState { diff }
    }

    /// Decides how a key moves the tree view.
    pub fn process_keypress(&self, key: &KeyInput) -> (c: TreeCommand)
        ensures
            c == tree_command_spec(*key),
    {
        match key.key {
            Key::Enter => TreeCommand::ToggleSelected,
            Key::Char(ch) => {
                if ch == 'h' {
                    TreeCommand::KeyLeft
                } else if ch == 'l' {
                    TreeCommand::KeyRight
                } else if ch == 'j' {
                    TreeCommand::KeyDown
                } else if ch == 'k' {
                    TreeCommand::KeyUp
                } else if ch == 'g' {
                    TreeCommand::SelectFirst
                } else if ch == 'G' {
                    TreeCommand::SelectLast
                } else {
                    TreeCommand::Still
                }
            },
            Key::Left => TreeCommand::KeyLeft,
            Key::Right => TreeCommand::KeyRight,
            Key::Down => TreeCommand::KeyDown,
            Key::Up => TreeCommand::KeyUp,
            Key::Home => TreeCommand::SelectFirst,
            Key::End => TreeCommand::SelectLast,
            _ => TreeCommand::Still,
        }
    }

    /// Decides how a mouse event moves the tree view.
    pub fn process_mouse_event(&self, mouse: MouseInput) -> (c: TreeCommand)
        ensures
            c == tree_mouse_spec(mouse),
    {
        match mouse {
            MouseInput::ScrollDown => TreeCommand::ScrollDown(1),
            MouseInput::ScrollUp => TreeCommand::ScrollUp(1),
            MouseInput::Click(column, row) => TreeCommand::ClickAt(column, row),
            MouseInput::Other => TreeCommand::Still,
        }
    }
}

/// The whole session state.
pub struct AppState {
    pub lifecycle: Lifecycle,
    pub active_view: ActiveView,
    pub show_experimental_warning: bool,
    pub text_view_state: Option<TextViewState>,
    pub tree_view_state: TreeViewState,
}

/// The view shown after a toggle.
pub open spec fn toggled(v: ActiveView) -> ActiveView {
    match v {
        ActiveView::TreeView => ActiveView::TextView,
        ActiveView::TextView => ActiveView::TreeView,
    }
}

impl AppState {
    /// A fresh session: running, on the tree view.
    pub fn new(diff: TrowelDiff, text_plan: Option<String>, show_experimental_warning: bool) -> (r:
        AppState)
        ensures
            r.lifecycle == Lifecycle::Running,
            r.active_view == ActiveView::TreeView,
            r.show_experimental_warning == show_experimental_warning,
            r.tree_view_state.diff@ == diff@,
            match text_plan {
                None => r.text_view_state is None,
                Some(t) => r.text_view_state matches Some(tv) && tv.plan@ == t@,
            },
    {
        let text_view_state = match text_plan {
            None => None,
            Some(t) => Some(TextViewState::new(t)),
        };
        AppState {
            lifecycle: Lifecycle::Running,
            active_view: ActiveView::TreeView,
            show_experimental_warning,
            text_view_state,
            tree_view_state: TreeViewState::new(diff),
        }
    }

    /// Switches between the tree view and the text view.
    pub fn toggle_view(&mut self)
        ensures
            final(self).active_view == toggled(old(self).active_view),
            final(self).lifecycle == old(self).lifecycle,
            final(self).show_experimental_warning == old(self).show_experimental_warning,
            final(self).text_view_state == old(self).text_view_state,
            final(self).tree_view_state == old(self).tree_view_state,
    {
        self.active_view = match self.active_view {
            ActiveView::TreeView => ActiveView::TextView,
            ActiveView::TextView => ActiveView::TreeView,
        };
    }

    /// Ends the session.
    fn quit(&mut self)
        ensures
            final(self).lifecycle == Lifecycle::Quit,
            final(self).active_view == old(self).active_view,
            final(self).show_experimental_warning == old(self).show_experimental_warning,
            final(self).text_view_state == old(self).text_view_state,
            final(self).tree_view_state == old(self).tree_view_state,
    {
        self.lifecycle = Lifecycle::Quit;
    }

    /// Whether a key quits the session.
    fn is_quit_binding(key: &KeyInput) -> (r: bool)
        ensures
            r == is_quit_binding_spec(*key),
    {
        match key.key {
            Key::Char(ch) => {
                if ch == 'q' {
                    true
                } else if ch == 'c' {
                    key.ctrl
                } else {
                    false
                }
            },
            _ => false,
        }
    }

    /// Advances the session by one event and says what the shell must do.
    /// A quit binding ends the session, Tab toggles the view, everything
    /// else is forwarded to the active view; non-press key events, resizes
    /// and unknown events do nothing.
    pub fn process_event(&mut self, event: &InputEvent) -> (cmd: ViewCommand)
        ensures
            final(self).show_experimental_warning == old(self).show_experimental_warning,
            final(self).text_view_state == old(self).text_view_state,
            final(self).tree_view_state == old(self).tree_view_state,
            match *event {
                InputEvent::Key(k) => {
                    if !k.is_press {
                        &&& final(self).lifecycle == old(self).lifecycle
                        &&& final(self).active_view == old(self).active_view
                        &&& cmd == ViewCommand::Still
                    } else if is_quit_binding_spec(k) {
                        &&& final(self).lifecycle == Lifecycle::Quit
                        &&& final(self).active_view == old(self).active_view
                        &&& cmd == ViewCommand::Still
                    } else if k.key == Key::Tab {
                        &&& final(self).lifecycle == old(self).lifecycle
                        &&& final(self).active_view == toggled(old(self).active_view)
                        &&& cmd == ViewCommand::Still
                    } else {
                        &&& final(self).lifecycle == old(self).lifecycle
                        &&& final(self).active_view == old(self).active_view
                        &&& cmd == (match old(self).active_view {
                            ActiveView::TreeView => ViewCommand::Tree(tree_command_spec(k)),
                            ActiveView::TextView => match old(self).text_view_state {
                                Some(_) => ViewCommand::Text(text_command_spec(k)),
                                None => ViewCommand::Still,
                            },
                        })
                    }
                },
                InputEvent::Mouse(m) => {
                    &&& final(self).lifecycle == old(self).lifecycle
                    &&& final(self).active_view == old(self).active_view
                    &&& cmd == (match old(self).active_view {
                        ActiveView::TreeView => ViewCommand::Tree(tree_mouse_spec(m)),
                        ActiveView::TextView => ViewCommand::Still,
                    })
                },
                _ => {
                    &&& final(self).lifecycle == old(self).lifecycle
                    &&& final(self).active_view == old(self).active_view
                    &&& cmd == ViewCommand::Still
                },
            },
    {
        match event {
            InputEvent::Key(k) => {
                if !k.is_press {
                    ViewCommand::Still
                } else if Self::is_quit_binding(k) {
                    self.quit();
                    ViewCommand::Still
                } else if matches!(k.key, Key::Tab) {
                    self.toggle_view();
                    ViewCommand::Still
                } else {
                    match self.active_view {
                        ActiveView::TreeView => ViewCommand::Tree(
                            self.tree_view_state.process_keypress(k),
                        ),
                        ActiveView::TextView => match &self.text_view_state {
                            Some(state) => ViewCommand::Text(state.process_keypress(k)),
                            None => ViewCommand::Still,
                        },
                    }
                }
            },
            InputEvent::Mouse(m) => {
                match self.active_view {
                    ActiveView::TreeView => ViewCommand::Tree(
                        self.tree_view_state.process_mouse_event(*m),
                    ),
                    ActiveView::TextView => ViewCommand::Still,
                }
            },
            _ => ViewCommand::Still,
        }
    }
}

} // verus!
