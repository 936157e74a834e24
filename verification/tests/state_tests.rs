use trowel::client::TfClient;
use trowel::diff::TrowelDiff;
use trowel::state::{
    ActiveView, AppState, InputEvent, Key, KeyInput, Lifecycle, MouseInput, TextCommand,
    TreeCommand, ViewCommand,
};
use trowel::widget::{scroll_y, ErrorView, PlanningViewState};

fn key(k: Key) -> InputEvent {
    InputEvent::Key(KeyInput { key: k, ctrl: false, is_press: true })
}

fn fresh_app() -> AppState {
    AppState::new(TrowelDiff(vec![]), Some("the plan".to_string()), true)
}

#[test]
fn test_app_starts_running_on_tree() {
    let app = fresh_app();
    assert_eq!(app.lifecycle, Lifecycle::Running);
    assert_eq!(app.active_view, ActiveView::TreeView);
    assert!(app.show_experimental_warning);
    assert!(app.text_view_state.is_some());
}

#[test]
fn test_quit_bindings() {
    let mut app = fresh_app();
    app.process_event(&key(Key::Char('q')));
    assert_eq!(app.lifecycle, Lifecycle::Quit);

    let mut app = fresh_app();
    app.process_event(&InputEvent::Key(KeyInput {
        key: Key::Char('c'),
        ctrl: true,
        is_press: true,
    }));
    assert_eq!(app.lifecycle, Lifecycle::Quit);

    // A plain 'c' does not quit.
    let mut app = fresh_app();
    app.process_event(&key(Key::Char('c')));
    assert_eq!(app.lifecycle, Lifecycle::Running);
}

#[test]
fn test_non_press_events_ignored() {
    let mut app = fresh_app();
    let cmd = app.process_event(&InputEvent::Key(KeyInput {
        key: Key::Char('q'),
        ctrl: false,
        is_press: false,
    }));
    assert_eq!(app.lifecycle, Lifecycle::Running);
    assert_eq!(cmd, ViewCommand::Still);
}

#[test]
fn test_tab_toggles_view() {
    let mut app = fresh_app();
    app.process_event(&key(Key::Tab));
    assert_eq!(app.active_view, ActiveView::TextView);
    app.process_event(&key(Key::Tab));
    assert_eq!(app.active_view, ActiveView::TreeView);
}

#[test]
fn test_tree_view_commands() {
    let mut app = fresh_app();
    assert_eq!(
        app.process_event(&key(Key::Char('j'))),
        ViewCommand::Tree(TreeCommand::KeyDown)
    );
    assert_eq!(
        app.process_event(&key(Key::Enter)),
        ViewCommand::Tree(TreeCommand::ToggleSelected)
    );
    assert_eq!(
        app.process_event(&key(Key::Char('G'))),
        ViewCommand::Tree(TreeCommand::SelectLast)
    );
    assert_eq!(
        app.process_event(&key(Key::Home)),
        ViewCommand::Tree(TreeCommand::SelectFirst)
    );
    assert_eq!(
        app.process_event(&InputEvent::Mouse(MouseInput::ScrollDown)),
        ViewCommand::Tree(TreeCommand::ScrollDown(1))
    );
    assert_eq!(
        app.process_event(&InputEvent::Mouse(MouseInput::Click(3, 7))),
        ViewCommand::Tree(TreeCommand::ClickAt(3, 7))
    );
}

#[test]
fn test_text_view_commands() {
    let mut app = fresh_app();
    app.process_event(&key(Key::Tab));
    assert_eq!(
        app.process_event(&key(Key::Char('j'))),
        ViewCommand::Text(TextCommand::ScrollDown(1))
    );
    assert_eq!(
        app.process_event(&key(Key::Char('u'))),
        ViewCommand::Text(TextCommand::ScrollUp(10))
    );
    // The text view ignores mouse events.
    assert_eq!(
        app.process_event(&InputEvent::Mouse(MouseInput::ScrollUp)),
        ViewCommand::Still
    );
}

#[test]
fn test_text_view_absent_still() {
    let mut app = AppState::new(TrowelDiff(vec![]), None, false);
    app.process_event(&key(Key::Tab));
    assert_eq!(app.process_event(&key(Key::Char('j'))), ViewCommand::Still);
}

#[test]
fn test_resize_ignored() {
    let mut app = fresh_app();
    let cmd = app.process_event(&InputEvent::Resize(80, 24));
    assert_eq!(cmd, ViewCommand::Still);
    assert_eq!(app.lifecycle, Lifecycle::Running);
}

#[test]
fn test_error_view_lines() {
    let view = ErrorView::new("first\nsecond\r\nthird".to_string());
    assert_eq!(view.lines(), vec!["first", "second", "third"]);
    let empty = ErrorView::new("".to_string());
    assert_eq!(empty.lines(), Vec::<String>::new());
    let trailing = ErrorView::new("only\n".to_string());
    assert_eq!(trailing.lines(), vec!["only"]);
}

#[test]
fn test_error_view_popup_dimensions() {
    let view = ErrorView::new("abc\nlonger line".to_string());
    let (w, h) = view.popup_dimensions();
    assert_eq!(w, 11 + 6);
    assert_eq!(h, 2 + 2);
    // An empty message falls back to the default width.
    let empty = ErrorView::new("".to_string());
    let (w, h) = empty.popup_dimensions();
    assert_eq!(w, 100);
    assert_eq!(h, 2);
}

#[test]
fn test_planning_view_state() {
    let mut state = PlanningViewState::new();
    assert_eq!(state.plan_stdout.len(), 0);
    state.push_line("Initializing...".to_string());
    state.push_line("Plan: 1 to add".to_string());
    assert_eq!(state.plan_stdout.len(), 2);
    assert_eq!(state.plan_stdout[1], "Plan: 1 to add");
}

#[test]
fn test_scroll_y() {
    // Fewer lines than the viewport: no scroll.
    assert_eq!(scroll_y(5, 24), 0);
    // More lines than the viewport: keep the tail visible.
    assert_eq!(scroll_y(30, 24), 30 - 22);
    // A viewport smaller than the frame never underflows.
    assert_eq!(scroll_y(3, 1), 3);
}

#[test]
fn test_tf_client() {
    let client = TfClient::new("tofu".to_string());
    assert_eq!(client.binary(), "tofu");
    let copy = client.clone();
    assert_eq!(copy.binary(), "tofu");
}
