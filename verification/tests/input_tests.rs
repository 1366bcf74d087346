//! Tests of the modal input machine, the command line, and insert-mode
//! editing driven through the whole application.

use cuprum::action::Action;
use cuprum::api::{BufferId, Mode, Position};
use cuprum::action::{CursorAction, WindowAction};
use cuprum::buffer::Buffer;
use cuprum::window::Window;
use cuprum::builtin::BuiltinAction;
use cuprum::commands::CommandMap;
use cuprum::editor::EditorApplication;
use cuprum::fileio::FileIo;
use cuprum::input::{InputManager, KeyCode};
use cuprum::vec2::UVec2;

struct NoFs;

impl FileIo for NoFs {
    fn read(&mut self, _path: &String) -> Result<String, ()> {
        Err(())
    }
    fn write(&mut self, _path: &String, _content: &String) -> Result<(), ()> {
        Ok(())
    }
}

/// A two-key sequence emits nothing on its first key and the bound
/// action on its second; a long pause clears the pending sequence.
#[test]
fn test_key_sequences_and_timeout() {
    let mut input = InputManager::default();
    assert_eq!(input.read_event_normal(Some(KeyCode::Char('d')), None), None);
    assert_eq!(
        input.read_event_normal(Some(KeyCode::Char('d')), Some(10)),
        Some(Action::Builtin(BuiltinAction::RemoveLine)),
    );

    assert_eq!(input.read_event_normal(Some(KeyCode::Char('g')), Some(10)), None);
    assert_eq!(input.read_event_normal(Some(KeyCode::Char('g')), Some(900)), None);
    assert_eq!(
        input.read_event_normal(Some(KeyCode::Char('g')), Some(10)),
        Some(Action::Builtin(BuiltinAction::MoveToY(Position::Start))),
    );

    assert_eq!(
        input.read_event_normal(Some(KeyCode::Char('x')), Some(10)),
        Some(Action::Builtin(BuiltinAction::RemoveChar)),
    );
    assert_eq!(
        input.read_event_visual(Some(KeyCode::Char('x')), Some(10)),
        Some(Action::Builtin(BuiltinAction::RemoveSelection)),
    );
    assert_eq!(input.read_event_normal(None, Some(10)), None);
}

/// The stock command table binds `q` to quit and `w` to save;
/// registering a name again replaces its binding.
#[test]
fn test_command_map() {
    let mut map = CommandMap::default();
    assert_eq!(map.get(&"q".to_string()), Some(&Action::Quit));
    assert_eq!(map.get(&"w".to_string()), Some(&Action::Builtin(BuiltinAction::Save)));
    assert_eq!(map.get(&"nope".to_string()), None);
    map.reg("q", Action::Builtin(BuiltinAction::Save));
    assert_eq!(map.get(&"q".to_string()), Some(&Action::Builtin(BuiltinAction::Save)));
}

fn type_keys(app: &mut EditorApplication, keys: &str) {
    let mut fs = NoFs;
    for ch in keys.chars() {
        app.process(&mut fs, Some(KeyCode::Char(ch)), Some(10)).unwrap();
    }
}

fn app_content(app: &mut EditorApplication) -> String {
    // Reading through the application's state snapshot, as the renderer does.
    let state = app.state();
    let win = state.get_active_window().unwrap();
    let buf = state.get_buffer(win.get_buffer_id()).unwrap();
    buf.get_content()
}

/// Typing through the whole application: `i` enters insert mode, text
/// and enter edit the buffer, escape returns to normal mode, and `:q`
/// followed by enter quits.
#[test]
fn test_typing_session() {
    let mut app = EditorApplication::new();
    app.open_initial(None, "", UVec2 { x: 80, y: 24 });
    let mut fs = NoFs;

    type_keys(&mut app, "i");
    assert_eq!(app.state().get_mode(), Mode::Insert(false));
    type_keys(&mut app, "hi");
    app.process(&mut fs, Some(KeyCode::Char('\n')), Some(10)).unwrap();
    type_keys(&mut app, "there");
    assert_eq!(app_content(&mut app), "hi\nthere".to_string());

    app.process(&mut fs, Some(KeyCode::Backspace), Some(10)).unwrap();
    assert_eq!(app_content(&mut app), "hi\nther".to_string());

    app.process(&mut fs, Some(KeyCode::Esc), Some(10)).unwrap();
    assert_eq!(app.state().get_mode(), Mode::Normal);

    type_keys(&mut app, ":");
    assert_eq!(app.state().get_mode(), Mode::Command);
    type_keys(&mut app, "q");
    assert_eq!(app.state().get_command_line(), "q".to_string());
    assert!(!app.get_quit());
    app.process(&mut fs, Some(KeyCode::Char('\n')), Some(10)).unwrap();
    assert!(app.get_quit());
    assert_eq!(app.state().get_mode(), Mode::Normal);
}

/// Backspace at the start of a line joins it with the previous one;
/// leaving an append-insert steps the cursor back.
#[test]
fn test_insert_mode_edges() {
    let mut app = EditorApplication::new();
    app.open_initial(None, "ab\ncd", UVec2 { x: 80, y: 24 });
    let mut fs = NoFs;

    app.process(&mut fs, Some(KeyCode::Char('j')), Some(10)).unwrap();
    type_keys(&mut app, "i");
    app.process(&mut fs, Some(KeyCode::Backspace), Some(10)).unwrap();
    assert_eq!(app_content(&mut app), "abcd".to_string());
    app.process(&mut fs, Some(KeyCode::Delete), Some(10)).unwrap();
    assert_eq!(app_content(&mut app), "abd".to_string());
    app.process(&mut fs, Some(KeyCode::Esc), Some(10)).unwrap();

    type_keys(&mut app, "a");
    assert_eq!(app.state().get_mode(), Mode::Insert(true));
    app.process(&mut fs, Some(KeyCode::Esc), Some(10)).unwrap();
    assert_eq!(app.state().get_mode(), Mode::Normal);
}

/// Mode labels, for the status line.
#[test]
fn test_mode_labels() {
    assert_eq!(Mode::Normal.label(), "NORMAL".to_string());
    assert_eq!(Mode::Visual.label(), "VISUAL".to_string());
    assert_eq!(Mode::Insert(false).label(), "INSERT".to_string());
    assert_eq!(Mode::Insert(true).label(), "INSERT (APPEND)".to_string());
    assert_eq!(Mode::Command.label(), "COMMAND".to_string());
}

/// The visual-mode flow through the application: `v` anchors a
/// selection, movement extends it, `x` removes it inclusively.
#[test]
fn test_visual_flow_through_app() {
    let mut app = EditorApplication::new();
    app.open_initial(None, "abcdef\nghijkl", UVec2 { x: 80, y: 24 });
    type_keys(&mut app, "ll");
    type_keys(&mut app, "v");
    assert_eq!(app.state().get_mode(), Mode::Visual);
    type_keys(&mut app, "jl");
    type_keys(&mut app, "x");
    assert_eq!(app_content(&mut app), "abkl".to_string());
    assert_eq!(app.state().get_mode(), Mode::Normal);
}

/// Window actions move the cursor like the protocol's move operations.
#[test]
fn test_window_on_action() {
    let buf = Buffer::from_text(None, "one\ntwo three");
    let mut win = Window::new(BufferId(0), UVec2 { x: 80, y: 24 });
    win.on_action(&buf, Mode::Normal, WindowAction::Cursor(CursorAction::MoveDown));
    assert_eq!(win.get_cursor(), UVec2 { x: 0, y: 1 });
    win.on_action(&buf, Mode::Normal, WindowAction::Cursor(CursorAction::MoveToEndOfLine));
    assert_eq!(win.get_cursor(), UVec2 { x: 9, y: 1 });
    win.on_action(&buf, Mode::Normal, WindowAction::Cursor(CursorAction::MoveToStartOfBuffer));
    assert_eq!(win.get_cursor(), UVec2 { x: 0, y: 0 });
    win.on_action(&buf, Mode::Normal, WindowAction::Cursor(CursorAction::MoveToEndOfBuffer));
    assert_eq!(win.get_cursor(), UVec2 { x: 9, y: 1 });
}

/// Movement keys move the active window's cursor.
#[test]
fn test_movement_keys() {
    let mut app = EditorApplication::new();
    app.open_initial(None, "zz", UVec2 { x: 80, y: 24 });
    type_keys(&mut app, "l");
    let state = app.state();
    let win = state.get_active_window().unwrap();
    assert_eq!(win.get_cursor(), UVec2 { x: 1, y: 0 });
}
