use donut::models::{Project, Todo};
use donut::screen::{help_rows, Tone};
use donut::storage::Storage;
use donut::ui::{App, Effect, Key, KeyCode, ViewMode};

fn key(c: char) -> Key {
    Key { code: KeyCode::Char(c), ctrl: false }
}

fn code(k: KeyCode) -> Key {
    Key { code: k, ctrl: false }
}

fn project(name: &str, todos: &[(&str, bool, i64)]) -> Project {
    let mut p = Project::new(name.to_string(), format!("{}.md", name));
    for (t, done, at) in todos {
        p.todos.push(Todo { title: t.to_string(), completed: *done, line_num: 0, created_at: (*at, 0) });
    }
    p
}

fn app(projects: Vec<Project>) -> App {
    App::new(Storage::new(b"/tmp/donut-test".to_vec()), projects)
}

fn type_text(a: &mut App, s: &str) {
    for c in s.chars() {
        assert!(matches!(a.handle_key(key(c)), Effect::Nothing));
    }
}

#[test]
fn navigation_in_project_view() {
    let mut a = app(vec![project("a", &[]), project("b", &[]), project("c", &[])]);
    a.handle_key(code(KeyCode::Up));
    assert_eq!(a.cursor, 0);
    a.handle_key(key('j'));
    a.handle_key(code(KeyCode::Down));
    a.handle_key(code(KeyCode::Down));
    assert_eq!(a.cursor, 2);
    a.handle_key(key('k'));
    assert_eq!(a.cursor, 1);
    a.handle_key(code(KeyCode::Enter));
    assert_eq!(a.view_mode, ViewMode::TodoView);
    assert_eq!(a.data.current_project, 1);
    assert_eq!(a.cursor, 0);
    a.handle_key(code(KeyCode::Backspace));
    assert_eq!(a.view_mode, ViewMode::ProjectView);
    assert_eq!(a.cursor, 1);
}

#[test]
fn quitting() {
    let mut a = app(vec![]);
    a.handle_key(key('c'));
    assert!(!a.should_quit);
    a.handle_key(Key { code: KeyCode::Char('c'), ctrl: true });
    assert!(a.should_quit);
    let mut b = app(vec![]);
    b.handle_key(code(KeyCode::Esc));
    assert!(b.should_quit);
}

#[test]
fn help_swallows_keys() {
    let mut a = app(vec![project("a", &[])]);
    a.handle_key(key('?'));
    assert!(a.show_help);
    a.handle_key(key('q'));
    assert!(!a.should_quit);
    a.handle_key(key('?'));
    assert!(!a.show_help);
    let rows = help_rows();
    assert_eq!(rows.len(), 22);
    assert_eq!(rows[7][0].text, "  r           - Rename project");
    assert_eq!(rows[0][0].text, " Donut - Keyboard Shortcuts");
    assert_eq!(rows[0][0].tone, Tone::Accent);
}

#[test]
fn create_project_and_delete_it() {
    let mut a = app(vec![project("a", &[])]);
    a.handle_key(key('n'));
    assert_eq!(a.view_mode, ViewMode::CreateProjectView);
    type_text(&mut a, "My Projx");
    a.handle_key(code(KeyCode::Backspace));
    type_text(&mut a, "ect");
    assert_eq!(a.create_project_prompt(), "Create New Project: My Project▌");
    match a.handle_key(code(KeyCode::Enter)) {
        Effect::SaveProject(i) => assert_eq!(i, 1),
        other => panic!("unexpected {:?}", other),
    }
    assert_eq!(a.view_mode, ViewMode::ProjectView);
    assert_eq!(a.cursor, 1);
    assert_eq!(a.data.projects[1].name, "My Project");
    assert_eq!(a.data.projects[1].filename, "my-project.md");
    assert!(a.input.is_empty());
    a.handle_key(key('d'));
    assert_eq!(a.view_mode, ViewMode::ConfirmDeleteProjectView);
    assert_eq!(a.confirm_delete_text(), "Delete 'My Project'? (y/n)");
    match a.handle_key(key('y')) {
        Effect::DeleteProjectFile(f) => assert_eq!(f, "my-project.md"),
        other => panic!("unexpected {:?}", other),
    }
    assert_eq!(a.data.projects.len(), 1);
    assert_eq!(a.cursor, 0);
    assert_eq!(a.view_mode, ViewMode::ProjectView);
}

#[test]
fn empty_name_creates_nothing() {
    let mut a = app(vec![]);
    a.handle_key(key('n'));
    assert!(matches!(a.handle_key(code(KeyCode::Enter)), Effect::Nothing));
    assert!(a.data.projects.is_empty());
    assert_eq!(a.view_mode, ViewMode::ProjectView);
    a.handle_key(key('d'));
    assert_eq!(a.view_mode, ViewMode::ProjectView);
}

#[test]
fn todos_toggle_edit_delete() {
    let mut a = app(vec![project("w", &[("one", false, 3), ("two", false, 2), ("old", true, 1)])]);
    a.handle_key(code(KeyCode::Tab));
    assert_eq!(a.view_mode, ViewMode::TodoView);
    a.handle_key(key('j'));
    // toggling "two" moves it among the done todos
    match a.handle_key(key(' ')) {
        Effect::SaveProject(i) => assert_eq!(i, 0),
        other => panic!("unexpected {:?}", other),
    }
    let t: Vec<(&str, bool)> =
        a.data.projects[0].todos.iter().map(|t| (t.title.as_str(), t.completed)).collect();
    assert_eq!(t, vec![("one", false), ("two", true), ("old", true)]);
    assert_eq!(a.data.projects[0].completed_count(), 2);
    // edit the first todo
    a.handle_key(key('k'));
    a.handle_key(key('e'));
    assert_eq!(a.view_mode, ViewMode::EditTodoView);
    assert_eq!(a.input, "one");
    a.handle_key(code(KeyCode::Backspace));
    a.handle_key(code(KeyCode::Backspace));
    a.handle_key(code(KeyCode::Backspace));
    type_text(&mut a, "first");
    assert_eq!(a.edit_todo_prompt(), "Edit Todo: first▌");
    assert!(matches!(a.handle_key(code(KeyCode::Enter)), Effect::SaveProject(0)));
    assert_eq!(a.data.projects[0].todos[0].title, "first");
    assert_eq!(a.edit_index, None);
    // delete the last todo; the cursor follows
    a.handle_key(key('j'));
    a.handle_key(key('j'));
    a.handle_key(key('j'));
    assert_eq!(a.cursor, 2);
    assert!(matches!(a.handle_key(key('d')), Effect::SaveProject(0)));
    assert_eq!(a.data.projects[0].todos.len(), 2);
    assert_eq!(a.cursor, 1);
}

#[test]
fn create_todo() {
    let mut a = app(vec![project("w", &[("done", true, 1)])]);
    a.handle_key(code(KeyCode::Enter));
    a.handle_key(key('n'));
    assert_eq!(a.view_mode, ViewMode::CreateTodoView);
    type_text(&mut a, "fresh");
    assert_eq!(a.create_todo_prompt(), "Create New Todo: fresh▌");
    assert!(matches!(a.handle_key(code(KeyCode::Enter)), Effect::SaveProject(0)));
    let p = &a.data.projects[0];
    assert_eq!(p.todos[0].title, "fresh");
    assert!(!p.todos[0].completed);
    assert_eq!(p.todos[0].line_num, 2);
    assert_eq!(a.view_mode, ViewMode::TodoView);
    assert_eq!(a.cursor, 0);
    a.handle_key(key('n'));
    type_text(&mut a, "x");
    a.handle_key(code(KeyCode::Esc));
    assert_eq!(a.view_mode, ViewMode::TodoView);
    assert_eq!(a.data.projects[0].todos.len(), 2);
}

#[test]
fn screens_show_counts_and_marks() {
    let mut a = app(vec![project("w", &[("a", true, 1), ("b", false, 2)]), project("z", &[("c", true, 1)])]);
    let rows = a.sidebar_rows();
    assert_eq!(rows.len(), 2);
    let texts: Vec<&str> = rows[0].iter().map(|p| p.text.as_str()).collect();
    assert_eq!(texts, vec!["▸ ", "○ ", "w", " 1/2"]);
    assert_eq!(rows[0][0].tone, Tone::Accent);
    assert_eq!(rows[0][3].tone, Tone::Dim);
    let texts: Vec<&str> = rows[1].iter().map(|p| p.text.as_str()).collect();
    assert_eq!(texts, vec!["  ", "✓ ", "z", " 1/1"]);
    assert_eq!(rows[1][0].tone, Tone::Plain);
    let (title, prev) = a.preview().unwrap();
    assert_eq!(title, " w");
    assert_eq!(prev[0][0].text, "  ✓ a");
    assert_eq!(prev[0][0].tone, Tone::Done);
    a.handle_key(code(KeyCode::Enter));
    a.handle_key(key('j'));
    assert_eq!(a.todo_view_title(), " w");
    let rows = a.todo_rows();
    assert_eq!(rows[0][0].text, "  ✓ a");
    assert_eq!(rows[1][0].text, "▸ ○ b");
    assert_eq!(rows[1][0].tone, Tone::Accent);
    let empty = app(vec![]);
    assert_eq!(empty.sidebar_rows()[0][0].text, "  No projects");
    assert!(empty.preview().is_none());
    assert_eq!(empty.confirm_delete_text(), "Delete ''? (y/n)");
}

fn ctrl_c() -> Key {
    Key { code: KeyCode::Char('c'), ctrl: true }
}

#[test]
fn ctrl_c_quits_in_every_editor() {
    let mut a = app(vec![project("w", &[("t", false, 1)])]);
    a.handle_key(key('n'));
    type_text(&mut a, "ab");
    a.handle_key(ctrl_c());
    assert!(a.should_quit);
    assert_eq!(a.input, "ab");
    let mut b = app(vec![project("w", &[("t", false, 1)])]);
    b.handle_key(code(KeyCode::Enter));
    b.handle_key(key('e'));
    b.handle_key(ctrl_c());
    assert!(b.should_quit);
    let mut c = app(vec![project("w", &[])]);
    c.handle_key(key('d'));
    c.handle_key(ctrl_c());
    assert!(c.should_quit);
    let mut d = app(vec![project("w", &[])]);
    d.handle_key(key('r'));
    d.handle_key(ctrl_c());
    assert!(d.should_quit);
    // without Control, 'c' is typed
    let mut e = app(vec![]);
    e.handle_key(key('n'));
    e.handle_key(key('c'));
    assert!(!e.should_quit);
    assert_eq!(e.input, "c");
}

#[test]
fn rename_project() {
    let mut a = app(vec![project("a", &[]), project("b", &[])]);
    a.handle_key(key('j'));
    a.handle_key(key('r'));
    assert_eq!(a.view_mode, ViewMode::RenameProjectView);
    assert_eq!(a.input, "b");
    assert_eq!(a.rename_project_prompt(), "Rename Project: b▌");
    a.handle_key(code(KeyCode::Backspace));
    type_text(&mut a, "Better");
    match a.handle_key(code(KeyCode::Enter)) {
        Effect::SaveProject(i) => assert_eq!(i, 1),
        other => panic!("unexpected {:?}", other),
    }
    assert_eq!(a.view_mode, ViewMode::ProjectView);
    assert_eq!(a.data.projects[1].name, "Better");
    assert_eq!(a.data.projects[1].filename, "b.md");
    assert_eq!(a.cursor, 1);
    // Esc keeps the old name
    a.handle_key(key('r'));
    type_text(&mut a, "!!");
    assert!(matches!(a.handle_key(code(KeyCode::Esc)), Effect::Nothing));
    assert_eq!(a.data.projects[1].name, "Better");
    // an empty name keeps the old one
    a.handle_key(key('r'));
    for _ in 0..6 {
        a.handle_key(code(KeyCode::Backspace));
    }
    assert!(matches!(a.handle_key(code(KeyCode::Enter)), Effect::Nothing));
    assert_eq!(a.data.projects[1].name, "Better");
    // no project, no rename
    let mut e = app(vec![]);
    e.handle_key(key('r'));
    assert_eq!(e.view_mode, ViewMode::ProjectView);
}
