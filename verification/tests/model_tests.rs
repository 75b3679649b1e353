use donut::models::{todo_precedes, AppData, Project, Todo};

fn todo(title: &str, done: bool, secs: i64, nanos: u32) -> Todo {
    Todo { title: title.to_string(), completed: done, line_num: 0, created_at: (secs, nanos) }
}

fn titles(p: &Project) -> Vec<String> {
    p.todos.iter().map(|t| t.title.clone()).collect()
}

#[test]
fn sort_puts_open_first_and_newest_first() {
    let mut p = Project::new("p".to_string(), "p.md".to_string());
    p.todos.push(todo("done old", true, 1, 0));
    p.todos.push(todo("open old", false, 2, 0));
    p.todos.push(todo("done new", true, 5, 0));
    p.todos.push(todo("open new", false, 3, 500));
    p.todos.push(todo("open newer", false, 3, 900));
    p.sort_todos();
    assert_eq!(titles(&p), vec!["open newer", "open new", "open old", "done new", "done old"]);
}

#[test]
fn sort_is_stable_for_equal_ranks() {
    let mut p = Project::new("p".to_string(), "p.md".to_string());
    p.todos.push(todo("first", false, 7, 0));
    p.todos.push(todo("done", true, 7, 0));
    p.todos.push(todo("second", false, 7, 0));
    p.todos.push(todo("third", false, 7, 0));
    p.sort_todos();
    assert_eq!(titles(&p), vec!["first", "second", "third", "done"]);
    let before = titles(&p);
    p.sort_todos();
    assert_eq!(titles(&p), before);
}

#[test]
fn counts() {
    let mut p = Project::new("p".to_string(), "p.md".to_string());
    assert_eq!(p.completed_count(), 0);
    assert_eq!(p.total_count(), 0);
    p.todos.push(todo("a", true, 1, 0));
    p.todos.push(todo("b", false, 1, 0));
    p.todos.push(todo("c", true, 1, 0));
    assert_eq!(p.completed_count(), 2);
    assert_eq!(p.total_count(), 3);
}

#[test]
fn add_todo_sorts() {
    let mut p = Project::new("p".to_string(), "p.md".to_string());
    p.add_todo(todo("done", true, 1, 0));
    p.add_todo(Todo::made_at("later".to_string(), 2, (9, 0)));
    p.add_todo(Todo::made_at("earlier".to_string(), 3, (4, 0)));
    assert_eq!(titles(&p), vec!["later", "earlier", "done"]);
}

#[test]
fn new_todo_is_open_and_dated() {
    let t = Todo::new("x".to_string(), 4).unwrap();
    assert_eq!(t.title, "x");
    assert!(!t.completed);
    assert_eq!(t.line_num, 4);
    assert!(t.created_at.0 > 1_600_000_000);
    assert!(t.created_at.1 < 1_000_000_000);
}

#[test]
fn precedes_orders_by_state_then_time() {
    assert!(todo_precedes(&todo("a", false, 1, 0), &todo("b", true, 9, 0)));
    assert!(!todo_precedes(&todo("a", true, 9, 0), &todo("b", false, 1, 0)));
    assert!(todo_precedes(&todo("a", false, 9, 0), &todo("b", false, 1, 0)));
    assert!(todo_precedes(&todo("a", false, 1, 5), &todo("b", false, 1, 5)));
    assert!(!todo_precedes(&todo("a", false, 1, 4), &todo("b", false, 1, 5)));
}

#[test]
fn app_data_starts_empty() {
    let d = AppData::new();
    assert!(d.projects.is_empty());
    assert_eq!(d.current_project, 0);
    let e = AppData::default();
    assert!(e.projects.is_empty());
    assert_eq!(e.current_project, 0);
}
