use donut::models::{Project, Todo};
use donut::markdown::parse_document;
use donut::names::clean_lowercased;
use donut::storage::{trim_md_suffix, Storage};

#[test]
fn test_sanitize_filename() {
    assert_eq!(Storage::sanitize_filename("My Project").as_deref(), Some("my-project.md"));
    assert_eq!(Storage::sanitize_filename("Test!!!").as_deref(), Some("test.md"));
    assert_eq!(
        Storage::sanitize_filename("Hello World 123").as_deref(),
        Some("hello-world-123.md")
    );
}

#[test]
fn sanitize_collapses_and_trims_dashes() {
    assert_eq!(Storage::sanitize_filename("--a__b--c  ").as_deref(), Some("a-b-c.md"));
    assert_eq!(Storage::sanitize_filename("Ünïcode Wörds").as_deref(), Some("ünïcode-wörds.md"));
    assert_eq!(Storage::sanitize_filename("../etc/passwd").as_deref(), Some("etc-passwd.md"));
    assert_eq!(Storage::sanitize_filename(".hidden").as_deref(), Some("hidden.md"));
}

#[test]
fn sanitize_without_stem_uses_the_clock() {
    assert_eq!(Storage::sanitize_filename_at("!!!", 42), "project-42");
    assert_eq!(Storage::sanitize_filename_at("", -7), "project--7");
    assert_eq!(Storage::sanitize_filename_at("ok", 42), "ok.md");
    let f = Storage::sanitize_filename("?? ..").unwrap();
    assert!(f.starts_with("project-"));
    let digits = &f["project-".len()..];
    assert!(!digits.is_empty());
    assert!(digits.chars().all(|c| c.is_ascii_digit()));
    assert!(!f.ends_with(".md"));
}

#[test]
fn trim_md_removes_every_trailing_suffix() {
    assert_eq!(trim_md_suffix("notes.md"), "notes");
    assert_eq!(trim_md_suffix("notes.md.md"), "notes");
    assert_eq!(trim_md_suffix("notes.txt"), "notes.txt");
    assert_eq!(trim_md_suffix(".md"), "");
}

#[test]
fn project_files_have_the_md_extension() {
    assert!(Storage::is_project_file("work.md"));
    assert!(Storage::is_project_file("a..md"));
    assert!(!Storage::is_project_file(".md"));
    assert!(!Storage::is_project_file("md"));
    assert!(!Storage::is_project_file("work.mdx"));
    assert!(!Storage::is_project_file("work.txt"));
}

#[test]
fn project_path_joins_the_directory() {
    let s = Storage::new(b"/home/u/.donut".to_vec());
    assert_eq!(s.project_path(b"work.md"), b"/home/u/.donut/work.md".to_vec());
    assert_eq!(s.dir(), b"/home/u/.donut");
    let t = Storage::new(b"/data/".to_vec());
    assert_eq!(t.project_path(b"a.md"), b"/data/a.md".to_vec());
    assert_eq!(t.project_path(b"/elsewhere/b.md"), b"/elsewhere/b.md".to_vec());
    let u = Storage::new(vec![b'/', 0xff, b'x']);
    assert_eq!(u.project_path(b"a.md"), vec![b'/', 0xff, b'x', b'/', b'a', b'.', b'm', b'd']);
}

#[test]
fn parse_reads_heading_and_checkboxes() {
    let text = "# Groceries\n\n- [ ] milk\n- [x] bread\nnot a todo\n-  [x]   eggs  \n- [X] upper\n- [] empty\n";
    let d = parse_document(text);
    assert_eq!(d.title.as_deref(), Some("Groceries"));
    let items: Vec<(String, bool, usize)> =
        d.items.iter().map(|i| (i.title.clone(), i.completed, i.line_num)).collect();
    assert_eq!(
        items,
        vec![
            ("milk".to_string(), false, 3),
            ("bread".to_string(), true, 4),
            ("eggs  ".to_string(), true, 6),
        ]
    );
}

#[test]
fn parse_handles_line_endings_and_whitespace() {
    let d = parse_document("#\tFirst\r\n# Second\r\n- [x]\tdone\r\n- [ ] last");
    assert_eq!(d.title.as_deref(), Some("Second"));
    assert_eq!(d.items.len(), 2);
    assert_eq!(d.items[0].title, "done");
    assert!(d.items[0].completed);
    assert_eq!(d.items[1].title, "last");
    assert_eq!(d.items[1].line_num, 4);
    // a heading of only whitespace keeps its last character
    let e = parse_document("#   ");
    assert_eq!(e.title.as_deref(), Some(" "));
    // one whitespace character leaves nothing to capture
    let f = parse_document("# ");
    assert_eq!(f.title, None);
    // a carriage return without a line feed stays in the line
    let g = parse_document("# A\rB");
    assert_eq!(g.title.as_deref(), Some("A\rB"));
    assert!(parse_document("").items.is_empty());
    assert_eq!(parse_document("#No space").title, None);
}

fn todo(title: &str, done: bool, at: i64) -> Todo {
    Todo { title: title.to_string(), completed: done, line_num: 0, created_at: (at, 0) }
}

#[test]
fn render_writes_heading_and_checkboxes() {
    let mut p = Project::new("Work".to_string(), "work.md".to_string());
    p.todos.push(todo("mail", false, 1));
    p.todos.push(todo("call", true, 2));
    assert_eq!(Storage::project_text(&p), "# Work\n\n- [ ] mail\n- [x] call\n");
}

#[test]
fn read_after_write_gives_back_the_project() {
    let mut p = Project::new("Home things".to_string(), "home.md".to_string());
    p.todos.push(todo("sweep # floor", false, 1));
    p.todos.push(todo("- [x] odd", true, 2));
    p.todos.push(todo("wash", false, 3));
    let d = parse_document(&Storage::project_text(&p));
    assert_eq!(d.title.as_deref(), Some("Home things"));
    assert_eq!(d.items.len(), 3);
    for (i, t) in p.todos.iter().enumerate() {
        assert_eq!(d.items[i].title, t.title);
        assert_eq!(d.items[i].completed, t.completed);
        assert_eq!(d.items[i].line_num, i + 3);
    }
}

#[test]
fn load_project_names_and_orders() {
    let p = Storage::load_project("list.md.md", "- [x] a\n- [ ] b\n- [ ] c\n").unwrap();
    assert_eq!(p.name, "list");
    assert_eq!(p.filename, "list.md.md");
    assert_eq!(p.todos.len(), 3);
    // open todos come first
    assert!(!p.todos[0].completed);
    assert!(!p.todos[1].completed);
    assert!(p.todos[2].completed);
    assert_eq!(p.todos[2].title, "a");
    assert_eq!(p.todos[2].line_num, 1);
    let q = Storage::load_project("x.md", "# Named\n").unwrap();
    assert_eq!(q.name, "Named");
    assert!(q.todos.is_empty());
}

#[test]
fn from_document_uses_the_given_times() {
    let d = parse_document("- [ ] old\n- [ ] new\n- [x] done\n");
    let p = Project::from_document("f.md".to_string(), d, &[(10, 0), (20, 0), (30, 0)]);
    let titles: Vec<&str> = p.todos.iter().map(|t| t.title.as_str()).collect();
    assert_eq!(titles, vec!["new", "old", "done"]);
    assert_eq!(p.name, "f");
}

#[test]
fn clean_lowercased_tidies_dashes() {
    let s: String = clean_lowercased("my project").into_iter().collect();
    assert_eq!(s, "my-project");
    let s: String = clean_lowercased("--a//b..c--").into_iter().collect();
    assert_eq!(s, "a-b-c");
    let s: String = clean_lowercased("MiXed 9").into_iter().collect();
    assert_eq!(s, "MiXed-9");
    assert!(clean_lowercased("\\/.-").is_empty());
}

#[test]
fn clean_lowercased_is_its_own_stem() {
    for text in ["--a//b..c--", "my project", "x", "", "a - - b", "wörds & more"] {
        let once: String = clean_lowercased(text).into_iter().collect();
        let twice: String = clean_lowercased(&once).into_iter().collect();
        assert_eq!(once, twice);
    }
}

#[test]
fn separator_runs_give_the_same_stem() {
    let a: String = clean_lowercased("my project").into_iter().collect();
    let b: String = clean_lowercased("my -_/. project").into_iter().collect();
    let c: String = clean_lowercased("my!project").into_iter().collect();
    assert_eq!(a, "my-project");
    assert_eq!(a, b);
    assert_eq!(a, c);
    let d: String = clean_lowercased("??tail").into_iter().collect();
    let e: String = clean_lowercased("!tail").into_iter().collect();
    assert_eq!(d, "tail");
    assert_eq!(d, e);
}

#[test]
fn sanitizing_a_stem_gives_the_same_name() {
    for name in ["My Project", "Test!!!", "Hello World 123", "--A__b--C  ", "x"] {
        let r = Storage::sanitize_filename(name).unwrap();
        assert!(r.ends_with(".md"));
        let again = Storage::sanitize_filename(&r[..r.len() - 3]).unwrap();
        assert_eq!(again, r);
    }
}

#[test]
fn ascii_separator_runs_give_the_same_name() {
    let a = Storage::sanitize_filename("My  Project").unwrap();
    let b = Storage::sanitize_filename("My_-_/.Project").unwrap();
    let c = Storage::sanitize_filename("My!Project").unwrap();
    assert_eq!(a, "my-project.md");
    assert_eq!(a, b);
    assert_eq!(a, c);
    assert_eq!(Storage::sanitize_filename("!!a!!").as_deref(), Some("a.md"));
}

#[test]
fn load_after_save_gives_back_name_file_titles_and_ticks() {
    let mut p = Project::new("Groceries".to_string(), "groceries.md".to_string());
    p.todos.push(todo("milk", false, 1));
    p.todos.push(todo("bread", true, 2));
    p.todos.push(todo("eggs", false, 3));
    let text = Storage::project_text(&p);
    let q = Storage::load_project(&p.filename, &text).unwrap();
    assert_eq!(q.name, p.name);
    assert_eq!(q.filename, p.filename);
    let mut before: Vec<(String, bool)> =
        p.todos.iter().map(|t| (t.title.clone(), t.completed)).collect();
    let mut after: Vec<(String, bool)> =
        q.todos.iter().map(|t| (t.title.clone(), t.completed)).collect();
    before.sort();
    after.sort();
    assert_eq!(before, after);
    // open todos come before done ones
    assert!(q.todos.last().unwrap().completed);
}
