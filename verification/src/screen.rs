//! What each screen shows: rows of text pieces, each piece with a tone that
//! the terminal front end turns into colours.

use vstd::prelude::*;
use crate::models::{count_completed, Project, ProjectModel, TodoModel};
use crate::text::{decimal_nat, push_decimal_u64, string_from_chars, chars_of, extend_chars};
use crate::ui::{current_project, has_current, App, AppModel};

verus! {

/// How a piece of text is shown.
#[derive(Debug, Clone, Copy, PartialEq, Eq, Structural)]
pub enum Tone {
    /// The terminal's own style.
    Plain,
    /// Greyed out: hints and counters.
    Dim,
    /// Highlighted in bold: titles and the selected item.
    Accent,
    /// Shown as finished: a done todo, struck through.
    Done,
    /// A warning in bold: the question before a removal.
    Alert,
}

/// A piece of text and its tone.
#[derive(Debug)]
pub struct Piece {
    pub text: String,
    pub tone: Tone,
}

/// A piece as mathematical values.
pub type PieceModel = (Seq<char>, Tone);

impl View for Piece {
    type V = PieceModel;

    open spec fn view(&self) -> PieceModel {
        (self.text@, self.tone)
    }
}

/// The model of a row of pieces.
pub open spec fn row_model(r: Seq<Piece>) -> Seq<PieceModel> {
    r.map_values(|p: Piece| p@)
}

/// The model of a list of rows.
pub open spec fn rows_model(v: Seq<Vec<Piece>>) -> Seq<Seq<PieceModel>> {
    v.map_values(|r: Vec<Piece>| row_model(r@))
}

/// The cursor mark in front of an item.
pub open spec fn mark(selected: bool) -> Seq<char> {
    if selected {
        seq!['▸', ' ']
    } else {
        seq![' ', ' ']
    }
}

/// The box in front of a todo.
pub open spec fn check(done: bool) -> char {
    if done {
        '✓'
    } else {
        '○'
    }
}

/// All of a project's todos are done, and it has some.
pub open spec fn project_done(p: ProjectModel) -> bool {
    count_completed(p.todos) == p.todos.len() && p.todos.len() > 0
}

/// The tone of an item: highlighted when selected.
pub open spec fn selected_tone(selected: bool) -> Tone {
    if selected {
        Tone::Accent
    } else {
        Tone::Plain
    }
}

/// A project in the sidebar: mark, box, name, and how many of its todos are
/// done out of how many.
pub open spec fn sidebar_row(p: ProjectModel, selected: bool) -> Seq<PieceModel> {
    let tone = selected_tone(selected);
    seq![
        (mark(selected), tone),
        (seq![check(project_done(p)), ' '], tone),
        (p.name, tone),
        (seq![' '] + decimal_nat(count_completed(p.todos)) + seq!['/'] + decimal_nat(p.todos.len()), Tone::Dim),
    ]
}

/// The sidebar: one row per project, the one under the cursor highlighted.
pub open spec fn sidebar_spec(m: AppModel) -> Seq<Seq<PieceModel>> {
    if m.projects.len() == 0 {
        seq![seq![("  No projects"@, Tone::Dim)]]
    } else {
        Seq::new(m.projects.len(), |i: int| sidebar_row(m.projects[i], i == m.cursor))
    }
}

/// A todo in the preview beside the sidebar.
pub open spec fn preview_row(t: TodoModel) -> Seq<PieceModel> {
    seq![
        (seq![' ', ' ', check(t.completed), ' '] + t.title, if t.completed {
            Tone::Done
        } else {
            Tone::Plain
        }),
    ]
}

/// The todos of a project in the preview.
pub open spec fn preview_rows(p: ProjectModel) -> Seq<Seq<PieceModel>> {
    if p.todos.len() == 0 {
        seq![seq![("  No todos yet. Press 'n' to create one!"@, Tone::Dim)]]
    } else {
        Seq::new(p.todos.len(), |i: int| preview_row(p.todos[i]))
    }
}

/// The preview of the project under the cursor: its title and its todos.
pub open spec fn preview_spec(m: AppModel) -> Option<(Seq<char>, Seq<Seq<PieceModel>>)> {
    if m.projects.len() > 0 && m.cursor < m.projects.len() {
        let p = m.projects[m.cursor as int];
        Some((seq![' '] + p.name, preview_rows(p)))
    } else {
        None
    }
}

/// A todo on the screen of the open project.
pub open spec fn todo_row(t: TodoModel, selected: bool) -> Seq<PieceModel> {
    seq![
        (mark(selected) + seq![check(t.completed), ' '] + t.title, if t.completed {
            Tone::Done
        } else {
            selected_tone(selected)
        }),
    ]
}

/// The todos of the open project, the one under the cursor highlighted.
pub open spec fn todo_rows_spec(m: AppModel) -> Seq<Seq<PieceModel>> {
    let p = current_project(m);
    if p.todos.len() == 0 {
        seq![seq![("No todos yet. Press 'n' to create one!"@, Tone::Dim)]]
    } else {
        Seq::new(p.todos.len(), |i: int| todo_row(p.todos[i], i == m.cursor))
    }
}

fn lit(text: &str, tone: Tone) -> (p: Piece)
    ensures
        p@ == (text@, tone),
{
    Piece { text: String::from_str(text), tone }
}

fn chars_piece(text: &Vec<char>, tone: Tone) -> (p: Piece)
    ensures
        p@ == (text@, tone),
{
    Piece { text: string_from_chars(text.as_slice()), tone }
}

fn single(p: Piece) -> (r: Vec<Piece>)
    ensures
        row_model(r@) == seq![p@],
{
    let mut r: Vec<Piece> = Vec::new();
    let ghost pv = p@;
    r.push(p);
    assert(row_model(r@) =~= seq![pv]);
    r
}

fn check_char(done: bool) -> (c: char)
    ensures
        c == check(done),
{
    if done {
        '✓'
    } else {
        '○'
    }
}

fn push_mark(out: &mut Vec<char>, selected: bool)
    ensures
        final(out)@ == old(out)@ + mark(selected),
{
    if selected {
        out.push('▸');
    } else {
        out.push(' ');
    }
    out.push(' ');
    assert(out@ =~= old(out)@ + mark(selected));
}

fn sidebar_row_of(p: &Project, selected: bool) -> (r: Vec<Piece>)
    ensures
        row_model(r@) == sidebar_row(p@, selected),
{
    let tone = if selected { Tone::Accent } else { Tone::Plain };
    let done = p.completed_count();
    let total = p.total_count();
    let mut m: Vec<char> = Vec::new();
    push_mark(&mut m, selected);
    let mut b: Vec<char> = Vec::new();
    b.push(check_char(done == total && total > 0));
    b.push(' ');
    let mut c: Vec<char> = Vec::new();
    c.push(' ');
    push_decimal_u64(&mut c, done as u64);
    c.push('/');
    push_decimal_u64(&mut c, total as u64);
    let mut r: Vec<Piece> = Vec::new();
    r.push(chars_piece(&m, tone));
    r.push(chars_piece(&b, tone));
    r.push(Piece { text: p.name.clone(), tone });
    r.push(chars_piece(&c, Tone::Dim));
    proof {
        assert(m@ =~= mark(selected));
        assert(b@ =~= seq![check(project_done(p@)), ' ']);
        assert(c@ =~= seq![' '] + decimal_nat(count_completed(p@.todos)) + seq!['/'] + decimal_nat(
            p@.todos.len(),
        ));
        assert(row_model(r@) =~= sidebar_row(p@, selected));
    }
    r
}

fn preview_row_of(t: &crate::models::Todo) -> (r: Vec<Piece>)
    ensures
        row_model(r@) == preview_row(t@),
{
    let mut v: Vec<char> = Vec::new();
    v.push(' ');
    v.push(' ');
    v.push(check_char(t.completed));
    v.push(' ');
    let title = chars_of(t.title.as_str());
    extend_chars(&mut v, title.as_slice());
    let tone = if t.completed { Tone::Done } else { Tone::Plain };
    assert(v@ =~= seq![' ', ' ', check(t.completed), ' '] + t.title@);
    single(chars_piece(&v, tone))
}

fn todo_row_of(t: &crate::models::Todo, selected: bool) -> (r: Vec<Piece>)
    ensures
        row_model(r@) == todo_row(t@, selected),
{
    let mut v: Vec<char> = Vec::new();
    push_mark(&mut v, selected);
    v.push(check_char(t.completed));
    v.push(' ');
    let title = chars_of(t.title.as_str());
    extend_chars(&mut v, title.as_slice());
    let tone = if t.completed {
        Tone::Done
    } else if selected {
        Tone::Accent
    } else {
        Tone::Plain
    };
    assert(v@ =~= mark(selected) + seq![check(t.completed), ' '] + t.title@);
    single(chars_piece(&v, tone))
}

fn preview_rows_of(p: &Project) -> (rows: Vec<Vec<Piece>>)
    ensures
        rows_model(rows@) == preview_rows(p@),
{
    let mut rows: Vec<Vec<Piece>> = Vec::new();
    if p.todos.len() == 0 {
        rows.push(single(lit("  No todos yet. Press 'n' to create one!", Tone::Dim)));
        assert(rows_model(rows@) =~= preview_rows(p@));
        return rows;
    }
    for i in 0..p.todos.len()
        invariant
            rows_model(rows@) == preview_rows(p@).take(i as int),
            rows@.len() == i,
            p.todos@.len() > 0,
    {
        let ghost before = rows@;
        rows.push(preview_row_of(&p.todos[i]));
        assert(preview_rows(p@)[i as int] == preview_row(p.todos@[i as int]@));
        assert forall|k: int| 0 <= k < i implies rows_model(rows@)[k] == rows_model(before)[k] by {
            assert(rows@[k] == before[k]);
        }
        assert(rows_model(rows@) =~= preview_rows(p@).take(i + 1));
    }
    assert(preview_rows(p@).take(p.todos@.len() as int) =~= preview_rows(p@));
    rows
}


/// The help screen: the keys of each screen.
pub open spec fn help_spec() -> Seq<Seq<PieceModel>> {
    seq![
        seq![(" Donut - Keyboard Shortcuts"@, Tone::Accent)],
        seq![(""@, Tone::Plain)],
        seq![("Project View (Sidebar):"@, Tone::Plain)],
        seq![("  ↑/↓ or j/k  - Navigate projects"@, Tone::Plain)],
        seq![("  Tab/Enter   - View project todos"@, Tone::Plain)],
        seq![("  n           - New project"@, Tone::Plain)],
        seq![("  d           - Delete project"@, Tone::Plain)],
        seq![("  r           - Rename project"@, Tone::Plain)],
        seq![("  ?           - Toggle help"@, Tone::Plain)],
        seq![("  q/Esc       - Quit"@, Tone::Plain)],
        seq![(""@, Tone::Plain)],
        seq![("Todo View:"@, Tone::Plain)],
        seq![("  ↑/↓ or j/k  - Navigate"@, Tone::Plain)],
        seq![("  Space       - Toggle completion"@, Tone::Plain)],
        seq![("  n           - New todo"@, Tone::Plain)],
        seq![("  e           - Edit todo"@, Tone::Plain)],
        seq![("  d           - Delete todo"@, Tone::Plain)],
        seq![("  Backspace   - Back to projects"@, Tone::Plain)],
        seq![("  ?           - Toggle help"@, Tone::Plain)],
        seq![("  q           - Quit"@, Tone::Plain)],
        seq![(""@, Tone::Plain)],
        seq![("Press ? or Esc to close"@, Tone::Dim)]
    ]
}

/// The rows of the help screen.
pub fn help_rows() -> (rows: Vec<Vec<Piece>>)
    ensures
        rows_model(rows@) == help_spec(),
{
    let mut rows: Vec<Vec<Piece>> = Vec::new();
    rows.push(single(lit(" Donut - Keyboard Shortcuts", Tone::Accent)));
    rows.push(single(lit("", Tone::Plain)));
    rows.push(single(lit("Project View (Sidebar):", Tone::Plain)));
    rows.push(single(lit("  ↑/↓ or j/k  - Navigate projects", Tone::Plain)));
    rows.push(single(lit("  Tab/Enter   - View project todos", Tone::Plain)));
    rows.push(single(lit("  n           - New project", Tone::Plain)));
    rows.push(single(lit("  d           - Delete project", Tone::Plain)));
    rows.push(single(lit("  r           - Rename project", Tone::Plain)));
    rows.push(single(lit("  ?           - Toggle help", Tone::Plain)));
    rows.push(single(lit("  q/Esc       - Quit", Tone::Plain)));
    rows.push(single(lit("", Tone::Plain)));
    rows.push(single(lit("Todo View:", Tone::Plain)));
    rows.push(single(lit("  ↑/↓ or j/k  - Navigate", Tone::Plain)));
    rows.push(single(lit("  Space       - Toggle completion", Tone::Plain)));
    rows.push(single(lit("  n           - New todo", Tone::Plain)));
    rows.push(single(lit("  e           - Edit todo", Tone::Plain)));
    rows.push(single(lit("  d           - Delete todo", Tone::Plain)));
    rows.push(single(lit("  Backspace   - Back to projects", Tone::Plain)));
    rows.push(single(lit("  ?           - Toggle help", Tone::Plain)));
    rows.push(single(lit("  q           - Quit", Tone::Plain)));
    rows.push(single(lit("", Tone::Plain)));
    rows.push(single(lit("Press ? or Esc to close", Tone::Dim)));
    assert(rows_model(rows@) =~= help_spec());
    rows
}

/// The name of the application over the sidebar.
pub fn logo_rows() -> (rows: Vec<Vec<Piece>>)
    ensures
        rows_model(rows@) == seq![seq![("  DONUT"@, Tone::Accent)], seq![("  Todo Manager"@, Tone::Dim)]],
{
    let mut rows: Vec<Vec<Piece>> = Vec::new();
    rows.push(single(lit("  DONUT", Tone::Accent)));
    rows.push(single(lit("  Todo Manager", Tone::Dim)));
    assert(rows_model(rows@) =~= seq![seq![("  DONUT"@, Tone::Accent)], seq![("  Todo Manager"@, Tone::Dim)]]);
    rows
}

/// What the preview shows when the cursor is on no project.
pub fn empty_preview_rows() -> (rows: Vec<Vec<Piece>>)
    ensures
        rows_model(rows@) == seq![seq![(""@, Tone::Plain)], seq![("  Select a project to view todos"@, Tone::Dim)]],
{
    let mut rows: Vec<Vec<Piece>> = Vec::new();
    rows.push(single(lit("", Tone::Plain)));
    rows.push(single(lit("  Select a project to view todos", Tone::Dim)));
    assert(rows_model(rows@) =~= seq![seq![(""@, Tone::Plain)], seq![("  Select a project to view todos"@, Tone::Dim)]]);
    rows
}

/// The key hint under the sidebar.
pub fn sidebar_hint() -> (p: Piece)
    ensures
        p@ == ("n: new | d: del"@, Tone::Dim),
{
    lit("n: new | d: del", Tone::Dim)
}

/// The key hint at the foot of the list of projects.
pub fn project_view_hint() -> (p: Piece)
    ensures
        p@ == (" Tab: todos | ?: help | q: quit"@, Tone::Dim),
{
    lit(" Tab: todos | ?: help | q: quit", Tone::Dim)
}

/// The key hint at the foot of the screen of a project.
pub fn todo_view_hint() -> (p: Piece)
    ensures
        p@ == ("n: new | e: edit | d: delete | space: toggle | ?: help | backspace: back"@, Tone::Dim),
{
    lit("n: new | e: edit | d: delete | space: toggle | ?: help | backspace: back", Tone::Dim)
}

impl App {
    /// The sidebar of the list of projects.
    pub fn sidebar_rows(&self) -> (rows: Vec<Vec<Piece>>)
        ensures
            rows_model(rows@) == sidebar_spec(self@),
    {
        let mut rows: Vec<Vec<Piece>> = Vec::new();
        let n = self.data.projects.len();
        if n == 0 {
            rows.push(single(lit("  No projects", Tone::Dim)));
            assert(rows_model(rows@) =~= sidebar_spec(self@));
            return rows;
        }
        for i in 0..n
            invariant
                n == self.data.projects@.len(),
                n > 0,
                rows_model(rows@) == sidebar_spec(self@).take(i as int),
                rows@.len() == i,
        {
            let ghost before = rows@;
            rows.push(sidebar_row_of(&self.data.projects[i], i == self.cursor));
            assert(sidebar_spec(self@)[i as int] == sidebar_row(self.data.projects@[i as int]@, i == self.cursor));
            assert forall|k: int| 0 <= k < i implies rows_model(rows@)[k] == rows_model(before)[k] by {
                assert(rows@[k] == before[k]);
            }
            assert(rows_model(rows@) =~= sidebar_spec(self@).take(i + 1));
        }
        assert(sidebar_spec(self@).take(n as int) =~= sidebar_spec(self@));
        rows
    }

    /// The title and todos of the project under the cursor, if the cursor is
    /// on one.
    pub fn preview(&self) -> (r: Option<(String, Vec<Vec<Piece>>)>)
        ensures
            match r {
                Some((title, rows)) => preview_spec(self@) == Some((title@, rows_model(rows@))),
                None => preview_spec(self@) is None,
            },
    {
        let n = self.data.projects.len();
        if n > 0 && self.cursor < n {
            let p = &self.data.projects[self.cursor];
            let mut title = String::from_str(" ");
            title.append(p.name.as_str());
            proof {
                reveal_strlit(" ");
                assert(" "@ =~= seq![' ']);
            }
            Some((title, preview_rows_of(p)))
        } else {
            None
        }
    }

    /// The title of the open project.
    pub fn todo_view_title(&self) -> (t: String)
        requires
            has_current(self@),
        ensures
            t@ == seq![' '] + current_project(self@).name,
    {
        let mut title = String::from_str(" ");
        title.append(self.data.projects[self.data.current_project].name.as_str());
        proof {
            reveal_strlit(" ");
            assert(" "@ =~= seq![' ']);
        }
        title
    }

    /// The todos of the open project.
    pub fn todo_rows(&self) -> (rows: Vec<Vec<Piece>>)
        requires
            has_current(self@),
        ensures
            rows_model(rows@) == todo_rows_spec(self@),
    {
        let p = &self.data.projects[self.data.current_project];
        let mut rows: Vec<Vec<Piece>> = Vec::new();
        let n = p.todos.len();
        if n == 0 {
            rows.push(single(lit("No todos yet. Press 'n' to create one!", Tone::Dim)));
            assert(rows_model(rows@) =~= todo_rows_spec(self@));
            return rows;
        }
        for i in 0..n
            invariant
                n == p.todos@.len(),
                n > 0,
                p@ == current_project(self@),
                rows_model(rows@) == todo_rows_spec(self@).take(i as int),
                rows@.len() == i,
        {
            let ghost before = rows@;
            rows.push(todo_row_of(&p.todos[i], i == self.cursor));
            assert(todo_rows_spec(self@)[i as int] == todo_row(p.todos@[i as int]@, i == self.cursor));
            assert forall|k: int| 0 <= k < i implies rows_model(rows@)[k] == rows_model(before)[k] by {
                assert(rows@[k] == before[k]);
            }
            assert(rows_model(rows@) =~= todo_rows_spec(self@).take(i + 1));
        }
        assert(todo_rows_spec(self@).take(n as int) =~= todo_rows_spec(self@));
        rows
    }

    fn prompt(&self, label: &str) -> (s: String)
        ensures
            s@ == label@ + self.input@ + seq!['▌'],
    {
        let mut v = chars_of(label);
        let i = chars_of(self.input.as_str());
        extend_chars(&mut v, i.as_slice());
        v.push('▌');
        assert(v@ =~= label@ + self.input@ + seq!['▌']);
        string_from_chars(v.as_slice())
    }

    /// The line of the screen where a new project is named.
    pub fn create_project_prompt(&self) -> (s: String)
        ensures
            s@ == "Create New Project: "@ + self.input@ + seq!['▌'],
    {
        self.prompt("Create New Project: ")
    }

    /// The line of the screen where a new todo is named.
    pub fn create_todo_prompt(&self) -> (s: String)
        ensures
            s@ == "Create New Todo: "@ + self.input@ + seq!['▌'],
    {
        self.prompt("Create New Todo: ")
    }

    /// The line of the screen where the project under the cursor is renamed.
    pub fn rename_project_prompt(&self) -> (s: String)
        ensures
            s@ == "Rename Project: "@ + self.input@ + seq!['▌'],
    {
        self.prompt("Rename Project: ")
    }

    /// The line of the screen where a todo's title is edited.
    pub fn edit_todo_prompt(&self) -> (s: String)
        ensures
            s@ == "Edit Todo: "@ + self.input@ + seq!['▌'],
    {
        self.prompt("Edit Todo: ")
    }

    /// The question before a project is removed, naming the project under the
    /// cursor (or none, if the cursor is past the list).
    pub fn confirm_delete_text(&self) -> (s: String)
        ensures
            s@ == "Delete '"@ + (if self@.cursor < self@.projects.len() {
                self@.projects[self@.cursor as int].name
            } else {
                Seq::empty()
            }) + "'? (y/n)"@,
    {
        let mut s = String::from_str("Delete '");
        if self.cursor < self.data.projects.len() {
            s.append(self.data.projects[self.cursor].name.as_str());
        }
        s.append("'? (y/n)");
        assert(s@ =~= "Delete '"@ + (if self@.cursor < self@.projects.len() {
            self@.projects[self@.cursor as int].name
        } else {
            Seq::empty()
        }) + "'? (y/n)"@);
        s
    }
}


/// The sidebar has one row per project, showing that project's name; the
/// row under the cursor, and no other, starts with the mark `▸ ` and is
/// highlighted; the counter at the end of each row is that project's number
/// of done todos over its number of todos.
pub proof fn lemma_sidebar_marks_cursor(m: AppModel)
    requires
        m.projects.len() > 0,
    ensures
        sidebar_spec(m).len() == m.projects.len(),
        forall|i: int|
            0 <= i < m.projects.len() ==> {
                let row = #[trigger] sidebar_spec(m)[i];
                &&& row.len() == 4
                &&& (row[0].0 == seq!['▸', ' ']) <==> i == m.cursor
                &&& (row[0].1 == Tone::Accent) <==> i == m.cursor
                &&& (row[2].1 == Tone::Accent) <==> i == m.cursor
                &&& row[2].0 == m.projects[i].name
                &&& row[3].0 == seq![' '] + decimal_nat(count_completed(m.projects[i].todos))
                    + seq!['/'] + decimal_nat(m.projects[i].todos.len())
            },
{
    assert forall|i: int| 0 <= i < m.projects.len() implies {
        let row = #[trigger] sidebar_spec(m)[i];
        &&& row.len() == 4
        &&& (row[0].0 == seq!['▸', ' ']) <==> i == m.cursor
        &&& (row[0].1 == Tone::Accent) <==> i == m.cursor
        &&& (row[2].1 == Tone::Accent) <==> i == m.cursor
        &&& row[2].0 == m.projects[i].name
        &&& row[3].0 == seq![' '] + decimal_nat(count_completed(m.projects[i].todos))
            + seq!['/'] + decimal_nat(m.projects[i].todos.len())
    } by {
        let row = sidebar_spec(m)[i];
        assert(row == sidebar_row(m.projects[i], i == m.cursor));
        if i != m.cursor {
            assert(seq![' ', ' '][0] != seq!['▸', ' '][0]);
        }
    }
}


/// The preview shows the project under the cursor, and only when the cursor
/// is on one: its name as the title, and one row per todo, in the project's
/// order, with the todo's title after a four-character lead, struck through
/// exactly when the todo is done.
pub proof fn lemma_preview_shows_cursor_project(m: AppModel)
    ensures
        (preview_spec(m) is Some) <==> m.cursor < m.projects.len(),
        preview_spec(m) matches Some((title, rows)) ==> {
            let p = m.projects[m.cursor as int];
            &&& title == seq![' '] + p.name
            &&& p.todos.len() > 0 ==> rows.len() == p.todos.len()
            &&& forall|i: int|
                0 <= i < p.todos.len() ==> {
                    &&& (#[trigger] rows[i]).len() == 1
                    &&& rows[i][0].0.skip(4) == p.todos[i].title
                    &&& (rows[i][0].1 == Tone::Done) <==> p.todos[i].completed
                }
        },
{
    if let Some((title, rows)) = preview_spec(m) {
        let p = m.projects[m.cursor as int];
        assert forall|i: int| 0 <= i < p.todos.len() implies {
            &&& (#[trigger] rows[i]).len() == 1
            &&& rows[i][0].0.skip(4) == p.todos[i].title
            &&& (rows[i][0].1 == Tone::Done) <==> p.todos[i].completed
        } by {
            assert(rows[i] == preview_row(p.todos[i]));
            assert(rows[i][0].0.skip(4) =~= p.todos[i].title);
        }
    }
}

} // verus!
