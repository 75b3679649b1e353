//! The key handling of the todo list: which screen is shown, where the cursor
//! stands, what is being typed, and what each key does to them. Every key
//! yields at most one effect on the files, which the caller carries out.

use vstd::prelude::*;
use crate::models::{
    count_completed, lemma_order_todos_keeps_count, lemma_order_todos_permutes, order_todos, project_models, todo_models, AppData, Project, ProjectModel, Todo, TodoModel,
};
use crate::clock::clock_reading;
use crate::names::{clean_name, sanitized_at};
use crate::storage::Storage;
use crate::text::{pop_char, push_char};

verus! {

/// The screens of the application.
#[derive(Debug, Clone, Copy, PartialEq, Eq, Structural)]
pub enum ViewMode {
    ProjectView,
    TodoView,
    CreateProjectView,
    CreateTodoView,
    EditTodoView,
    ConfirmDeleteProjectView,
    RenameProjectView,
}

/// The keys that the application tells apart.
#[derive(Debug, Clone, Copy, PartialEq, Eq, Structural)]
pub enum KeyCode {
    Char(char),
    Enter,
    Esc,
    Tab,
    Backspace,
    Up,
    Down,
    Other,
}

/// A key press, with whether Control was held.
#[derive(Debug, Clone, Copy, PartialEq, Eq, Structural)]
pub struct Key {
    pub code: KeyCode,
    pub ctrl: bool,
}

/// What a key asks of the project files.
#[derive(Debug)]
pub enum Effect {
    Nothing,
    /// Write the project at this index of the list to its file.
    SaveProject(usize),
    /// Remove the project file with this name.
    DeleteProjectFile(String),
}

/// An effect as mathematical values.
pub enum EffectModel {
    Nothing,
    Save(nat),
    Delete(Seq<char>),
}

impl View for Effect {
    type V = EffectModel;

    open spec fn view(&self) -> EffectModel {
        match self {
            Effect::Nothing => EffectModel::Nothing,
            Effect::SaveProject(i) => EffectModel::Save(*i as nat),
            Effect::DeleteProjectFile(f) => EffectModel::Delete(f@),
        }
    }
}

/// The state of the application.
pub struct App {
    pub data: AppData,
    pub storage: Storage,
    pub view_mode: ViewMode,
    pub cursor: usize,
    pub input: String,
    pub edit_index: Option<usize>,
    pub show_help: bool,
    pub should_quit: bool,
}

/// The state of the application as mathematical values (the storage left
/// out: no key changes it).
#[verifier::ext_equal]
pub struct AppModel {
    pub projects: Seq<ProjectModel>,
    pub current: nat,
    pub view: ViewMode,
    pub cursor: nat,
    pub input: Seq<char>,
    pub edit_index: Option<nat>,
    pub show_help: bool,
    pub should_quit: bool,
}

impl View for App {
    type V = AppModel;

    open spec fn view(&self) -> AppModel {
        AppModel {
            projects: project_models(self.data.projects@),
            current: self.data.current_project as nat,
            view: self.view_mode,
            cursor: self.cursor as nat,
            input: self.input@,
            edit_index: match self.edit_index {
                Some(i) => Some(i as nat),
                None => None,
            },
            show_help: self.show_help,
            should_quit: self.should_quit,
        }
    }
}

/// One less than `n`, but not below zero.
pub open spec fn sat_dec(n: nat) -> nat {
    if n > 0 {
        (n - 1) as nat
    } else {
        0
    }
}

/// Where a cursor goes when the item under it is removed from a list that is
/// now `len` long: it stays, unless it stood on the last item.
pub open spec fn cursor_after_removal(cursor: nat, len: nat) -> nat {
    if cursor >= len && cursor > 0 {
        (cursor - 1) as nat
    } else {
        cursor
    }
}

/// Nothing happens.
pub open spec fn unchanged(m: AppModel) -> (AppModel, EffectModel) {
    (m, EffectModel::Nothing)
}

/// `m` with the project at `i` replaced by `p`.
pub open spec fn with_project(m: AppModel, i: nat, p: ProjectModel) -> AppModel {
    AppModel { projects: m.projects.update(i as int, p), ..m }
}

/// The open project exists.
pub open spec fn has_current(m: AppModel) -> bool {
    m.current < m.projects.len()
}

/// The open project.
pub open spec fn current_project(m: AppModel) -> ProjectModel {
    m.projects[m.current as int]
}

/// A key on the list of projects.
pub open spec fn project_view_step(m: AppModel, k: Key) -> (AppModel, EffectModel) {
    let n = m.projects.len();
    match k.code {
        KeyCode::Char('q') | KeyCode::Esc => unchanged(AppModel { should_quit: true, ..m }),
        KeyCode::Char('?') => unchanged(AppModel { show_help: true, ..m }),
        KeyCode::Char('n') => unchanged(
            AppModel { view: ViewMode::CreateProjectView, input: Seq::empty(), ..m },
        ),
        KeyCode::Char('d') => if n > 0 && m.cursor < n {
            unchanged(AppModel { view: ViewMode::ConfirmDeleteProjectView, ..m })
        } else {
            unchanged(m)
        },
        KeyCode::Up | KeyCode::Char('k') => if m.cursor > 0 {
            unchanged(AppModel { cursor: (m.cursor - 1) as nat, ..m })
        } else {
            unchanged(m)
        },
        KeyCode::Down | KeyCode::Char('j') => if m.cursor < sat_dec(n) {
            unchanged(AppModel { cursor: m.cursor + 1, ..m })
        } else {
            unchanged(m)
        },
        KeyCode::Tab | KeyCode::Enter => if n > 0 && m.cursor < n {
            unchanged(AppModel { current: m.cursor, view: ViewMode::TodoView, cursor: 0, ..m })
        } else {
            unchanged(m)
        },
        KeyCode::Char('r') => if n > 0 && m.cursor < n {
            unchanged(
                AppModel {
                    view: ViewMode::RenameProjectView,
                    input: m.projects[m.cursor as int].name,
                    ..m
                },
            )
        } else {
            unchanged(m)
        },
        KeyCode::Char('c') => if k.ctrl {
            unchanged(AppModel { should_quit: true, ..m })
        } else {
            unchanged(m)
        },
        _ => unchanged(m),
    }
}

/// A key on the todos of the open project.
pub open spec fn todo_view_step(m: AppModel, k: Key) -> (AppModel, EffectModel) {
    let p = current_project(m);
    let n = p.todos.len();
    let on_todo = has_current(m) && m.cursor < n;
    match k.code {
        KeyCode::Char('q') => unchanged(AppModel { should_quit: true, ..m }),
        KeyCode::Char('?') => unchanged(AppModel { show_help: true, ..m }),
        KeyCode::Backspace | KeyCode::Esc => unchanged(
            AppModel { view: ViewMode::ProjectView, cursor: m.current, ..m },
        ),
        KeyCode::Char('n') => unchanged(
            AppModel { view: ViewMode::CreateTodoView, input: Seq::empty(), ..m },
        ),
        KeyCode::Char('e') => if on_todo {
            unchanged(
                AppModel {
                    edit_index: Some(m.cursor),
                    input: p.todos[m.cursor as int].title,
                    view: ViewMode::EditTodoView,
                    ..m
                },
            )
        } else {
            unchanged(m)
        },
        KeyCode::Char('d') => if on_todo {
            let todos = p.todos.remove(m.cursor as int);
            let m2 = with_project(m, m.current, ProjectModel { todos, ..p });
            (
                AppModel { cursor: cursor_after_removal(m.cursor, todos.len()), ..m2 },
                EffectModel::Save(m.current),
            )
        } else {
            unchanged(m)
        },
        KeyCode::Up | KeyCode::Char('k') => if m.cursor > 0 {
            unchanged(AppModel { cursor: (m.cursor - 1) as nat, ..m })
        } else {
            unchanged(m)
        },
        KeyCode::Down | KeyCode::Char('j') => if has_current(m) && m.cursor < sat_dec(n) {
            unchanged(AppModel { cursor: m.cursor + 1, ..m })
        } else {
            unchanged(m)
        },
        KeyCode::Char(' ') => if on_todo {
            let t = p.todos[m.cursor as int];
            let todos = order_todos(
                p.todos.update(m.cursor as int, TodoModel { completed: !t.completed, ..t }),
            );
            (with_project(m, m.current, ProjectModel { todos, ..p }), EffectModel::Save(m.current))
        } else {
            unchanged(m)
        },
        KeyCode::Char('c') => if k.ctrl {
            unchanged(AppModel { should_quit: true, ..m })
        } else {
            unchanged(m)
        },
        _ => unchanged(m),
    }
}

/// Typing: a character is added, Backspace takes the last one off, and
/// Ctrl+C quits.
pub open spec fn typing_step(m: AppModel, k: Key) -> (AppModel, EffectModel) {
    match k.code {
        KeyCode::Char(c) => if c == 'c' && k.ctrl {
            unchanged(AppModel { should_quit: true, ..m })
        } else {
            unchanged(AppModel { input: m.input.push(c), ..m })
        },
        KeyCode::Backspace => if m.input.len() > 0 {
            unchanged(AppModel { input: m.input.drop_last(), ..m })
        } else {
            unchanged(m)
        },
        _ => unchanged(m),
    }
}

/// The file name of a new project called `name`: from its stem, or, when it
/// has none, from the clock's seconds `secs` (none when the clock cannot be
/// read).
pub open spec fn file_name_for(name: Seq<char>, secs: Option<i64>) -> Option<Seq<char>> {
    if clean_name(name).len() > 0 {
        Some(sanitized_at(name, 0))
    } else {
        match secs {
            Some(s) => Some(sanitized_at(name, s)),
            None => None,
        }
    }
}

/// A key while the name of a new project is typed; `secs` is what the clock
/// reads if the name leaves no file name stem. Without a file name, Enter
/// does nothing.
pub open spec fn create_project_step(m: AppModel, k: Key, secs: Option<i64>) -> (AppModel, EffectModel) {
    match k.code {
        KeyCode::Enter => if m.input.len() > 0 {
            if file_name_for(m.input, secs) is None {
                unchanged(m)
            } else {
            let p = ProjectModel {
                name: m.input,
                filename: file_name_for(m.input, secs)->0,
                todos: Seq::empty(),
            };
            let ps = m.projects.push(p);
            (
                AppModel {
                    projects: ps,
                    cursor: sat_dec(ps.len()),
                    view: ViewMode::ProjectView,
                    input: Seq::empty(),
                    ..m
                },
                EffectModel::Save(m.projects.len()),
            )
            }
        } else {
            unchanged(AppModel { view: ViewMode::ProjectView, input: Seq::empty(), ..m })
        },
        KeyCode::Esc => unchanged(AppModel { view: ViewMode::ProjectView, input: Seq::empty(), ..m }),
        _ => typing_step(m, k),
    }
}

/// The line number that a new todo gets: one past the number of todos.
pub open spec fn next_line_num(n: nat) -> nat {
    if n < usize::MAX {
        n + 1
    } else {
        n
    }
}

/// A key while the title of a new todo is typed; the todo is made at the
/// clock's reading `clock`. When the clock cannot be read, Enter does nothing.
pub open spec fn create_todo_step(m: AppModel, k: Key, clock: Option<(i64, u32)>) -> (AppModel, EffectModel) {
    match k.code {
        KeyCode::Enter => if m.input.len() > 0 {
            if has_current(m) && clock is Some {
                let stamp = clock->0;
                let p = current_project(m);
                let t = TodoModel {
                    title: m.input,
                    completed: false,
                    line_num: next_line_num(p.todos.len()),
                    created_at: stamp,
                };
                let m2 = with_project(m, m.current, ProjectModel { todos: order_todos(p.todos.push(t)), ..p });
                (
                    AppModel { cursor: 0, view: ViewMode::TodoView, input: Seq::empty(), ..m2 },
                    EffectModel::Save(m.current),
                )
            } else {
                unchanged(m)
            }
        } else {
            unchanged(AppModel { view: ViewMode::TodoView, input: Seq::empty(), ..m })
        },
        KeyCode::Esc => unchanged(AppModel { view: ViewMode::TodoView, input: Seq::empty(), ..m }),
        _ => typing_step(m, k),
    }
}

/// Leaving the title editor with the cursor on the todo that was edited.
pub open spec fn leave_editor(m: AppModel) -> AppModel {
    AppModel {
        cursor: match m.edit_index {
            Some(i) => i,
            None => m.cursor,
        },
        view: ViewMode::TodoView,
        input: Seq::empty(),
        edit_index: None,
        ..m
    }
}

/// A key while the title of a todo is edited.
pub open spec fn edit_todo_step(m: AppModel, k: Key) -> (AppModel, EffectModel) {
    match k.code {
        KeyCode::Enter => if m.input.len() > 0 {
            let p = current_project(m);
            if has_current(m) && m.edit_index is Some && m.edit_index->0 < p.todos.len() {
                let i = m.edit_index->0;
                let t = p.todos[i as int];
                let todos = p.todos.update(i as int, TodoModel { title: m.input, ..t });
                (
                    leave_editor(with_project(m, m.current, ProjectModel { todos, ..p })),
                    EffectModel::Save(m.current),
                )
            } else {
                unchanged(
                    AppModel {
                        view: ViewMode::TodoView,
                        input: Seq::empty(),
                        edit_index: None,
                        ..m
                    },
                )
            }
        } else {
            unchanged(leave_editor(m))
        },
        KeyCode::Esc => unchanged(leave_editor(m)),
        _ => typing_step(m, k),
    }
}

/// A key while the removal of a project awaits confirmation.
pub open spec fn confirm_delete_step(m: AppModel, k: Key) -> (AppModel, EffectModel) {
    match k.code {
        KeyCode::Char('y') | KeyCode::Char('Y') => if m.cursor < m.projects.len() {
            let ps = m.projects.remove(m.cursor as int);
            (
                AppModel {
                    projects: ps,
                    cursor: cursor_after_removal(m.cursor, ps.len()),
                    view: ViewMode::ProjectView,
                    ..m
                },
                EffectModel::Delete(m.projects[m.cursor as int].filename),
            )
        } else {
            unchanged(AppModel { view: ViewMode::ProjectView, ..m })
        },
        KeyCode::Char('n') | KeyCode::Char('N') | KeyCode::Esc => unchanged(
            AppModel { view: ViewMode::ProjectView, ..m },
        ),
        KeyCode::Char('c') => if k.ctrl {
            unchanged(AppModel { should_quit: true, ..m })
        } else {
            unchanged(m)
        },
        _ => unchanged(m),
    }
}

/// A key while a project under the cursor is renamed: Enter gives it the
/// typed name (an empty one leaves it as it was), Esc leaves it as it was.
pub open spec fn rename_project_step(m: AppModel, k: Key) -> (AppModel, EffectModel) {
    match k.code {
        KeyCode::Enter => if m.input.len() > 0 && m.cursor < m.projects.len() {
            let p = m.projects[m.cursor as int];
            (
                AppModel {
                    projects: m.projects.update(m.cursor as int, ProjectModel { name: m.input, ..p }),
                    view: ViewMode::ProjectView,
                    input: Seq::empty(),
                    ..m
                },
                EffectModel::Save(m.cursor),
            )
        } else {
            unchanged(AppModel { view: ViewMode::ProjectView, input: Seq::empty(), ..m })
        },
        KeyCode::Esc => unchanged(AppModel { view: ViewMode::ProjectView, input: Seq::empty(), ..m }),
        _ => typing_step(m, k),
    }
}

/// The seconds of a clock reading, if there is one.
pub open spec fn clock_secs(clock: Option<(i64, u32)>) -> Option<i64> {
    match clock {
        Some(t) => Some(t.0),
        None => None,
    }
}

/// What a key does: with the help shown, `?` and Esc close it and other keys
/// do nothing; otherwise the screen decides. `clock` is the clock's reading
/// (none when it cannot be read) for a key that makes a todo or a file name
/// from the time.
pub open spec fn step(m: AppModel, k: Key, clock: Option<(i64, u32)>) -> (AppModel, EffectModel) {
    if m.show_help {
        if k.code == KeyCode::Char('?') || k.code == KeyCode::Esc {
            unchanged(AppModel { show_help: false, ..m })
        } else {
            unchanged(m)
        }
    } else {
        match m.view {
            ViewMode::ProjectView => project_view_step(m, k),
            ViewMode::TodoView => todo_view_step(m, k),
            ViewMode::CreateProjectView => create_project_step(m, k, clock_secs(clock)),
            ViewMode::CreateTodoView => create_todo_step(m, k, clock),
            ViewMode::EditTodoView => edit_todo_step(m, k),
            ViewMode::ConfirmDeleteProjectView => confirm_delete_step(m, k),
            ViewMode::RenameProjectView => rename_project_step(m, k),
        }
    }
}


/// A cursor fits a list of `len` items when it stands on one of them, or at
/// the start of an empty list.
pub open spec fn cursor_fits(cursor: nat, len: nat) -> bool {
    cursor < len || cursor == 0
}

/// What every reachable state keeps: the cursor fits the list on screen, the
/// screens of a project have an open project, the title editor knows which
/// todo it edits, and the name editor stands on a project.
pub open spec fn well_formed(m: AppModel) -> bool {
    match m.view {
        ViewMode::ProjectView | ViewMode::CreateProjectView | ViewMode::ConfirmDeleteProjectView => {
            cursor_fits(m.cursor, m.projects.len())
        },
        ViewMode::TodoView | ViewMode::CreateTodoView => {
            has_current(m) && cursor_fits(m.cursor, current_project(m).todos.len())
        },
        ViewMode::EditTodoView => {
            &&& has_current(m)
            &&& cursor_fits(m.cursor, current_project(m).todos.len())
            &&& m.edit_index matches Some(i) && i < current_project(m).todos.len()
        },
        ViewMode::RenameProjectView => m.cursor < m.projects.len(),
    }
}

/// An effect asks only for files of projects that exist after the key.
pub open spec fn effect_fits(m: AppModel, e: EffectModel) -> bool {
    match e {
        EffectModel::Save(i) => i < m.projects.len(),
        _ => true,
    }
}

/// Every key keeps a well-formed state well-formed, and a project it asks to
/// save is in the list.
pub proof fn lemma_step_keeps_well_formed(m: AppModel, k: Key, clock: Option<(i64, u32)>)
    requires
        well_formed(m),
    ensures
        well_formed(step(m, k, clock).0),
        effect_fits(step(m, k, clock).0, step(m, k, clock).1),
{
    if !m.show_help && m.view == ViewMode::TodoView && has_current(m) {
        let p = current_project(m);
        if m.cursor < p.todos.len() {
            let t = p.todos[m.cursor as int];
            lemma_order_todos_permutes(
                p.todos.update(m.cursor as int, TodoModel { completed: !t.completed, ..t }),
            );
        }
    }
    if !m.show_help && m.view == ViewMode::CreateTodoView && has_current(m) && m.input.len() > 0
        && clock is Some {
        let stamp = clock->0;
        let p = current_project(m);
        let t = TodoModel {
            title: m.input,
            completed: false,
            line_num: next_line_num(p.todos.len()),
            created_at: stamp,
        };
        lemma_order_todos_permutes(p.todos.push(t));
    }
}

/// Space on a todo flips it between open and done: the project keeps as many
/// todos, and counts one more done todo, or one fewer.
pub proof fn lemma_toggle_counts(m: AppModel)
    requires
        !m.show_help,
        m.view == ViewMode::TodoView,
        has_current(m),
        m.cursor < current_project(m).todos.len(),
    ensures
        ({
            let k = Key { code: KeyCode::Char(' '), ctrl: false };
            let after = current_project(step(m, k, None).0);
            let before = current_project(m);
            let t = before.todos[m.cursor as int];
            &&& after.todos.len() == before.todos.len()
            &&& t.completed ==> count_completed(after.todos) + 1 == count_completed(before.todos)
            &&& !t.completed ==> count_completed(after.todos) == count_completed(before.todos) + 1
        }),
{
    let p = current_project(m);
    let i = m.cursor as int;
    let t = p.todos[i];
    let u = p.todos.update(i, TodoModel { completed: !t.completed, ..t });
    lemma_order_todos_permutes(u);
    lemma_order_todos_keeps_count(u);
    lemma_update_count(p.todos, i, TodoModel { completed: !t.completed, ..t });
}

/// A name is being typed on this screen.
pub open spec fn is_typing_view(v: ViewMode) -> bool {
    v == ViewMode::CreateProjectView || v == ViewMode::CreateTodoView || v == ViewMode::EditTodoView
        || v == ViewMode::RenameProjectView
}

/// Backspace takes back the character just typed: the state is as before.
pub proof fn lemma_backspace_undoes_typing(m: AppModel, c: char, stamp: Option<(i64, u32)>)
    requires
        !m.show_help,
        is_typing_view(m.view),
    ensures
        ({
            let typed = step(m, Key { code: KeyCode::Char(c), ctrl: false }, stamp).0;
            step(typed, Key { code: KeyCode::Backspace, ctrl: false }, stamp) == unchanged(m)
        }),
{
    let typed = step(m, Key { code: KeyCode::Char(c), ctrl: false }, stamp).0;
    assert(typed == AppModel { input: m.input.push(c), ..m });
    assert(m.input.push(c).drop_last() =~= m.input);
    assert(step(typed, Key { code: KeyCode::Backspace, ctrl: false }, stamp).0 =~= m);
}

/// Ctrl+C quits on every screen while the help is not shown.
pub proof fn lemma_ctrl_c_quits(m: AppModel, clock: Option<(i64, u32)>)
    requires
        !m.show_help,
    ensures
        step(m, Key { code: KeyCode::Char('c'), ctrl: true }, clock).0.should_quit,
{
}

/// `?` opens the help and `?` closes it again, leaving the state as it was,
/// on the list of projects and on the screen of a project.
pub proof fn lemma_help_round_trip(m: AppModel, stamp: Option<(i64, u32)>)
    requires
        !m.show_help,
        m.view == ViewMode::ProjectView || m.view == ViewMode::TodoView,
    ensures
        ({
            let k = Key { code: KeyCode::Char('?'), ctrl: false };
            let shown = step(m, k, stamp).0;
            &&& shown.show_help
            &&& step(shown, k, stamp) == unchanged(m)
        }),
{
    let k = Key { code: KeyCode::Char('?'), ctrl: false };
    let shown = step(m, k, stamp).0;
    assert(shown == AppModel { show_help: true, ..m });
    assert(step(shown, k, stamp).0 =~= m);
}

/// `d` on a todo of the open project deletes exactly the todo under the
/// cursor: the project keeps its name, its file and every other todo in
/// their order, no other project changes, the cursor stays where it was or,
/// past the new end, moves onto the last todo, and the project is saved.
pub proof fn lemma_delete_todo_removes_cursor_todo(m: AppModel, clock: Option<(i64, u32)>)
    requires
        !m.show_help,
        m.view == ViewMode::TodoView,
        has_current(m),
        m.cursor < current_project(m).todos.len(),
    ensures
        ({
            let (m2, e) = step(m, Key { code: KeyCode::Char('d'), ctrl: false }, clock);
            let old = current_project(m);
            let new = m2.projects[m.current as int];
            let c = m.cursor as int;
            &&& e == EffectModel::Save(m.current)
            &&& m2.view == ViewMode::TodoView
            &&& m2.current == m.current
            &&& m2.projects.len() == m.projects.len()
            &&& forall|i: int|
                0 <= i < m.projects.len() && i != m.current ==> #[trigger] m2.projects[i]
                    == m.projects[i]
            &&& new.name == old.name
            &&& new.filename == old.filename
            &&& new.todos.len() + 1 == old.todos.len()
            &&& forall|j: int| 0 <= j < c ==> #[trigger] new.todos[j] == old.todos[j]
            &&& forall|j: int| c <= j < new.todos.len() ==> #[trigger] new.todos[j] == old.todos[j + 1]
            &&& new.todos.to_multiset().insert(old.todos[c]) == old.todos.to_multiset()
            &&& (c < new.todos.len() ==> m2.cursor == c)
            &&& (c == new.todos.len() && c > 0 ==> m2.cursor == c - 1)
            &&& (new.todos.len() == 0 ==> m2.cursor == 0)
        }),
{
    let old = current_project(m);
    let c = m.cursor as int;
    let t = old.todos.remove(c);
    assert(t.insert(c, old.todos[c]) =~= old.todos);
    vstd::seq_lib::to_multiset_insert(t, c, old.todos[c]);
}

/// `y` on the question whether to delete the project under the cursor
/// removes exactly that project from the list, keeping every other one in
/// its order, and asks to delete exactly that project's file; the list is
/// shown again with the cursor where it was or, past the new end, on the
/// last project.
pub proof fn lemma_confirm_delete_removes_cursor_project(m: AppModel, clock: Option<(i64, u32)>, y: char)
    requires
        !m.show_help,
        m.view == ViewMode::ConfirmDeleteProjectView,
        m.cursor < m.projects.len(),
        y == 'y' || y == 'Y',
    ensures
        ({
            let (m2, e) = step(m, Key { code: KeyCode::Char(y), ctrl: false }, clock);
            let c = m.cursor as int;
            &&& e == EffectModel::Delete(m.projects[c].filename)
            &&& m2.view == ViewMode::ProjectView
            &&& m2.projects.len() + 1 == m.projects.len()
            &&& forall|j: int| 0 <= j < c ==> #[trigger] m2.projects[j] == m.projects[j]
            &&& forall|j: int| c <= j < m2.projects.len() ==> #[trigger] m2.projects[j] == m.projects[j + 1]
            &&& (c < m2.projects.len() ==> m2.cursor == c)
            &&& (c == m2.projects.len() && c > 0 ==> m2.cursor == c - 1)
            &&& (m2.projects.len() == 0 ==> m2.cursor == 0)
        }),
{
}

proof fn lemma_update_count(s: Seq<TodoModel>, i: int, x: TodoModel)
    requires
        0 <= i < s.len(),
    ensures
        count_completed(s.update(i, x)) + (if s[i].completed { 1int } else { 0int }) == count_completed(s)
            + (if x.completed { 1int } else { 0int }),
    decreases s.len(),
{
    if i < s.len() - 1 {
        lemma_update_count(s.drop_last(), i, x);
        assert(s.update(i, x).drop_last() =~= s.drop_last().update(i, x));
    } else {
        assert(s.update(i, x).drop_last() =~= s.drop_last());
    }
}

proof fn lemma_remove_insert<A>(s: Seq<A>, i: int, x: A)
    requires
        0 <= i < s.len(),
    ensures
        s.remove(i).insert(i, x) == s.update(i, x),
{
    assert(s.remove(i).insert(i, x) =~= s.update(i, x));
}

impl AppData {
    /// Takes the project at `i` out of the list.
    fn take_project(&mut self, i: usize) -> (p: Project)
        requires
            i < old(self).projects@.len(),
        ensures
            p@ == project_models(old(self).projects@)[i as int],
            project_models(final(self).projects@) == project_models(old(self).projects@).remove(i as int),
            final(self).projects@.len() == old(self).projects@.len() - 1,
            final(self).current_project == old(self).current_project,
    {
        let p = self.projects.remove(i);
        assert(project_models(self.projects@) =~= project_models(old(self).projects@).remove(i as int));
        p
    }

    /// Puts a project into the list at `i`.
    fn put_project(&mut self, i: usize, p: Project)
        requires
            i <= old(self).projects@.len(),
        ensures
            project_models(final(self).projects@) == project_models(old(self).projects@).insert(i as int, p@),
            final(self).current_project == old(self).current_project,
    {
        let ghost pv = p@;
        self.projects.insert(i, p);
        assert(project_models(self.projects@) =~= project_models(old(self).projects@).insert(i as int, pv));
    }
}

impl App {
    /// The application over the storage and the projects read from it, on the
    /// list of projects with the cursor on the first.
    pub fn new(storage: Storage, projects: Vec<Project>) -> (app: App)
        ensures
            app@ == (AppModel {
                projects: project_models(projects@),
                current: 0,
                view: ViewMode::ProjectView,
                cursor: 0,
                input: Seq::empty(),
                edit_index: None,
                show_help: false,
                should_quit: false,
            }),
            well_formed(app@),
            app.storage@ == storage@,
    {
        let mut data = AppData::new();
        data.projects = projects;
        App {
            data,
            storage,
            view_mode: ViewMode::ProjectView,
            cursor: 0,
            input: String::new(),
            edit_index: None,
            show_help: false,
            should_quit: false,
        }
    }

    fn handle_project_view_key(&mut self, key: Key) -> (e: Effect)
        ensures
            (final(self)@, e@) == project_view_step(old(self)@, key),
            final(self).storage@ == old(self).storage@,
    {
        let n = self.data.projects.len();
        match key.code {
            KeyCode::Char('q') | KeyCode::Esc => {
                self.should_quit = true;
            },
            KeyCode::Char('?') => {
                self.show_help = true;
            },
            KeyCode::Char('n') => {
                self.view_mode = ViewMode::CreateProjectView;
                self.input = String::new();
            },
            KeyCode::Char('d') => {
                if n > 0 && self.cursor < n {
                    self.view_mode = ViewMode::ConfirmDeleteProjectView;
                }
            },
            KeyCode::Up | KeyCode::Char('k') => {
                if self.cursor > 0 {
                    self.cursor = self.cursor - 1;
                }
            },
            KeyCode::Down | KeyCode::Char('j') => {
                if self.cursor < n.saturating_sub(1) {
                    self.cursor = self.cursor + 1;
                }
            },
            KeyCode::Tab | KeyCode::Enter => {
                if n > 0 && self.cursor < n {
                    self.data.current_project = self.cursor;
                    self.view_mode = ViewMode::TodoView;
                    self.cursor = 0;
                }
            },
            KeyCode::Char('r') => {
                if n > 0 && self.cursor < n {
                    self.input = self.data.projects[self.cursor].name.clone();
                    self.view_mode = ViewMode::RenameProjectView;
                }
            },
            KeyCode::Char('c') => {
                if key.ctrl {
                    self.should_quit = true;
                }
            },
            _ => {},
        }
        proof {
            assert(self@ =~= project_view_step(old(self)@, key).0);
        }
        Effect::Nothing
    }

    fn handle_todo_view_key(&mut self, key: Key) -> (e: Effect)
        ensures
            (final(self)@, e@) == todo_view_step(old(self)@, key),
            final(self).storage@ == old(self).storage@,
    {
        let ghost m = self@;
        let cur = self.data.current_project;
        let has = cur < self.data.projects.len();
        match key.code {
            KeyCode::Char('q') => {
                self.should_quit = true;
            },
            KeyCode::Char('?') => {
                self.show_help = true;
            },
            KeyCode::Backspace | KeyCode::Esc => {
                self.view_mode = ViewMode::ProjectView;
                self.cursor = cur;
            },
            KeyCode::Char('n') => {
                self.view_mode = ViewMode::CreateTodoView;
                self.input = String::new();
            },
            KeyCode::Char('e') => {
                if has && self.cursor < self.data.projects[cur].todos.len() {
                    self.edit_index = Some(self.cursor);
                    self.input = self.data.projects[cur].todos[self.cursor].title.clone();
                    self.view_mode = ViewMode::EditTodoView;
                    assert(self.input@ == current_project(m).todos[m.cursor as int].title);
                }
            },
            KeyCode::Char('d') => {
                if has && self.cursor < self.data.projects[cur].todos.len() {
                    let mut p = self.data.take_project(cur);
                    let ghost pv = p@;
                    p.todos.remove(self.cursor);
                    assert(p@.todos =~= pv.todos.remove(m.cursor as int));
                    if self.cursor >= p.todos.len() && self.cursor > 0 {
                        self.cursor = self.cursor - 1;
                    }
                    let ghost q = p@;
                    self.data.put_project(cur, p);
                    proof {
                        lemma_remove_insert(m.projects, cur as int, q);
                        assert(q == (ProjectModel { todos: pv.todos.remove(m.cursor as int), ..pv }));
                        assert(self@ =~= todo_view_step(m, key).0);
                    }
                    return Effect::SaveProject(cur);
                }
            },
            KeyCode::Up | KeyCode::Char('k') => {
                if self.cursor > 0 {
                    self.cursor = self.cursor - 1;
                }
            },
            KeyCode::Down | KeyCode::Char('j') => {
                if has && self.cursor < self.data.projects[cur].todos.len().saturating_sub(1) {
                    self.cursor = self.cursor + 1;
                }
            },
            KeyCode::Char(' ') => {
                if has && self.cursor < self.data.projects[cur].todos.len() {
                    let mut p = self.data.take_project(cur);
                    let ghost pv = p@;
                    let mut t = p.todos.remove(self.cursor);
                    let ghost tv = t@;
                    t.completed = !t.completed;
                    let ghost tv2 = t@;
                    p.todos.insert(self.cursor, t);
                    proof {
                        assert(todo_models(p.todos@) =~= pv.todos.remove(m.cursor as int).insert(m.cursor as int, tv2));
                        lemma_remove_insert(pv.todos, m.cursor as int, tv2);
                        assert(tv == pv.todos[m.cursor as int]);
                    }
                    p.sort_todos();
                    let ghost q = p@;
                    self.data.put_project(cur, p);
                    proof {
                        lemma_remove_insert(m.projects, cur as int, q);
                        assert(self@ =~= todo_view_step(m, key).0);
                    }
                    return Effect::SaveProject(cur);
                }
            },
            KeyCode::Char('c') => {
                if key.ctrl {
                    self.should_quit = true;
                }
            },
            _ => {},
        }
        proof {
            assert(self@ =~= todo_view_step(m, key).0);
        }
        Effect::Nothing
    }

    /// Adds a typed character, or takes the last one off; Ctrl+C quits.
    fn handle_typing_key(&mut self, key: Key) -> (e: Effect)
        ensures
            (final(self)@, e@) == typing_step(old(self)@, key),
            final(self).storage@ == old(self).storage@,
    {
        let ghost m = self@;
        match key.code {
            KeyCode::Char(c) => {
                if c == 'c' && key.ctrl {
                    self.should_quit = true;
                } else {
                    push_char(&mut self.input, c);
                }
            },
            KeyCode::Backspace => {
                pop_char(&mut self.input);
            },
            _ => {},
        }
        assert(self@ =~= typing_step(m, key).0);
        Effect::Nothing
    }

    fn handle_create_project_key(&mut self, key: Key) -> (e: Effect)
        ensures
            exists|secs: Option<i64>|
                (secs matches Some(s) ==> s >= 0) && (final(self)@, e@) == create_project_step(
                    old(self)@,
                    key,
                    secs,
                ),
            final(self).storage@ == old(self).storage@,
    {
        let ghost m = self@;
        match key.code {
            KeyCode::Enter => {
                if !self.input.as_str().is_empty() {
                    match Storage::sanitize_filename(self.input.as_str()) {
                        Some(filename) => {
                            let ghost s = choose|s: i64|
                                s >= 0 && filename@ == sanitized_at(m.input, s);
                            let ghost secs = Some(s);
                            assert(file_name_for(m.input, secs) == Some(filename@));
                            let project = Project::new(self.input.clone(), filename);
                            let ghost pv = project@;
                            let i = self.data.projects.len();
                            self.data.projects.push(project);
                            self.cursor = i;
                            self.view_mode = ViewMode::ProjectView;
                            self.input = String::new();
                            proof {
                                assert(project_models(self.data.projects@) =~= m.projects.push(pv));
                                assert(self@ =~= create_project_step(m, key, secs).0);
                            }
                            return Effect::SaveProject(i);
                        },
                        None => {
                            assert(file_name_for(m.input, None) is None);
                            assert(self@ =~= create_project_step(m, key, None).0);
                            return Effect::Nothing;
                        },
                    }
                } else {
                    self.view_mode = ViewMode::ProjectView;
                    self.input = String::new();
                }
            },
            KeyCode::Esc => {
                self.view_mode = ViewMode::ProjectView;
                self.input = String::new();
            },
            _ => {
                let e = self.handle_typing_key(key);
                assert(create_project_step(m, key, None) == typing_step(m, key));
                return e;
            },
        }
        assert(self@ =~= create_project_step(m, key, None).0);
        Effect::Nothing
    }

    fn handle_create_todo_key(&mut self, key: Key) -> (e: Effect)
        ensures
            exists|clock: Option<(i64, u32)>|
                (clock matches Some(t) ==> clock_reading(t)) && (final(self)@, e@)
                    == create_todo_step(old(self)@, key, clock),
            final(self).storage@ == old(self).storage@,
    {
        let ghost m = self@;
        match key.code {
            KeyCode::Enter => {
                if !self.input.as_str().is_empty() {
                    let cur = self.data.current_project;
                    if cur < self.data.projects.len() {
                        let n = self.data.projects[cur].todos.len();
                        match Todo::new(self.input.clone(), n.saturating_add(1)) {
                            Some(todo) => {
                                let mut p = self.data.take_project(cur);
                                let ghost pv = p@;
                                let ghost stamp = todo.created_at;
                                let ghost tv = todo@;
                                p.add_todo(todo);
                                let ghost q = p@;
                                self.data.put_project(cur, p);
                                self.cursor = 0;
                                self.view_mode = ViewMode::TodoView;
                                self.input = String::new();
                                proof {
                                    assert(tv == TodoModel {
                                        title: m.input,
                                        completed: false,
                                        line_num: next_line_num(pv.todos.len()),
                                        created_at: stamp,
                                    });
                                    lemma_remove_insert(m.projects, cur as int, q);
                                    assert(self@ =~= create_todo_step(m, key, Some(stamp)).0);
                                }
                                return Effect::SaveProject(cur);
                            },
                            None => {},
                        }
                    }
                } else {
                    self.view_mode = ViewMode::TodoView;
                    self.input = String::new();
                }
            },
            KeyCode::Esc => {
                self.view_mode = ViewMode::TodoView;
                self.input = String::new();
            },
            _ => {
                let e = self.handle_typing_key(key);
                assert(create_todo_step(m, key, None) == typing_step(m, key));
                return e;
            },
        }
        assert(self@ =~= create_todo_step(m, key, None).0);
        Effect::Nothing
    }

    fn handle_rename_project_key(&mut self, key: Key) -> (e: Effect)
        ensures
            (final(self)@, e@) == rename_project_step(old(self)@, key),
            final(self).storage@ == old(self).storage@,
    {
        let ghost m = self@;
        match key.code {
            KeyCode::Enter => {
                let i = self.cursor;
                if !self.input.as_str().is_empty() && i < self.data.projects.len() {
                    let mut p = self.data.take_project(i);
                    let ghost pv = p@;
                    p.name = self.input.clone();
                    let ghost q = p@;
                    self.data.put_project(i, p);
                    self.view_mode = ViewMode::ProjectView;
                    self.input = String::new();
                    proof {
                        lemma_remove_insert(m.projects, i as int, q);
                        assert(q == ProjectModel { name: m.input, ..pv });
                        assert(self@ =~= rename_project_step(m, key).0);
                    }
                    return Effect::SaveProject(i);
                }
                self.view_mode = ViewMode::ProjectView;
                self.input = String::new();
            },
            KeyCode::Esc => {
                self.view_mode = ViewMode::ProjectView;
                self.input = String::new();
            },
            _ => {
                let e = self.handle_typing_key(key);
                assert(rename_project_step(m, key) == typing_step(m, key));
                return e;
            },
        }
        assert(self@ =~= rename_project_step(m, key).0);
        Effect::Nothing
    }

    fn handle_edit_todo_key(&mut self, key: Key) -> (e: Effect)
        ensures
            (final(self)@, e@) == edit_todo_step(old(self)@, key),
            final(self).storage@ == old(self).storage@,
    {
        let ghost m = self@;
        match key.code {
            KeyCode::Enter => {
                let mut saved = false;
                let cur = self.data.current_project;
                if !self.input.as_str().is_empty() {
                    if cur < self.data.projects.len() {
                        if let Some(idx) = self.edit_index {
                            if idx < self.data.projects[cur].todos.len() {
                                let mut p = self.data.take_project(cur);
                                let ghost pv = p@;
                                let mut t = p.todos.remove(idx);
                                let ghost tv = t@;
                                t.title = self.input.clone();
                                let ghost tv2 = t@;
                                p.todos.insert(idx, t);
                                proof {
                                    assert(todo_models(p.todos@) =~= pv.todos.remove(idx as int).insert(
                                        idx as int,
                                        tv2,
                                    ));
                                    lemma_remove_insert(pv.todos, idx as int, tv2);
                                    assert(tv == pv.todos[idx as int]);
                                    assert(tv2 == TodoModel { title: m.input, ..tv });
                                }
                                let ghost q = p@;
                                self.data.put_project(cur, p);
                                proof {
                                    lemma_remove_insert(m.projects, cur as int, q);
                                }
                                self.cursor = idx;
                                saved = true;
                            }
                        }
                    }
                } else if let Some(idx) = self.edit_index {
                    self.cursor = idx;
                }
                self.view_mode = ViewMode::TodoView;
                self.input = String::new();
                self.edit_index = None;
                proof {
                    assert(self@ =~= edit_todo_step(m, key).0);
                }
                if saved {
                    return Effect::SaveProject(cur);
                }
            },
            KeyCode::Esc => {
                if let Some(idx) = self.edit_index {
                    self.cursor = idx;
                }
                self.view_mode = ViewMode::TodoView;
                self.input = String::new();
                self.edit_index = None;
                assert(self@ =~= edit_todo_step(m, key).0);
            },
            _ => {
                let e = self.handle_typing_key(key);
                assert(edit_todo_step(m, key) == typing_step(m, key));
                return e;
            },
        }
        Effect::Nothing
    }

    fn handle_confirm_delete_key(&mut self, key: Key) -> (e: Effect)
        ensures
            (final(self)@, e@) == confirm_delete_step(old(self)@, key),
            final(self).storage@ == old(self).storage@,
    {
        let ghost m = self@;
        match key.code {
            KeyCode::Char('y') | KeyCode::Char('Y') => {
                if self.cursor < self.data.projects.len() {
                    let p = self.data.take_project(self.cursor);
                    if self.cursor >= self.data.projects.len() && self.cursor > 0 {
                        self.cursor = self.cursor - 1;
                    }
                    self.view_mode = ViewMode::ProjectView;
                    assert(self@ =~= confirm_delete_step(m, key).0);
                    return Effect::DeleteProjectFile(p.filename);
                }
                self.view_mode = ViewMode::ProjectView;
            },
            KeyCode::Char('n') | KeyCode::Char('N') | KeyCode::Esc => {
                self.view_mode = ViewMode::ProjectView;
            },
            KeyCode::Char('c') => {
                if key.ctrl {
                    self.should_quit = true;
                }
            },
            _ => {},
        }
        assert(self@ =~= confirm_delete_step(m, key).0);
        Effect::Nothing
    }

    /// What a key does, in the sense of [`step`], with the clock read when the
    /// key makes a todo or must name a project file after the time. The
    /// effect is for the caller to carry out on the files.
    pub fn handle_key(&mut self, key: Key) -> (e: Effect)
        ensures
            exists|clock: Option<(i64, u32)>|
                (clock matches Some(t) ==> clock_reading(t)) && (final(self)@, e@) == step(
                    old(self)@,
                    key,
                    clock,
                ),
            final(self).storage@ == old(self).storage@,
    {
        let ghost m = self@;
        if self.show_help {
            match key.code {
                KeyCode::Char('?') | KeyCode::Esc => {
                    self.show_help = false;
                },
                _ => {},
            }
            assert(self@ =~= step(m, key, None).0);
            return Effect::Nothing;
        }
        match self.view_mode {
            ViewMode::ProjectView => {
                let e = self.handle_project_view_key(key);
                assert(step(m, key, None) == project_view_step(m, key));
                e
            },
            ViewMode::TodoView => {
                let e = self.handle_todo_view_key(key);
                assert(step(m, key, None) == todo_view_step(m, key));
                e
            },
            ViewMode::CreateProjectView => {
                let e = self.handle_create_project_key(key);
                let ghost secs = choose|secs: Option<i64>|
                    (secs matches Some(s) ==> s >= 0) && (self@, e@) == create_project_step(m, key, secs);
                let ghost clock: Option<(i64, u32)> = match secs {
                    Some(s) => Some((s, 0u32)),
                    None => None,
                };
                assert(clock_secs(clock) == secs);
                assert(step(m, key, clock) == create_project_step(m, key, secs));
                e
            },
            ViewMode::CreateTodoView => {
                let e = self.handle_create_todo_key(key);
                let ghost clock = choose|clock: Option<(i64, u32)>|
                    (clock matches Some(t) ==> clock_reading(t)) && (self@, e@) == create_todo_step(m, key, clock);
                assert(step(m, key, clock) == create_todo_step(m, key, clock));
                e
            },
            ViewMode::EditTodoView => {
                let e = self.handle_edit_todo_key(key);
                assert(step(m, key, None) == edit_todo_step(m, key));
                e
            },
            ViewMode::ConfirmDeleteProjectView => {
                let e = self.handle_confirm_delete_key(key);
                assert(step(m, key, None) == confirm_delete_step(m, key));
                e
            },
            ViewMode::RenameProjectView => {
                let e = self.handle_rename_project_key(key);
                assert(step(m, key, None) == rename_project_step(m, key));
                e
            },
        }
    }
}

} // verus!
