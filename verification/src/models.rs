//! Todos, projects and the list of projects, with the order in which a project
//! shows its todos: open ones before done ones, newest first within each.

use vstd::prelude::*;
use crate::clock::{clock_reading, now};

verus! {

broadcast use vstd::seq_lib::group_to_multiset_ensures;

/// One task of a project.
#[derive(Debug)]
pub struct Todo {
    pub title: String,
    pub completed: bool,
    /// The line of the project file that the todo was read from.
    pub line_num: usize,
    /// When the todo was made: whole seconds since the Unix epoch, and
    /// nanoseconds within that second.
    pub created_at: (i64, u32),
}

/// What a todo holds, as mathematical values.
pub struct TodoModel {
    pub title: Seq<char>,
    pub completed: bool,
    pub line_num: nat,
    pub created_at: (i64, u32),
}

impl View for Todo {
    type V = TodoModel;

    open spec fn view(&self) -> TodoModel {
        TodoModel {
            title: self.title@,
            completed: self.completed,
            line_num: self.line_num as nat,
            created_at: self.created_at,
        }
    }
}

/// The models of a sequence of todos.
pub open spec fn todo_models(v: Seq<Todo>) -> Seq<TodoModel> {
    v.map_values(|t: Todo| t@)
}

/// `x` is at least as recent as `y`.
pub open spec fn at_or_after(x: (i64, u32), y: (i64, u32)) -> bool {
    x.0 > y.0 || (x.0 == y.0 && x.1 >= y.1)
}

/// `a` may stand before `b` in a project's list: an open todo before a done
/// one, and between two open or two done ones, the newer first (or either way
/// when both were made at the same instant).
pub open spec fn precedes(a: TodoModel, b: TodoModel) -> bool {
    if a.completed != b.completed {
        !a.completed
    } else {
        at_or_after(a.created_at, b.created_at)
    }
}

/// `a` and `b` rank the same: both open or both done, made at the same instant.
pub open spec fn same_rank(a: TodoModel, b: TodoModel) -> bool {
    a.completed == b.completed && a.created_at == b.created_at
}

/// Every todo of `s` may stand before every later one.
pub open spec fn is_ordered(s: Seq<TodoModel>) -> bool {
    forall|i: int, j: int| 0 <= i < j < s.len() ==> precedes(#[trigger] s[i], #[trigger] s[j])
}

/// The todos of `s` that rank the same as `t`, in the order of `s`.
pub open spec fn rank_class(s: Seq<TodoModel>, t: TodoModel) -> Seq<TodoModel>
    decreases s.len(),
{
    if s.len() == 0 {
        s
    } else if same_rank(s.last(), t) {
        rank_class(s.drop_last(), t).push(s.last())
    } else {
        rank_class(s.drop_last(), t)
    }
}

/// The number of done todos in `s`.
pub open spec fn count_completed(s: Seq<TodoModel>) -> nat
    decreases s.len(),
{
    if s.len() == 0 {
        0
    } else {
        count_completed(s.drop_last()) + if s.last().completed { 1nat } else { 0nat }
    }
}

/// The place where `x` joins the ordered list `r`: after the leading todos
/// that may stand before it.
pub open spec fn insert_pos(r: Seq<TodoModel>, x: TodoModel) -> nat
    decreases r.len(),
{
    if r.len() == 0 {
        0
    } else if precedes(r[0], x) {
        1 + insert_pos(r.drop_first(), x)
    } else {
        0
    }
}

/// `r` with `x` put in its place.
pub open spec fn insert_in_order(r: Seq<TodoModel>, x: TodoModel) -> Seq<TodoModel> {
    r.insert(insert_pos(r, x) as int, x)
}

/// The todos of `s` in project order, todos that rank the same keeping their
/// order in `s`.
pub open spec fn order_todos(s: Seq<TodoModel>) -> Seq<TodoModel>
    decreases s.len(),
{
    if s.len() == 0 {
        s
    } else {
        insert_in_order(order_todos(s.drop_last()), s.last())
    }
}

proof fn lemma_precedes_total(a: TodoModel, b: TodoModel)
    ensures
        precedes(a, b) || precedes(b, a),
{
}

proof fn lemma_precedes_transitive(a: TodoModel, b: TodoModel, c: TodoModel)
    requires
        precedes(a, b),
        precedes(b, c),
    ensures
        precedes(a, c),
{
}

proof fn lemma_insert_pos(r: Seq<TodoModel>, x: TodoModel)
    ensures
        insert_pos(r, x) <= r.len(),
        forall|j: int| 0 <= j < insert_pos(r, x) ==> precedes(#[trigger] r[j], x),
        insert_pos(r, x) < r.len() ==> !precedes(r[insert_pos(r, x) as int], x),
    decreases r.len(),
{
    if r.len() > 0 && precedes(r[0], x) {
        lemma_insert_pos(r.drop_first(), x);
        assert forall|j: int| 0 <= j < insert_pos(r, x) implies precedes(#[trigger] r[j], x) by {
            if j > 0 {
                assert(r[j] == r.drop_first()[j - 1]);
            }
        }
    }
}

proof fn lemma_insert_pos_is(r: Seq<TodoModel>, x: TodoModel, p: int)
    requires
        0 <= p <= r.len(),
        forall|j: int| 0 <= j < p ==> precedes(#[trigger] r[j], x),
        p < r.len() ==> !precedes(r[p], x),
    ensures
        insert_pos(r, x) == p,
    decreases r.len(),
{
    if r.len() > 0 && p > 0 {
        assert(precedes(r[0], x));
        assert forall|j: int| 0 <= j < p - 1 implies precedes(#[trigger] r.drop_first()[j], x) by {
            assert(r.drop_first()[j] == r[j + 1]);
        }
        lemma_insert_pos_is(r.drop_first(), x, p - 1);
    }
}

proof fn lemma_insert_keeps_order(r: Seq<TodoModel>, x: TodoModel)
    requires
        is_ordered(r),
    ensures
        is_ordered(insert_in_order(r, x)),
{
    lemma_insert_pos(r, x);
    let p = insert_pos(r, x) as int;
    let s = insert_in_order(r, x);
    assert forall|i: int, j: int| 0 <= i < j < s.len() implies precedes(#[trigger] s[i], #[trigger] s[j]) by {
        if j < p {
            assert(s[i] == r[i] && s[j] == r[j]);
        } else if j == p {
            assert(s[i] == r[i]);
        } else if i == p {
            assert(s[j] == r[j - 1]);
            lemma_precedes_total(r[p], x);
            if j - 1 > p {
                lemma_precedes_transitive(x, r[p], r[j - 1]);
            }
        } else if i < p {
            assert(s[i] == r[i] && s[j] == r[j - 1]);
        } else {
            assert(s[i] == r[i - 1] && s[j] == r[j - 1]);
        }
    }
}

proof fn lemma_rank_class_add(a: Seq<TodoModel>, b: Seq<TodoModel>, t: TodoModel)
    ensures
        rank_class(a + b, t) == rank_class(a, t) + rank_class(b, t),
    decreases b.len(),
{
    if b.len() == 0 {
        assert(a + b =~= a);
        assert(rank_class(a, t) + rank_class(b, t) =~= rank_class(a, t));
    } else {
        assert((a + b).drop_last() =~= a + b.drop_last());
        assert((a + b).last() == b.last());
        lemma_rank_class_add(a, b.drop_last(), t);
        assert(rank_class(a + b, t) =~= rank_class(a, t) + rank_class(b, t));
    }
}

proof fn lemma_rank_class_empty(s: Seq<TodoModel>, t: TodoModel)
    requires
        forall|i: int| 0 <= i < s.len() ==> !same_rank(#[trigger] s[i], t),
    ensures
        rank_class(s, t) == Seq::<TodoModel>::empty(),
    decreases s.len(),
{
    if s.len() > 0 {
        lemma_rank_class_empty(s.drop_last(), t);
    }
}

proof fn lemma_insert_rank_class(r: Seq<TodoModel>, x: TodoModel, t: TodoModel)
    requires
        is_ordered(r),
    ensures
        rank_class(insert_in_order(r, x), t) == rank_class(r.push(x), t),
{
    lemma_insert_pos(r, x);
    let p = insert_pos(r, x) as int;
    let front = r.take(p);
    let back = r.skip(p);
    assert(insert_in_order(r, x) =~= front + seq![x] + back);
    assert(r.push(x) =~= r + seq![x]);
    assert(r =~= front + back);
    lemma_rank_class_add(front + seq![x], back, t);
    lemma_rank_class_add(front, seq![x], t);
    lemma_rank_class_add(front, back, t);
    lemma_rank_class_add(r, seq![x], t);
    assert(seq![x].drop_last() =~= Seq::<TodoModel>::empty());
    assert(seq![x].last() == x);
    assert(r.push(x).drop_last() =~= r);
    assert(r.push(x).last() == x);
    if same_rank(x, t) {
        assert forall|i: int| 0 <= i < back.len() implies !same_rank(#[trigger] back[i], t) by {
            assert(back[i] == r[p + i]);
            if i > 0 {
                assert(precedes(r[p], r[p + i]));
            }
            lemma_precedes_total(r[p], x);
        }
        lemma_rank_class_empty(back, t);
        assert(rank_class(seq![x], t) =~= seq![x]);
        assert(rank_class(insert_in_order(r, x), t) =~= rank_class(front, t).push(x));
    } else {
        assert(rank_class(seq![x], t) =~= Seq::<TodoModel>::empty());
        assert(rank_class(insert_in_order(r, x), t) =~= rank_class(front, t) + rank_class(back, t));
    }
}

/// Project order puts every todo before or alongside every later one.
pub proof fn lemma_order_todos_is_ordered(s: Seq<TodoModel>)
    ensures
        is_ordered(order_todos(s)),
    decreases s.len(),
{
    if s.len() > 0 {
        lemma_order_todos_is_ordered(s.drop_last());
        lemma_insert_keeps_order(order_todos(s.drop_last()), s.last());
    }
}

/// Project order neither adds nor loses a todo: it is a permutation.
pub proof fn lemma_order_todos_permutes(s: Seq<TodoModel>)
    ensures
        order_todos(s).to_multiset() == s.to_multiset(),
        order_todos(s).len() == s.len(),
    decreases s.len(),
{
    if s.len() > 0 {
        lemma_order_todos_permutes(s.drop_last());
        lemma_insert_pos(order_todos(s.drop_last()), s.last());
        assert(s =~= s.drop_last().push(s.last()));
    }
}

/// Project order is stable: todos that rank the same keep their relative order.
pub proof fn lemma_order_todos_is_stable(s: Seq<TodoModel>, t: TodoModel)
    ensures
        rank_class(order_todos(s), t) == rank_class(s, t),
    decreases s.len(),
{
    if s.len() > 0 {
        lemma_order_todos_is_stable(s.drop_last(), t);
        lemma_order_todos_is_ordered(s.drop_last());
        let r = order_todos(s.drop_last());
        lemma_insert_rank_class(r, s.last(), t);
        assert(r.push(s.last()).drop_last() =~= r);
        assert(r.push(s.last()).last() == s.last());
    }
}

/// Putting todos that are already in project order into project order leaves
/// them as they are.
pub proof fn lemma_order_todos_of_ordered(s: Seq<TodoModel>)
    requires
        is_ordered(s),
    ensures
        order_todos(s) == s,
    decreases s.len(),
{
    if s.len() > 0 {
        let r = s.drop_last();
        assert(is_ordered(r));
        lemma_order_todos_of_ordered(r);
        assert forall|j: int| 0 <= j < r.len() implies precedes(#[trigger] r[j], s.last()) by {
            assert(r[j] == s[j]);
        }
        lemma_insert_pos_is(r, s.last(), r.len() as int);
        assert(r.insert(r.len() as int, s.last()) =~= s);
    }
}

/// Sorting twice is sorting once.
pub proof fn lemma_order_todos_idempotent(s: Seq<TodoModel>)
    ensures
        order_todos(order_todos(s)) == order_todos(s),
{
    lemma_order_todos_is_ordered(s);
    lemma_order_todos_of_ordered(order_todos(s));
}

proof fn lemma_count_completed_add(a: Seq<TodoModel>, b: Seq<TodoModel>)
    ensures
        count_completed(a + b) == count_completed(a) + count_completed(b),
    decreases b.len(),
{
    if b.len() == 0 {
        assert(a + b =~= a);
    } else {
        assert((a + b).drop_last() =~= a + b.drop_last());
        lemma_count_completed_add(a, b.drop_last());
    }
}

proof fn lemma_count_completed_bound(s: Seq<TodoModel>)
    ensures
        count_completed(s) <= s.len(),
    decreases s.len(),
{
    if s.len() > 0 {
        lemma_count_completed_bound(s.drop_last());
    }
}

/// A project never counts more done todos than it has todos.
pub proof fn lemma_completed_at_most_total(s: Seq<TodoModel>)
    ensures
        count_completed(s) <= s.len(),
{
    lemma_count_completed_bound(s);
}

/// The title and the tick of each todo, in order.
pub open spec fn titles_and_ticks(s: Seq<TodoModel>) -> Seq<(Seq<char>, bool)> {
    s.map_values(|t: TodoModel| (t.title, t.completed))
}

/// Project order keeps the titles and ticks of the todos, as a multiset.
pub proof fn lemma_order_todos_keeps_titles(s: Seq<TodoModel>)
    ensures
        titles_and_ticks(order_todos(s)).to_multiset() == titles_and_ticks(s).to_multiset(),
    decreases s.len(),
{
    if s.len() > 0 {
        let r = order_todos(s.drop_last());
        let x = s.last();
        lemma_order_todos_keeps_titles(s.drop_last());
        lemma_insert_pos(r, x);
        let p = insert_pos(r, x) as int;
        let xt = (x.title, x.completed);
        assert(titles_and_ticks(r.insert(p, x)) =~= titles_and_ticks(r).insert(p, xt));
        assert(titles_and_ticks(s) =~= titles_and_ticks(s.drop_last()).push(xt));
        vstd::seq_lib::to_multiset_insert(titles_and_ticks(r), p, xt);
        vstd::seq_lib::to_multiset_build(titles_and_ticks(s.drop_last()), xt);
    }
}

/// Project order keeps the number of done todos.
pub proof fn lemma_order_todos_keeps_count(s: Seq<TodoModel>)
    ensures
        count_completed(order_todos(s)) == count_completed(s),
    decreases s.len(),
{
    if s.len() > 0 {
        let r = order_todos(s.drop_last());
        let x = s.last();
        lemma_order_todos_keeps_count(s.drop_last());
        lemma_insert_pos(r, x);
        let p = insert_pos(r, x) as int;
        assert(insert_in_order(r, x) =~= r.take(p) + (seq![x] + r.skip(p)));
        assert(r =~= r.take(p) + r.skip(p));
        lemma_count_completed_add(r.take(p), seq![x] + r.skip(p));
        lemma_count_completed_add(seq![x], r.skip(p));
        lemma_count_completed_add(r.take(p), r.skip(p));
        assert(seq![x].drop_last() =~= Seq::<TodoModel>::empty());
        assert(seq![x].last() == x);
        assert(count_completed(Seq::<TodoModel>::empty()) == 0);
        assert(count_completed(seq![x]) == if x.completed { 1nat } else { 0nat });
    }
}


/// What a project holds, as mathematical values.
pub struct ProjectModel {
    pub name: Seq<char>,
    pub filename: Seq<char>,
    pub todos: Seq<TodoModel>,
}

/// A named list of todos, stored in one file.
#[derive(Debug)]
pub struct Project {
    pub name: String,
    pub filename: String,
    pub todos: Vec<Todo>,
}

impl View for Project {
    type V = ProjectModel;

    open spec fn view(&self) -> ProjectModel {
        ProjectModel { name: self.name@, filename: self.filename@, todos: todo_models(self.todos@) }
    }
}

/// The models of a sequence of projects.
pub open spec fn project_models(v: Seq<Project>) -> Seq<ProjectModel> {
    v.map_values(|p: Project| p@)
}

/// All the projects, and the one that is open.
#[derive(Debug)]
pub struct AppData {
    pub projects: Vec<Project>,
    pub current_project: usize,
}

impl Todo {
    /// An open todo with the given title, line and time of making.
    pub fn made_at(title: String, line_num: usize, created_at: (i64, u32)) -> (t: Todo)
        ensures
            t@ == (TodoModel { title: title@, completed: false, line_num: line_num as nat, created_at }),
    {
        Todo { title, completed: false, line_num, created_at }
    }

    /// An open todo with the given title and line, made now; `None` when the
    /// clock cannot be read.
    pub fn new(title: String, line_num: usize) -> (t: Option<Todo>)
        ensures
            t matches Some(t) ==> {
                &&& t.title@ == title@
                &&& !t.completed
                &&& t.line_num == line_num
                &&& clock_reading(t.created_at)
            },
    {
        match now() {
            Some(stamp) => Some(Todo::made_at(title, line_num, stamp)),
            None => None,
        }
    }
}

/// Tells whether `a` may stand before `b`, in the sense of [`precedes`].
pub fn todo_precedes(a: &Todo, b: &Todo) -> (r: bool)
    ensures
        r == precedes(a@, b@),
{
    if a.completed != b.completed {
        !a.completed
    } else {
        a.created_at.0 > b.created_at.0 || (a.created_at.0 == b.created_at.0
            && a.created_at.1 >= b.created_at.1)
    }
}

fn insert_todo(out: &mut Vec<Todo>, x: Todo)
    ensures
        todo_models(final(out)@) == insert_in_order(todo_models(old(out)@), x@),
{
    let ghost r = todo_models(out@);
    let mut p: usize = 0;
    while p < out.len() && todo_precedes(&out[p], &x)
        invariant
            p <= out.len(),
            r == todo_models(out@),
            forall|j: int| 0 <= j < p ==> precedes(#[trigger] r[j], x@),
        decreases out.len() - p,
    {
        p = p + 1;
    }
    proof {
        lemma_insert_pos_is(r, x@, p as int);
    }
    out.insert(p, x);
    assert(todo_models(out@) =~= r.insert(p as int, x@));
}

impl Project {
    /// A project with no todos.
    pub fn new(name: String, filename: String) -> (p: Project)
        ensures
            p@ == (ProjectModel { name: name@, filename: filename@, todos: Seq::empty() }),
    {
        let p = Project { name, filename, todos: Vec::new() };
        assert(p@.todos =~= Seq::<TodoModel>::empty());
        p
    }

    /// The number of done todos.
    pub fn completed_count(&self) -> (n: usize)
        ensures
            n == count_completed(self@.todos),
    {
        let ghost s = self@.todos;
        let len = self.todos.len();
        let mut n: usize = 0;
        for i in 0..len
            invariant
                len == self.todos@.len(),
                s == self@.todos,
                n == count_completed(s.take(i as int)),
                n <= i,
        {
            proof {
                assert(s.take(i + 1).drop_last() =~= s.take(i as int));
                assert(s.take(i + 1).last() == self.todos@[i as int]@);
            }
            if self.todos[i].completed {
                n = n + 1;
            }
        }
        assert(s.take(len as int) =~= s);
        n
    }

    /// The number of todos.
    pub fn total_count(&self) -> (n: usize)
        ensures
            n == self@.todos.len(),
    {
        self.todos.len()
    }

    /// Puts the todos in project order: open before done, newest first, todos
    /// that rank the same keeping their order.
    pub fn sort_todos(&mut self)
        ensures
            final(self)@ == (ProjectModel { todos: order_todos(old(self)@.todos), ..old(self)@ }),
            is_ordered(final(self)@.todos),
            final(self)@.todos.to_multiset() == old(self)@.todos.to_multiset(),
    {
        let ghost orig = self@.todos;
        let mut rest: Vec<Todo> = Vec::new();
        std::mem::swap(&mut rest, &mut self.todos);
        let mut out: Vec<Todo> = Vec::new();
        let ghost mut i: int = 0;
        assert(orig.take(0) =~= Seq::<TodoModel>::empty());
        assert(orig.skip(0) =~= orig);
        while rest.len() > 0
            invariant
                0 <= i <= orig.len(),
                todo_models(out@) == order_todos(orig.take(i)),
                todo_models(rest@) == orig.skip(i),
                i + rest@.len() == orig.len(),
            decreases rest.len(),
        {
            let ghost before = rest@;
            let x = rest.remove(0);
            proof {
                assert(todo_models(before)[0] == x@);
                assert(orig.skip(i)[0] == orig[i]);
                assert(x@ == orig[i]);
                assert forall|k: int| 0 <= k < rest@.len() implies #[trigger] todo_models(rest@)[k]
                    == orig.skip(i + 1)[k] by {
                    assert(rest@[k] == before[k + 1]);
                    assert(todo_models(before)[k + 1] == orig.skip(i)[k + 1]);
                }
                assert(todo_models(rest@) =~= orig.skip(i + 1));
                assert(orig.take(i + 1).drop_last() =~= orig.take(i));
                assert(orig.take(i + 1).last() == orig[i]);
            }
            insert_todo(&mut out, x);
            proof {
                i = i + 1;
            }
        }
        proof {
            assert(orig.take(i) =~= orig);
        }
        self.todos = out;
        proof {
            lemma_order_todos_is_ordered(orig);
            lemma_order_todos_permutes(orig);
        }
    }

    /// Adds a todo and puts the todos back in project order.
    pub fn add_todo(&mut self, todo: Todo)
        ensures
            final(self)@ == (ProjectModel {
                todos: order_todos(old(self)@.todos.push(todo@)),
                ..old(self)@
            }),
    {
        self.todos.push(todo);
        assert(self@.todos =~= old(self)@.todos.push(todo@));
        self.sort_todos();
    }
}

impl AppData {
    /// No projects, the first one open.
    pub fn new() -> (d: AppData)
        ensures
            d.projects@.len() == 0,
            d.current_project == 0,
    {
        AppData { projects: Vec::new(), current_project: 0 }
    }
}

impl Default for AppData {
    fn default() -> (d: AppData)
        ensures
            d.projects@.len() == 0,
            d.current_project == 0,
    {
        AppData::new()
    }
}

} // verus!
