//! The text of a project file: Markdown with a `# Title` heading and
//! `- [ ]` / `- [x]` checkbox lines. Reading the text, writing it, and what a
//! read gives back of a write.

use vstd::prelude::*;
use crate::models::{Project, ProjectModel, TodoModel};
use crate::text::{chars_of, extend_chars, is_whitespace, is_ws, string_from_chars};

verus! {


/// `t` without one trailing carriage return.
pub open spec fn strip_cr(t: Seq<char>) -> Seq<char> {
    if t.len() > 0 && t.last() == '\r' {
        t.drop_last()
    } else {
        t
    }
}

/// Reading `s` from the start: the lines ended so far (each without its line
/// feed and without a carriage return just before it) and the line begun last.
pub open spec fn split_lines(s: Seq<char>) -> (Seq<Seq<char>>, Seq<char>)
    decreases s.len(),
{
    if s.len() == 0 {
        (Seq::empty(), Seq::empty())
    } else {
        let (done, cur) = split_lines(s.drop_last());
        if s.last() == '\n' {
            (done.push(strip_cr(cur)), Seq::empty())
        } else {
            (done, cur.push(s.last()))
        }
    }
}

/// The lines of `s`, as `str::lines` gives them: split at line feeds, a
/// carriage return before a line feed dropped, no empty line after the last
/// line feed.
pub open spec fn lines_of(s: Seq<char>) -> Seq<Seq<char>> {
    let (done, cur) = split_lines(s);
    if cur.len() == 0 {
        done
    } else {
        done.push(cur)
    }
}

/// The number of whitespace characters that `r` starts with.
pub open spec fn ws_prefix_len(r: Seq<char>) -> nat
    decreases r.len(),
{
    if r.len() > 0 && is_ws(r[0]) {
        1 + ws_prefix_len(r.drop_first())
    } else {
        0
    }
}

/// What the pattern `\s+(.+)$` captures at the start of `r`: the text after
/// the whitespace, or the last character when `r` is all whitespace, since the
/// capture takes at least one character.
pub open spec fn spaced_rest(r: Seq<char>) -> Option<Seq<char>> {
    let w = ws_prefix_len(r);
    if w == 0 {
        None
    } else if w < r.len() {
        Some(r.skip(w as int))
    } else if r.len() >= 2 {
        Some(r.skip(r.len() - 1))
    } else {
        None
    }
}

/// The title of a heading line `#\s+(.+)`.
#[verifier::opaque]
pub open spec fn heading_of(line: Seq<char>) -> Option<Seq<char>> {
    if line.len() > 0 && line[0] == '#' {
        spaced_rest(line.drop_first())
    } else {
        None
    }
}

/// Whether a checkbox line `-\s+\[([ x])\]\s+(.+)` is ticked, and its title.
#[verifier::opaque]
pub open spec fn checkbox_of(line: Seq<char>) -> Option<(bool, Seq<char>)> {
    if line.len() > 0 && line[0] == '-' {
        let r = line.drop_first();
        let w = ws_prefix_len(r) as int;
        if w >= 1 && r.len() >= w + 3 && r[w] == '[' && (r[w + 1] == ' ' || r[w + 1]
            == 'x') && r[w + 2] == ']' {
            match spaced_rest(r.skip(w + 3)) {
                Some(t) => Some((r[w + 1] == 'x', t)),
                None => None,
            }
        } else {
            None
        }
    } else {
        None
    }
}

/// A checkbox line read from a file.
pub struct TodoLine {
    pub title: String,
    pub completed: bool,
    /// The line number, counting from one.
    pub line_num: usize,
}

/// What a project file says: its title, if it has a heading, and its
/// checkbox lines.
pub struct Document {
    pub title: Option<String>,
    pub items: Vec<TodoLine>,
}

/// A checkbox line as mathematical values: title, ticked, line number.
pub type ItemModel = (Seq<char>, bool, nat);

/// What a project file says, as mathematical values.
pub struct DocumentModel {
    pub title: Option<Seq<char>>,
    pub items: Seq<ItemModel>,
}

impl View for TodoLine {
    type V = ItemModel;

    open spec fn view(&self) -> ItemModel {
        (self.title@, self.completed, self.line_num as nat)
    }
}

impl View for Document {
    type V = DocumentModel;

    open spec fn view(&self) -> DocumentModel {
        DocumentModel {
            title: match self.title {
                Some(t) => Some(t@),
                None => None,
            },
            items: item_models(self.items@),
        }
    }
}

/// The models of a sequence of checkbox lines.
pub open spec fn item_models(v: Seq<TodoLine>) -> Seq<ItemModel> {
    v.map_values(|i: TodoLine| i@)
}

/// Line number `n` of a file read after the lines before it: a heading sets
/// the title (the last heading wins), a checkbox line adds an item.
pub open spec fn document_step(d: DocumentModel, line: Seq<char>, n: nat) -> DocumentModel {
    match heading_of(line) {
        Some(h) => DocumentModel { title: Some(h), ..d },
        None => match checkbox_of(line) {
            Some((done, t)) => DocumentModel { items: d.items.push((t, done, n)), ..d },
            None => d,
        },
    }
}

/// What the lines `ls` say, read from the first.
pub open spec fn document_of_lines(ls: Seq<Seq<char>>) -> DocumentModel
    decreases ls.len(),
{
    if ls.len() == 0 {
        DocumentModel { title: None, items: Seq::empty() }
    } else {
        document_step(document_of_lines(ls.drop_last()), ls.last(), ls.len())
    }
}

/// What the text of a project file says.
pub open spec fn document_of(content: Seq<char>) -> DocumentModel {
    document_of_lines(lines_of(content))
}

proof fn lemma_split_lines_len(s: Seq<char>)
    ensures
        split_lines(s).0.len() + split_lines(s).1.len() <= s.len(),
    decreases s.len(),
{
    if s.len() > 0 {
        lemma_split_lines_len(s.drop_last());
    }
}

/// The number of whitespace characters at `v[start..]`.
fn ws_run(v: &[char], start: usize) -> (n: usize)
    requires
        start <= v@.len(),
    ensures
        n == ws_prefix_len(v@.skip(start as int)),
        start + n <= v@.len(),
{
    let mut j = start;
    while j < v.len() && is_whitespace(v[j])
        invariant
            start <= j <= v@.len(),
            ws_prefix_len(v@.skip(start as int)) == (j - start) + ws_prefix_len(v@.skip(j as int)),
        decreases v@.len() - j,
    {
        assert(v@.skip(j as int).drop_first() =~= v@.skip(j + 1));
        j = j + 1;
    }
    j - start
}

/// The characters `v[from..]`.
fn tail_chars(v: &[char], from: usize) -> (t: Vec<char>)
    requires
        from <= v@.len(),
    ensures
        t@ == v@.skip(from as int),
{
    let mut t: Vec<char> = Vec::new();
    let mut j = from;
    while j < v.len()
        invariant
            from <= j <= v@.len(),
            t@ == v@.subrange(from as int, j as int),
        decreases v@.len() - j,
    {
        t.push(v[j]);
        assert(v@.subrange(from as int, j + 1) =~= v@.subrange(from as int, j as int).push(v@[j as int]));
        j = j + 1;
    }
    assert(v@.subrange(from as int, j as int) =~= v@.skip(from as int));
    t
}

/// What `\s+(.+)$` captures of `v[start..]`.
fn spaced_rest_at(v: &[char], start: usize) -> (r: Option<Vec<char>>)
    requires
        start <= v@.len(),
    ensures
        match r {
            Some(t) => spaced_rest(v@.skip(start as int)) == Some(t@),
            None => spaced_rest(v@.skip(start as int)) is None,
        },
{
    let w = ws_run(v, start);
    let len = v.len() - start;
    if w == 0 {
        None
    } else if w < len {
        let t = tail_chars(v, start + w);
        assert(v@.skip(start as int).skip(w as int) =~= v@.skip(start + w));
        Some(t)
    } else if len >= 2 {
        let t = tail_chars(v, v.len() - 1);
        assert(v@.skip(start as int).skip(len - 1) =~= v@.skip(v@.len() - 1));
        Some(t)
    } else {
        None
    }
}

/// The title of the heading line `line`, if it is one.
fn heading_in(line: &[char]) -> (r: Option<Vec<char>>)
    ensures
        match r {
            Some(t) => heading_of(line@) == Some(t@),
            None => heading_of(line@) is None,
        },
{
    reveal(heading_of);
    if line.len() > 0 && line[0] == '#' {
        assert(line@.drop_first() =~= line@.skip(1));
        spaced_rest_at(line, 1)
    } else {
        None
    }
}

/// Whether the checkbox line `line` is ticked, and its title, if it is one.
fn checkbox_in(line: &[char]) -> (r: Option<(bool, Vec<char>)>)
    ensures
        match r {
            Some((done, t)) => checkbox_of(line@) == Some((done, t@)),
            None => checkbox_of(line@) is None,
        },
{
    reveal(checkbox_of);
    if line.len() == 0 || line[0] != '-' {
        return None;
    }
    let ghost r = line@.drop_first();
    assert(r =~= line@.skip(1));
    let w = ws_run(line, 1);
    if w >= 1 && line.len() - 1 - w >= 3 && line[1 + w] == '[' && (line[2 + w] == ' '
        || line[2 + w] == 'x') && line[3 + w] == ']' {
        assert(r[w as int] == line@[1 + w]);
        assert(r[w + 1] == line@[2 + w]);
        assert(r[w + 2] == line@[3 + w]);
        assert(r.skip(w + 3) =~= line@.skip(4 + w));
        match spaced_rest_at(line, 4 + w) {
            Some(t) => Some((line[2 + w] == 'x', t)),
            None => None,
        }
    } else {
        proof {
            if w >= 1 && r.len() >= w + 3 {
                assert(r[w as int] == line@[1 + w]);
                assert(r[w + 1] == line@[2 + w]);
                assert(r[w + 2] == line@[3 + w]);
            }
        }
        None
    }
}

/// Reads line number `n` into `doc`.
fn read_line(doc: &mut Document, line: &[char], n: usize)
    ensures
        final(doc)@ == document_step(old(doc)@, line@, n as nat),
{
    match heading_in(line) {
        Some(h) => {
            doc.title = Some(string_from_chars(h.as_slice()));
        },
        None => match checkbox_in(line) {
            Some((done, t)) => {
                let item = TodoLine {
                    title: string_from_chars(t.as_slice()),
                    completed: done,
                    line_num: n,
                };
                doc.items.push(item);
                assert(doc@.items =~= old(doc)@.items.push((t@, done, n as nat)));
            },
            None => {},
        },
    }
}

/// `v` without one trailing carriage return.
fn without_cr(v: Vec<char>) -> (r: Vec<char>)
    ensures
        r@ == strip_cr(v@),
{
    let mut v = v;
    if v.len() > 0 && v[v.len() - 1] == '\r' {
        v.pop();
    }
    v
}

/// Reads the text of a project file.
pub fn parse_document(content: &str) -> (d: Document)
    ensures
        d@ == document_of(content@),
{
    let v = chars_of(content);
    let mut doc = Document { title: None, items: Vec::new() };
    let mut cur: Vec<char> = Vec::new();
    let mut n: usize = 0;
    assert(v@.take(0) =~= Seq::<char>::empty());
    assert(doc@.items =~= Seq::<ItemModel>::empty());
    for i in 0..v.len()
        invariant
            v@ == content@,
            split_lines(v@.take(i as int)).1 == cur@,
            doc@ == document_of_lines(split_lines(v@.take(i as int)).0),
            n == split_lines(v@.take(i as int)).0.len(),
    {
        let ghost prefix = v@.take(i + 1);
        assert(prefix.drop_last() =~= v@.take(i as int));
        assert(prefix.last() == v@[i as int]);
        proof {
            lemma_split_lines_len(v@.take(i as int));
        }
        let c = v[i];
        if c == '\n' {
            let line = without_cr(cur);
            let ghost done = split_lines(v@.take(i as int)).0;
            assert(done.push(line@).drop_last() =~= done);
            read_line(&mut doc, line.as_slice(), n + 1);
            n = n + 1;
            cur = Vec::new();
            assert(cur@ =~= Seq::<char>::empty());
        } else {
            cur.push(c);
        }
    }
    assert(v@.take(v@.len() as int) =~= v@);
    if cur.len() > 0 {
        proof {
            lemma_split_lines_len(v@);
        }
        let ghost done = split_lines(v@).0;
        assert(done.push(cur@).drop_last() =~= done);
        read_line(&mut doc, cur.as_slice(), n + 1);
    }
    doc
}


/// The checkbox line of a todo, without its line feed: `- [x] title` when it
/// is done, `- [ ] title` when it is open.
pub open spec fn checkbox_text(t: TodoModel) -> Seq<char> {
    seq!['-', ' ', '[', if t.completed { 'x' } else { ' ' }, ']', ' '] + t.title
}

/// The checkbox lines of `ts`, each ended by a line feed.
pub open spec fn todo_block(ts: Seq<TodoModel>) -> Seq<char>
    decreases ts.len(),
{
    if ts.len() == 0 {
        Seq::empty()
    } else {
        todo_block(ts.drop_last()) + checkbox_text(ts.last()) + seq!['\n']
    }
}

/// The heading line of a project, without its line feed.
pub open spec fn heading_text(name: Seq<char>) -> Seq<char> {
    seq!['#', ' '] + name
}

/// The text of a project file: the heading, an empty line, then one checkbox
/// line per todo.
pub open spec fn render_spec(p: ProjectModel) -> Seq<char> {
    heading_text(p.name) + seq!['\n', '\n'] + todo_block(p.todos)
}

/// Writes a project out as the text of its file.
pub fn render_project(p: &Project) -> (s: String)
    ensures
        s@ == render_spec(p@),
{
    let mut out: Vec<char> = Vec::new();
    out.push('#');
    out.push(' ');
    let name = chars_of(p.name.as_str());
    extend_chars(&mut out, name.as_slice());
    out.push('\n');
    out.push('\n');
    let ghost head = out@;
    assert(head =~= heading_text(p@.name) + seq!['\n', '\n']);
    let ghost ts = p@.todos;
    assert(ts.take(0) =~= Seq::<TodoModel>::empty());
    assert(head + todo_block(ts.take(0)) =~= head);
    for i in 0..p.todos.len()
        invariant
            ts == p@.todos,
            out@ == head + todo_block(ts.take(i as int)),
    {
        let t = &p.todos[i];
        out.push('-');
        out.push(' ');
        out.push('[');
        out.push(if t.completed { 'x' } else { ' ' });
        out.push(']');
        out.push(' ');
        let title = chars_of(t.title.as_str());
        extend_chars(&mut out, title.as_slice());
        out.push('\n');
        proof {
            assert(ts.take(i + 1).drop_last() =~= ts.take(i as int));
            assert(ts.take(i + 1).last() == t@);
            assert(out@ =~= head + todo_block(ts.take(i + 1)));
        }
    }
    assert(ts.take(p.todos@.len() as int) =~= ts);
    string_from_chars(out.as_slice())
}

/// A line that reads back as it was written: not empty, not starting with
/// whitespace, without line feeds, not ending with a carriage return.
pub open spec fn is_plain_line(t: Seq<char>) -> bool {
    &&& t.len() > 0
    &&& !is_ws(t[0])
    &&& !t.contains('\n')
    &&& t.last() != '\r'
}

/// The checkbox lines that a file written from `ts` holds: the todos' titles
/// and ticks, on the lines from the third on.
pub open spec fn items_of(ts: Seq<TodoModel>) -> Seq<ItemModel> {
    Seq::new(ts.len(), |i: int| (ts[i].title, ts[i].completed, (i + 3) as nat))
}

/// The lines of a file written from `p`.
pub open spec fn rendered_lines(p: ProjectModel) -> Seq<Seq<char>> {
    seq![heading_text(p.name), Seq::<char>::empty()] + Seq::new(
        p.todos.len(),
        |i: int| checkbox_text(p.todos[i]),
    )
}

proof fn lemma_split_no_newline(a: Seq<char>, pre: Seq<char>)
    requires
        !pre.contains('\n'),
    ensures
        split_lines(a + pre) == (split_lines(a).0, split_lines(a).1 + pre),
    decreases pre.len(),
{
    if pre.len() == 0 {
        assert(a + pre =~= a);
        assert(split_lines(a).1 + pre =~= split_lines(a).1);
    } else {
        assert((a + pre).drop_last() =~= a + pre.drop_last());
        assert((a + pre).last() == pre.last());
        assert(pre.last() == pre[pre.len() - 1]);
        assert forall|k: int| 0 <= k < pre.drop_last().len() implies pre.drop_last()[k] != '\n' by {
            assert(pre.drop_last()[k] == pre[k]);
        }
        lemma_split_no_newline(a, pre.drop_last());
        assert(split_lines(a).1 + pre.drop_last().push(pre.last()) =~= split_lines(a).1 + pre);
    }
}

proof fn lemma_split_line(a: Seq<char>, line: Seq<char>)
    requires
        split_lines(a).1.len() == 0,
        !line.contains('\n'),
    ensures
        split_lines(a + line + seq!['\n']) == (split_lines(a).0.push(strip_cr(line)), Seq::<char>::empty()),
{
    lemma_split_no_newline(a, line);
    let b = a + line + seq!['\n'];
    assert(b.drop_last() =~= a + line);
    assert(split_lines(a).1 + line =~= line);
}

proof fn lemma_no_newline_in_checkbox(t: TodoModel)
    requires
        !t.title.contains('\n'),
    ensures
        !checkbox_text(t).contains('\n'),
{
    let c = checkbox_text(t);
    assert forall|k: int| 0 <= k < c.len() implies c[k] != '\n' by {
        if k >= 6 {
            assert(c[k] == t.title[k - 6]);
        }
    }
}

proof fn lemma_split_rendered(p: ProjectModel)
    requires
        is_plain_line(p.name),
        forall|i: int| 0 <= i < p.todos.len() ==> is_plain_line(#[trigger] p.todos[i].title),
    ensures
        split_lines(render_spec(p)) == (rendered_lines(p), Seq::<char>::empty()),
    decreases p.todos.len(),
{
    let h = heading_text(p.name);
    if p.todos.len() == 0 {
        assert forall|k: int| 0 <= k < h.len() implies h[k] != '\n' by {
            if k >= 2 {
                assert(h[k] == p.name[k - 2]);
            }
        }
        assert(h.last() == p.name.last());
        lemma_split_line(Seq::<char>::empty(), h);
        assert(Seq::<char>::empty() + h + seq!['\n'] =~= h + seq!['\n']);
        assert(split_lines(Seq::<char>::empty()) == (Seq::<Seq<char>>::empty(), Seq::<char>::empty()));
        lemma_split_line(h + seq!['\n'], Seq::<char>::empty());
        assert(h + seq!['\n'] + Seq::<char>::empty() + seq!['\n'] =~= render_spec(p));
        assert(strip_cr(Seq::<char>::empty()) == Seq::<char>::empty());
        assert(Seq::<Seq<char>>::empty().push(strip_cr(h)).push(Seq::<char>::empty()) =~= rendered_lines(p));
    } else {
        let q = ProjectModel { todos: p.todos.drop_last(), ..p };
        assert forall|i: int| 0 <= i < q.todos.len() implies is_plain_line(#[trigger] q.todos[i].title) by {
            assert(q.todos[i] == p.todos[i]);
        }
        lemma_split_rendered(q);
        let t = p.todos.last();
        assert(is_plain_line(p.todos[p.todos.len() - 1].title));
        lemma_no_newline_in_checkbox(t);
        lemma_split_line(render_spec(q), checkbox_text(t));
        assert(render_spec(q) + checkbox_text(t) + seq!['\n'] =~= render_spec(p));
        assert(checkbox_text(t).last() == t.title.last());
        assert(strip_cr(checkbox_text(t)) == checkbox_text(t));
        assert(rendered_lines(q).push(checkbox_text(t)) =~= rendered_lines(p));
    }
}

proof fn lemma_ws_prefix_zero(r: Seq<char>)
    requires
        r.len() == 0 || !is_ws(r[0]),
    ensures
        ws_prefix_len(r) == 0,
{
}

proof fn lemma_spaced_rest_of_plain(t: Seq<char>)
    requires
        is_plain_line(t),
    ensures
        spaced_rest(seq![' '] + t) == Some(t),
{
    let r = seq![' '] + t;
    assert(r.drop_first() =~= t);
    lemma_ws_prefix_zero(t);
    assert(ws_prefix_len(r) == 1);
    assert(r.skip(1) =~= t);
}

proof fn lemma_heading_of_heading_text(name: Seq<char>)
    requires
        is_plain_line(name),
    ensures
        heading_of(heading_text(name)) == Some(name),
{
    reveal(heading_of);
    let h = heading_text(name);
    assert(h.drop_first() =~= seq![' '] + name);
    lemma_spaced_rest_of_plain(name);
}

proof fn lemma_checkbox_of_checkbox_text(t: TodoModel)
    requires
        is_plain_line(t.title),
    ensures
        heading_of(checkbox_text(t)) is None,
        checkbox_of(checkbox_text(t)) == Some((t.completed, t.title)),
{
    reveal(heading_of);
    reveal(checkbox_of);
    let c = checkbox_text(t);
    let r = c.drop_first();
    assert(r.drop_first()[0] == '[');
    lemma_ws_prefix_zero(r.drop_first());
    assert(ws_prefix_len(r) == 1);
    assert(r.skip(4) =~= seq![' '] + t.title);
    lemma_spaced_rest_of_plain(t.title);
}

proof fn lemma_read_rendered_lines(p: ProjectModel)
    requires
        is_plain_line(p.name),
        forall|i: int| 0 <= i < p.todos.len() ==> is_plain_line(#[trigger] p.todos[i].title),
    ensures
        document_of_lines(rendered_lines(p)) == (DocumentModel {
            title: Some(p.name),
            items: items_of(p.todos),
        }),
    decreases p.todos.len(),
{
    let h = heading_text(p.name);
    let ls = rendered_lines(p);
    if p.todos.len() == 0 {
        lemma_heading_of_heading_text(p.name);
        assert(ls.drop_last() =~= seq![h]);
        assert(seq![h].drop_last() =~= Seq::<Seq<char>>::empty());
        assert(seq![h].last() == h);
        assert(ls.last() == Seq::<char>::empty());
        assert(heading_of(Seq::<char>::empty()) is None) by {
            reveal(heading_of);
        }
        assert(checkbox_of(Seq::<char>::empty()) is None) by {
            reveal(checkbox_of);
        }
        assert(items_of(p.todos) =~= Seq::<ItemModel>::empty());
        let d0 = DocumentModel { title: None, items: Seq::<ItemModel>::empty() };
        assert(document_of_lines(Seq::<Seq<char>>::empty()) == d0);
        let d1 = DocumentModel { title: Some(p.name), items: Seq::<ItemModel>::empty() };
        assert(document_step(d0, h, 1) == d1);
        assert(document_of_lines(seq![h]) == d1);
        assert(document_step(d1, Seq::<char>::empty(), 2) == d1);
    } else {
        let q = ProjectModel { todos: p.todos.drop_last(), ..p };
        assert forall|i: int| 0 <= i < q.todos.len() implies is_plain_line(#[trigger] q.todos[i].title) by {
            assert(q.todos[i] == p.todos[i]);
        }
        lemma_read_rendered_lines(q);
        let t = p.todos.last();
        assert(is_plain_line(p.todos[p.todos.len() - 1].title));
        lemma_checkbox_of_checkbox_text(t);
        assert(ls.drop_last() =~= rendered_lines(q));
        assert(ls.last() == checkbox_text(t));
        assert(items_of(q.todos).push((t.title, t.completed, (ls.len()) as nat)) =~= items_of(
            p.todos,
        ));
        let dq = document_of_lines(rendered_lines(q));
        assert(document_step(dq, checkbox_text(t), ls.len()) == DocumentModel {
            items: dq.items.push((t.title, t.completed, ls.len())),
            ..dq
        });
    }
}

/// What a read gives back of a write: the text written from a project reads
/// back as its name and, in order, its todos' titles and ticks, on the lines
/// after the heading and the empty line, when the name and the titles are
/// plain lines.
pub proof fn lemma_read_after_write(p: ProjectModel)
    requires
        is_plain_line(p.name),
        forall|i: int| 0 <= i < p.todos.len() ==> is_plain_line(#[trigger] p.todos[i].title),
    ensures
        document_of(render_spec(p)) == (DocumentModel {
            title: Some(p.name),
            items: items_of(p.todos),
        }),
{
    lemma_split_rendered(p);
    lemma_read_rendered_lines(p);
}



proof fn lemma_ws_prefix(r: Seq<char>)
    ensures
        ws_prefix_len(r) <= r.len(),
        forall|k: int| 0 <= k < ws_prefix_len(r) ==> is_ws(#[trigger] r[k]),
        ws_prefix_len(r) < r.len() ==> !is_ws(r[ws_prefix_len(r) as int]),
    decreases r.len(),
{
    if r.len() > 0 && is_ws(r[0]) {
        let t = r.drop_first();
        lemma_ws_prefix(t);
        assert forall|k: int| 0 <= k < ws_prefix_len(r) implies is_ws(#[trigger] r[k]) by {
            if k > 0 {
                assert(r[k] == t[k - 1]);
            }
        }
        if ws_prefix_len(r) < r.len() {
            assert(r[ws_prefix_len(r) as int] == t[ws_prefix_len(t) as int]);
        }
    }
}

/// What a heading line is, as `^#\s+(.+)$` matches it: a line gives a title
/// only when it starts with `#` and then whitespace (so a `##` line is no
/// heading), and the title is a non-empty end of the line with only
/// whitespace between it and the `#`, starting after all of that whitespace
/// where the line has anything else. Every line of at least three characters
/// that starts with `#` and whitespace is a heading.
pub proof fn lemma_heading_shape(line: Seq<char>)
    ensures
        heading_of(line) matches Some(t) ==> {
            &&& line.len() >= 3
            &&& line[0] == '#'
            &&& is_ws(line[1])
            &&& 0 < t.len() < line.len() - 1
            &&& t == line.skip(line.len() - t.len())
            &&& forall|k: int| 1 <= k < line.len() - t.len() ==> is_ws(#[trigger] line[k])
            &&& (exists|k: int| 1 <= k < line.len() && !is_ws(#[trigger] line[k])) ==> !is_ws(t[0])
        },
        line.len() >= 3 && line[0] == '#' && is_ws(line[1]) ==> heading_of(line) is Some,
        line.len() >= 2 && line[0] == '#' && line[1] == '#' ==> heading_of(line) is None,
{
    reveal(heading_of);
    if line.len() > 0 && line[0] == '#' {
        let r = line.drop_first();
        lemma_ws_prefix(r);
        let w = ws_prefix_len(r);
        if w > 0 {
            assert(is_ws(r[0]));
            assert(r[0] == line[1]);
        }
        if line.len() >= 2 && line[1] == '#' {
            assert(r[0] == line[1]);
            assert(!is_ws(r[0]));
        }
        if let Some(t) = heading_of(line) {
            if w < r.len() {
                assert(t =~= line.skip(line.len() - t.len()));
                assert forall|k: int| 1 <= k < line.len() - t.len() implies is_ws(#[trigger] line[k]) by {
                    assert(line[k] == r[k - 1]);
                }
                assert(t[0] == r[w as int]);
            } else {
                assert(t =~= line.skip(line.len() - t.len()));
                assert forall|k: int| 1 <= k < line.len() - t.len() implies is_ws(#[trigger] line[k]) by {
                    assert(line[k] == r[k - 1]);
                }
                assert forall|k: int| 1 <= k < line.len() implies is_ws(#[trigger] line[k]) by {
                    assert(line[k] == r[k - 1]);
                }
            }
        }
    }
}

/// The title of a file is the title of its last heading line, and there is
/// none when no line is a heading.
pub proof fn lemma_title_is_last_heading(ls: Seq<Seq<char>>)
    ensures
        (document_of_lines(ls).title is None) <==> (forall|i: int|
            0 <= i < ls.len() ==> heading_of(#[trigger] ls[i]) is None),
        document_of_lines(ls).title matches Some(t) ==> exists|i: int|
            0 <= i < ls.len() && heading_of(#[trigger] ls[i]) == Some(t) && forall|j: int|
                i < j < ls.len() ==> heading_of(#[trigger] ls[j]) is None,
    decreases ls.len(),
{
    if ls.len() > 0 {
        let r = ls.drop_last();
        lemma_title_is_last_heading(r);
        let last = ls.len() - 1;
        assert(ls[last] == ls.last());
        assert forall|i: int| 0 <= i < r.len() implies #[trigger] r[i] == ls[i] by {}
        match heading_of(ls.last()) {
            Some(h) => {
                assert(document_of_lines(ls).title == Some(h));
            },
            None => {
                assert(document_of_lines(ls).title == document_of_lines(r).title);
                if let Some(t) = document_of_lines(r).title {
                    let i = choose|i: int|
                        0 <= i < r.len() && heading_of(#[trigger] r[i]) == Some(t) && forall|j: int|
                            i < j < r.len() ==> heading_of(#[trigger] r[j]) is None;
                    assert(heading_of(ls[i]) == Some(t));
                    assert forall|j: int| i < j < ls.len() implies heading_of(#[trigger] ls[j]) is None by {
                        if j < r.len() {
                            assert(heading_of(r[j]) is None);
                        }
                    }
                } else {
                    assert forall|i: int| 0 <= i < ls.len() implies heading_of(#[trigger] ls[i]) is None by {
                        if i < r.len() {
                            assert(heading_of(r[i]) is None);
                        }
                    }
                }
            },
        }
        if document_of_lines(ls).title is None {
            assert(heading_of(ls[last]) is None);
        }
    }
}

} // verus!
