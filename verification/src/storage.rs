//! Where the project files lie and how a file becomes a project: its name,
//! its todos in project order, and the name of the file of a new project.

use vstd::prelude::*;
use crate::clock::{clock_reading, now};
use crate::markdown::{
    document_of, is_plain_line, item_models, items_of, lemma_read_after_write, parse_document,
    render_project, render_spec, Document, DocumentModel, ItemModel, TodoLine,
};
use crate::models::{
    is_ordered, lemma_order_todos_is_ordered, lemma_order_todos_keeps_titles,
    lemma_order_todos_permutes, order_todos, titles_and_ticks, Project, ProjectModel, Todo,
    TodoModel, todo_models,
};
use crate::names::{
    alphanumeric, ascii_sanitized_at, ascii_stem, clean_filename, clean_name, is_ascii_alnum,
    is_ascii_text, lemma_clean_name_tidy, safe_file_name, sanitized_at, stem_char,
};
use crate::paths::{join, join_path};
use crate::text::{
    chars_of, decimal_int, decimal_nat, lemma_decimal_digits, push_decimal_i64, string_from_chars,
};

verus! {

/// `f` with every trailing `.md` taken off, as `trim_end_matches(".md")` does.
pub open spec fn trim_md(f: Seq<char>) -> Seq<char>
    decreases f.len(),
{
    if f.len() >= 3 && f.skip(f.len() - 3) == seq!['.', 'm', 'd'] {
        trim_md(f.take(f.len() - 3))
    } else {
        f
    }
}

/// The todos of a file's checkbox lines, the `i`-th made at `stamps[i]`.
pub open spec fn todos_from_items(items: Seq<ItemModel>, stamps: Seq<(i64, u32)>) -> Seq<TodoModel> {
    Seq::new(
        items.len(),
        |i: int|
            TodoModel {
                title: items[i].0,
                completed: items[i].1,
                line_num: items[i].2,
                created_at: stamps[i],
            },
    )
}

/// The project that the file `filename` holds when it says `d`: named by its
/// heading, or else by the file name without `.md`, with the todos of its
/// checkbox lines in project order.
pub open spec fn project_of_document(
    filename: Seq<char>,
    d: DocumentModel,
    stamps: Seq<(i64, u32)>,
) -> ProjectModel {
    ProjectModel {
        name: match d.title {
            Some(t) => t,
            None => trim_md(filename),
        },
        filename,
        todos: order_todos(todos_from_items(d.items, stamps)),
    }
}

/// What loading gives back of a saved project: the text that
/// [`Storage::project_text`] writes for `p`, read back by
/// [`Storage::load_project`] under `p`'s file name, is a project with `p`'s
/// name and file name, and with as many todos, carrying the same titles and
/// ticks (in project order, so as a multiset), whatever instants the todos
/// are stamped with; this when the name and the titles are plain lines.
pub proof fn lemma_load_after_save(p: ProjectModel, stamps: Seq<(i64, u32)>)
    requires
        is_plain_line(p.name),
        forall|i: int| 0 <= i < p.todos.len() ==> is_plain_line(#[trigger] p.todos[i].title),
        stamps.len() == p.todos.len(),
    ensures
        ({
            let q = project_of_document(p.filename, document_of(render_spec(p)), stamps);
            &&& q.name == p.name
            &&& q.filename == p.filename
            &&& q.todos.len() == p.todos.len()
            &&& titles_and_ticks(q.todos).to_multiset() == titles_and_ticks(p.todos).to_multiset()
            &&& is_ordered(q.todos)
        }),
{
    lemma_read_after_write(p);
    let u = todos_from_items(items_of(p.todos), stamps);
    assert(titles_and_ticks(u) =~= titles_and_ticks(p.todos));
    lemma_order_todos_keeps_titles(u);
    lemma_order_todos_permutes(u);
    lemma_order_todos_is_ordered(u);
}

/// Takes every trailing `.md` off a file name.
pub fn trim_md_suffix(f: &str) -> (r: String)
    ensures
        r@ == trim_md(f@),
{
    let mut v = chars_of(f);
    while v.len() >= 3 && v[v.len() - 3] == '.' && v[v.len() - 2] == 'm' && v[v.len() - 1] == 'd'
        invariant
            trim_md(v@) == trim_md(f@),
        decreases v.len(),
    {
        let ghost before = v@;
        assert(before.skip(before.len() - 3) =~= seq!['.', 'm', 'd']);
        v.pop();
        v.pop();
        v.pop();
        assert(v@ =~= before.take(before.len() - 3));
    }
    proof {
        if v@.len() >= 3 && v@.skip(v@.len() - 3) == seq!['.', 'm', 'd'] {
            assert(v@.skip(v@.len() - 3)[0] == v@[v@.len() - 3]);
            assert(v@.skip(v@.len() - 3)[1] == v@[v@.len() - 2]);
            assert(v@.skip(v@.len() - 3)[2] == v@[v@.len() - 1]);
        }
    }
    string_from_chars(v.as_slice())
}

impl Project {
    /// The project that the file `filename` holds when it says `doc`, the
    /// todo of the `i`-th checkbox line made at `stamps[i]`.
    pub fn from_document(filename: String, doc: Document, stamps: &[(i64, u32)]) -> (p: Project)
        requires
            stamps@.len() == doc@.items.len(),
        ensures
            p@ == project_of_document(filename@, doc@, stamps@),
            is_ordered(p@.todos),
    {
        let ghost dv = doc@;
        let Document { title, items } = doc;
        let name = match title {
            Some(t) => t,
            None => trim_md_suffix(filename.as_str()),
        };
        let mut todos: Vec<Todo> = Vec::new();
        let mut items = items;
        let ghost all = dv.items;
        let n = items.len();
        let mut i: usize = 0;
        assert(item_models(items@) =~= all.skip(0));
        while items.len() > 0
            invariant
                i + items@.len() == n,
                n == all.len(),
                n == stamps@.len(),
                item_models(items@) == all.skip(i as int),
                todo_models(todos@) == todos_from_items(all, stamps@).take(i as int),
                todos@.len() == i,
            decreases items.len(),
        {
            let ghost before = items@;
            let it = items.remove(0);
            proof {
                assert(item_models(before)[0] == it@);
                assert(all.skip(i as int)[0] == all[i as int]);
                assert forall|k: int| 0 <= k < items@.len() implies #[trigger] item_models(items@)[k] == all.skip(i + 1)[k] by {
                    assert(items@[k] == before[k + 1]);
                    assert(item_models(before)[k + 1] == all.skip(i as int)[k + 1]);
                }
                assert(item_models(items@) =~= all.skip(i + 1));
            }
            let ghost itv = it@;
            let ghost prev = todos@;
            let TodoLine { title, completed, line_num } = it;
            todos.push(Todo { title, completed, line_num, created_at: stamps[i] });
            proof {
                let want = todos_from_items(all, stamps@);
                assert(itv == all[i as int]);
                assert(todos@[i as int]@ == want[i as int]);
                assert forall|k: int| 0 <= k < i implies #[trigger] todo_models(todos@)[k] == want.take(i + 1)[k] by {
                    assert(todos@[k] == prev[k]);
                    assert(todo_models(prev)[k] == want.take(i as int)[k]);
                }
                assert(todo_models(todos@) =~= want.take(i + 1));
            }
            i = i + 1;
        }
        assert(todos_from_items(all, stamps@).take(n as int) =~= todos_from_items(all, stamps@));
        let mut p = Project { name, filename, todos };
        p.sort_todos();
        proof {
            lemma_order_todos_is_ordered(todos_from_items(all, stamps@));
        }
        p
    }
}

/// Tells whether a directory entry named `name` is a project file: its
/// extension, as `Path::extension` finds it, is `md`.
pub open spec fn is_project_file_name(name: Seq<char>) -> bool {
    name.len() >= 4 && name.skip(name.len() - 3) == seq!['.', 'm', 'd']
}

/// Where the project files lie.
pub struct Storage {
    donut_dir: Vec<u8>,
}

impl View for Storage {
    type V = Seq<u8>;

    closed spec fn view(&self) -> Seq<u8> {
        self.donut_dir@
    }
}

impl Storage {
    /// Project files in the directory whose path is `donut_dir`.
    pub fn new(donut_dir: Vec<u8>) -> (s: Storage)
        ensures
            s@ == donut_dir@,
    {
        Storage { donut_dir }
    }

    /// The path of the directory of the project files.
    pub fn dir(&self) -> (d: &[u8])
        ensures
            d@ == self@,
    {
        self.donut_dir.as_slice()
    }

    /// The path of the project file named `filename`.
    pub fn project_path(&self, filename: &[u8]) -> (p: Vec<u8>)
        ensures
            p@ == join_path(self@, filename@),
    {
        join(self.donut_dir.as_slice(), filename)
    }

    /// Tells whether a directory entry named `name` holds a project.
    pub fn is_project_file(name: &str) -> (b: bool)
        ensures
            b == is_project_file_name(name@),
    {
        let v = chars_of(name);
        let n = v.len();
        let b = n >= 4 && v[n - 3] == '.' && v[n - 2] == 'm' && v[n - 1] == 'd';
        proof {
            if n >= 4 {
                let t = v@.skip(n - 3);
                if b {
                    assert(t =~= seq!['.', 'm', 'd']);
                } else if t == seq!['.', 'm', 'd'] {
                    assert(t[0] == v@[n - 3] && t[1] == v@[n - 2] && t[2] == v@[n - 1]);
                }
            }
        }
        b
    }

    /// The text to write into a project's file.
    pub fn project_text(project: &Project) -> (s: String)
        ensures
            s@ == render_spec(project@),
    {
        render_project(project)
    }

    /// The project that the file `filename` holds when its text is `content`,
    /// each todo made at the moment it is read; `None` when the clock cannot
    /// be read for a todo.
    pub fn load_project(filename: &str, content: &str) -> (p: Option<Project>)
        ensures
            p matches Some(p) ==> exists|stamps: Seq<(i64, u32)>|
                {
                    &&& stamps.len() == document_of(content@).items.len()
                    &&& forall|i: int| 0 <= i < stamps.len() ==> clock_reading(#[trigger] stamps[i])
                    &&& p@ == project_of_document(filename@, document_of(content@), stamps)
                },
            document_of(content@).items.len() == 0 ==> p is Some,
    {
        let doc = parse_document(content);
        let mut stamps: Vec<(i64, u32)> = Vec::new();
        assert(doc@.items.len() == doc.items@.len());
        for i in 0..doc.items.len()
            invariant
                doc@ == document_of(content@),
                doc@.items.len() == doc.items@.len(),
                stamps@.len() == i,
                forall|j: int| 0 <= j < stamps@.len() ==> clock_reading(#[trigger] stamps@[j]),
        {
            match now() {
                Some(t) => stamps.push(t),
                None => return None,
            }
        }
        let p = Project::from_document(String::from_str(filename), doc, stamps.as_slice());
        Some(p)
    }

    /// The file name for a new project called `name` when the clock reads
    /// `secs`.
    pub fn sanitize_filename_at(name: &str, secs: i64) -> (f: String)
        ensures
            f@ == sanitized_at(name@, secs),
            safe_file_name(f@),
            is_ascii_text(name@) ==> f@ == ascii_sanitized_at(name@, secs),
    {
        let c = clean_filename(name);
        proof {
            lemma_clean_name_tidy(name@);
        }
        Storage::finish_filename(c, secs)
    }

    fn finish_filename(c: Vec<char>, secs: i64) -> (f: String)
        requires
            forall|i: int| 0 <= i < c@.len() ==> stem_char(#[trigger] c@[i]),
            c@.len() > 0 ==> c@[0] != '-',
        ensures
            f@ == (if c@.len() == 0 {
                seq!['p', 'r', 'o', 'j', 'e', 'c', 't', '-'] + decimal_int(secs as int)
            } else {
                c@ + seq!['.', 'm', 'd']
            }),
            safe_file_name(f@),
    {
        let mut out = c;
        if out.len() == 0 {
            out.push('p');
            out.push('r');
            out.push('o');
            out.push('j');
            out.push('e');
            out.push('c');
            out.push('t');
            out.push('-');
            let ghost head = out@;
            push_decimal_i64(&mut out, secs);
            assert(head =~= seq!['p', 'r', 'o', 'j', 'e', 'c', 't', '-']);
            proof {
                let d = decimal_int(secs as int);
                let m: nat = if secs < 0 { (-secs) as nat } else { secs as nat };
                lemma_decimal_digits(m);
                assert forall|i: int| 0 <= i < out@.len() implies #[trigger] out@[i] != '/' && out@[i] != '\\'
                    && (out@[i] == '-' || out@[i] == '.' || is_ascii_alnum(out@[i]) || alphanumeric(out@[i])) by {
                    if i >= 8 {
                        assert(out@[i] == d[i - 8]);
                        if secs < 0 {
                            if i > 8 {
                                assert(d[i - 8] == decimal_nat(m)[i - 9]);
                            }
                        } else {
                            assert(d[i - 8] == decimal_nat(m)[i - 8]);
                        }
                    }
                }
            }
        } else {
            out.push('.');
            out.push('m');
            out.push('d');
            assert(out@ =~= c@ + seq!['.', 'm', 'd']);
            proof {
                assert forall|i: int| 0 <= i < out@.len() implies #[trigger] out@[i] != '/' && out@[i] != '\\'
                    && (out@[i] == '-' || out@[i] == '.' || is_ascii_alnum(out@[i]) || alphanumeric(out@[i])) by {
                    if i < c@.len() {
                        assert(out@[i] == c@[i]);
                        assert(stem_char(c@[i]));
                    }
                }
                assert(stem_char(c@[0]));
            }
        }
        string_from_chars(out.as_slice())
    }

    /// The file name for a new project called `name`; the clock is read only
    /// when the name leaves no stem, and `None` comes when it cannot be read
    /// then.
    pub fn sanitize_filename(name: &str) -> (f: Option<String>)
        ensures
            f matches Some(f) ==> (exists|secs: i64| secs >= 0 && f@ == sanitized_at(name@, secs))
                && safe_file_name(f@),
            clean_name(name@).len() > 0 ==> (f matches Some(f) && f@ == clean_name(name@) + seq![
                '.',
                'm',
                'd',
            ]),
            is_ascii_text(name@) ==> (f matches Some(f) ==> exists|secs: i64|
                secs >= 0 && f@ == ascii_sanitized_at(name@, secs)),
            is_ascii_text(name@) && ascii_stem(name@).len() > 0 ==> (f matches Some(f) && f@
                == ascii_stem(name@) + seq!['.', 'm', 'd']),
    {
        let c = clean_filename(name);
        proof {
            lemma_clean_name_tidy(name@);
        }
        if c.len() == 0 {
            match now() {
                Some(t) => {
                    let f = Storage::finish_filename(c, t.0);
                    assert(f@ == sanitized_at(name@, t.0));
                    assert(is_ascii_text(name@) ==> f@ == ascii_sanitized_at(name@, t.0));
                    Some(f)
                },
                None => None,
            }
        } else {
            let f = Storage::finish_filename(c, 0);
            assert(f@ == sanitized_at(name@, 0));
            assert(is_ascii_text(name@) ==> f@ == ascii_sanitized_at(name@, 0));
            Some(f)
        }
    }
}

} // verus!
