//! File names for new projects: the project's name lowercased, with dashes
//! for everything that is not alphanumeric, and tidied.

use vstd::prelude::*;
use crate::text::{chars_of, decimal_int, extend_chars};

verus! {

/// A name for new text in a file name: `str::to_lowercase` of std. Unicode
/// lowercasing takes tables and context rules to state, so the result is only
/// named.
pub uninterp spec fn lowercase(s: Seq<char>) -> Seq<char>;

/// A name for `char::is_alphanumeric` of std: Unicode Alphabetic or Numeric.
pub uninterp spec fn alphanumeric(c: char) -> bool;

/// `str::to_lowercase` of std; what it returns is named by [`lowercase`].
/// On ASCII text, Unicode lowercasing maps each letter `A`-`Z` to `a`-`z`
/// and leaves every other character as it is.
#[verifier::external_body]
fn to_lowercase(s: &str) -> (r: String)
    ensures
        r@ == lowercase(s@),
        is_ascii_text(s@) ==> r@ == ascii_lower(s@),
{
    s.to_lowercase()
}

/// An ASCII letter or digit.
pub open spec fn is_ascii_alnum(c: char) -> bool {
    ('a' <= c <= 'z') || ('A' <= c <= 'Z') || ('0' <= c <= '9')
}

/// An ASCII character.
pub open spec fn is_ascii_char(c: char) -> bool {
    c <= '\u{7f}'
}

/// Text made only of ASCII characters.
pub open spec fn is_ascii_text(s: Seq<char>) -> bool {
    forall|i: int| 0 <= i < s.len() ==> is_ascii_char(#[trigger] s[i])
}

/// An ASCII capital letter made small; every other character left as it is.
pub open spec fn ascii_lower_char(c: char) -> char {
    if 'A' <= c <= 'Z' {
        ((c as u32) + 32) as char
    } else {
        c
    }
}

/// Every ASCII capital letter of `s` made small.
pub open spec fn ascii_lower(s: Seq<char>) -> Seq<char> {
    s.map_values(|c: char| ascii_lower_char(c))
}

/// `char::is_alphanumeric` of std; what it returns is named by [`alphanumeric`].
/// The documentation makes it Alphabetic or Numeric in Unicode's sense, so
/// among ASCII characters exactly the letters and digits are alphanumeric.
#[verifier::external_body]
fn is_alphanumeric(c: char) -> (b: bool)
    ensures
        b == alphanumeric(c),
        is_ascii_char(c) ==> (b <==> is_ascii_alnum(c)),
{
    c.is_alphanumeric()
}

/// Every character that is not alphanumeric turned into `-`.
pub open spec fn dash_map(s: Seq<char>) -> Seq<char> {
    s.map_values(|c: char| if alphanumeric(c) { c } else { '-' })
}

/// The pieces of `s` between its dashes, as `split('-')` gives them: one more
/// than there are dashes, some of them maybe empty.
pub open spec fn segments(s: Seq<char>) -> Seq<Seq<char>>
    decreases s.len(),
{
    if s.len() == 0 {
        seq![Seq::<char>::empty()]
    } else {
        let segs = segments(s.drop_last());
        if s.last() == '-' {
            segs.push(Seq::empty())
        } else {
            segs.update(segs.len() - 1, segs.last().push(s.last()))
        }
    }
}

/// The non-empty pieces of `l`, in order.
pub open spec fn keep_nonempty(l: Seq<Seq<char>>) -> Seq<Seq<char>>
    decreases l.len(),
{
    if l.len() == 0 {
        l
    } else if l.last().len() == 0 {
        keep_nonempty(l.drop_last())
    } else {
        keep_nonempty(l.drop_last()).push(l.last())
    }
}

/// The pieces of `l` joined with `-` between them.
pub open spec fn join_dash(l: Seq<Seq<char>>) -> Seq<char>
    decreases l.len(),
{
    if l.len() == 0 {
        Seq::empty()
    } else if l.len() == 1 {
        l[0]
    } else {
        join_dash(l.drop_last()) + seq!['-'] + l.last()
    }
}

/// Text whose separators are already dashes, tidied: runs of dashes
/// collapsed into one, and no dash at either end.
pub open spec fn clean_dashed(m: Seq<char>) -> Seq<char> {
    join_dash(keep_nonempty(segments(m)))
}

/// The file name stem made from lowercased text: every character that is not
/// alphanumeric a dash, runs of dashes collapsed into one, and no dash at
/// either end.
pub open spec fn clean_lower(s: Seq<char>) -> Seq<char> {
    clean_dashed(dash_map(s))
}

/// The file name stem made from a project name: [`clean_lower`] of the name
/// lowercased.
pub open spec fn clean_name(name: Seq<char>) -> Seq<char> {
    clean_lower(lowercase(name))
}

/// Every character of ASCII text that is not a letter or digit turned into `-`.
pub open spec fn ascii_dash_map(s: Seq<char>) -> Seq<char> {
    s.map_values(|c: char| if is_ascii_alnum(c) { c } else { '-' })
}

/// The file name stem of an ASCII project name: [`clean_name`] spelt out for
/// ASCII, where lowercasing and alphanumeric characters are plain.
pub open spec fn ascii_stem(name: Seq<char>) -> Seq<char> {
    clean_dashed(ascii_dash_map(ascii_lower(name)))
}

/// A character that may stand in a file name stem: a dash, or an alphanumeric
/// character that is none of `.`, `/` and `\`.
pub open spec fn stem_char(c: char) -> bool {
    c == '-' || (alphanumeric(c) && c != '.' && c != '/' && c != '\\')
}

/// A file name that names a file right inside a directory: not empty, not
/// starting with a dot or a dash, without `/` or `\`, and made of dashes,
/// dots and alphanumeric characters.
pub open spec fn safe_file_name(f: Seq<char>) -> bool {
    &&& f.len() > 0
    &&& f[0] != '.' && f[0] != '-'
    &&& forall|i: int|
        0 <= i < f.len() ==> #[trigger] f[i] != '/' && f[i] != '\\' && (f[i] == '-' || f[i] == '.'
            || is_ascii_alnum(f[i]) || alphanumeric(f[i]))
}

/// The file name for a project called `name` when the clock reads `secs`:
/// the stem with `.md`, or `project-` and the seconds when the stem is empty.
pub open spec fn sanitized_at(name: Seq<char>, secs: i64) -> Seq<char> {
    let c = clean_name(name);
    if c.len() == 0 {
        seq!['p', 'r', 'o', 'j', 'e', 'c', 't', '-'] + decimal_int(secs as int)
    } else {
        c + seq!['.', 'm', 'd']
    }
}

/// [`sanitized_at`] for an ASCII project name, over [`ascii_stem`].
pub open spec fn ascii_sanitized_at(name: Seq<char>, secs: i64) -> Seq<char> {
    let c = ascii_stem(name);
    if c.len() == 0 {
        seq!['p', 'r', 'o', 'j', 'e', 'c', 't', '-'] + decimal_int(secs as int)
    } else {
        c + seq!['.', 'm', 'd']
    }
}

/// ASCII lowercasing keeps text ASCII, leaves no capital letter, and keeps
/// letters and digits letters and digits.
proof fn lemma_ascii_lower(s: Seq<char>)
    requires
        is_ascii_text(s),
    ensures
        is_ascii_text(ascii_lower(s)),
        forall|i: int| 0 <= i < s.len() ==> !('A' <= #[trigger] ascii_lower(s)[i] <= 'Z'),
        forall|i: int|
            0 <= i < s.len() ==> is_ascii_alnum(#[trigger] ascii_lower(s)[i]) == is_ascii_alnum(s[i]),
        forall|i: int| 0 <= i < s.len() && !('A' <= s[i] <= 'Z') ==> #[trigger] ascii_lower(s)[i] == s[i],
{
    assert forall|i: int| 0 <= i < s.len() implies is_ascii_char(#[trigger] ascii_lower(s)[i]) by {
        assert(is_ascii_char(s[i]));
    }
    assert forall|i: int| 0 <= i < s.len() implies !('A' <= #[trigger] ascii_lower(s)[i] <= 'Z')
        && is_ascii_alnum(ascii_lower(s)[i]) == is_ascii_alnum(s[i]) by {
        assert(is_ascii_char(s[i]));
    }
}

proof fn lemma_join_dash_len(l: Seq<Seq<char>>)
    requires
        forall|i: int| 0 <= i < l.len() ==> (#[trigger] l[i]).len() > 0,
    ensures
        (join_dash(l).len() == 0) == (l.len() == 0),
{
    if l.len() == 1 {
        assert(l[0].len() > 0);
    } else if l.len() > 1 {
        assert(l.last().len() > 0);
    }
}

proof fn lemma_keep_nonempty_nonempty(l: Seq<Seq<char>>)
    ensures
        forall|i: int| 0 <= i < keep_nonempty(l).len() ==> (#[trigger] keep_nonempty(l)[i]).len() > 0,
    decreases l.len(),
{
    if l.len() > 0 {
        lemma_keep_nonempty_nonempty(l.drop_last());
        let k = keep_nonempty(l.drop_last());
        if l.last().len() > 0 {
            assert forall|i: int| 0 <= i < keep_nonempty(l).len() implies (#[trigger] keep_nonempty(l)[i]).len() > 0 by {
                if i < k.len() {
                    assert(keep_nonempty(l)[i] == k[i]);
                }
            }
        }
    }
}

/// The file name stem made from lowercased text `lower`, in the sense of
/// [`clean_lower`]; every character of it may stand in a stem.
pub fn clean_lowercased(lower: &str) -> (v: Vec<char>)
    ensures
        v@ == clean_lower(lower@),
        forall|i: int| 0 <= i < v@.len() ==> stem_char(#[trigger] v@[i]),
        is_ascii_text(lower@) ==> v@ == clean_dashed(ascii_dash_map(lower@)),
{
    let l = chars_of(lower);
    let ghost m = dash_map(l@);
    let mut out: Vec<char> = Vec::new();
    let mut cur: Vec<char> = Vec::new();
    assert(m.take(0) =~= Seq::<char>::empty());
    assert(keep_nonempty(Seq::<Seq<char>>::empty()) =~= Seq::<Seq<char>>::empty());
    for i in 0..l.len()
        invariant
            m == dash_map(l@),
            l@ == lower@,
            forall|j: int| 0 <= j < out@.len() ==> stem_char(#[trigger] out@[j]),
            forall|j: int| 0 <= j < cur@.len() ==> stem_char(#[trigger] cur@[j]),
            segments(m.take(i as int)).len() > 0,
            cur@ == segments(m.take(i as int)).last(),
            out@ == join_dash(keep_nonempty(segments(m.take(i as int)).drop_last())),
            forall|j: int|
                0 <= j < i && is_ascii_char(#[trigger] l@[j]) ==> (alphanumeric(l@[j])
                    <==> is_ascii_alnum(l@[j])),
    {
        let ghost segs = segments(m.take(i as int));
        let ghost pre = m.take(i + 1);
        assert(pre.drop_last() =~= m.take(i as int));
        assert(pre.last() == m[i as int]);
        let a = is_alphanumeric(l[i]);
        let c = if a { l[i] } else { '-' };
        assert(c == m[i as int]);
        if c == '-' {
            proof {
                lemma_keep_nonempty_nonempty(segs.drop_last());
                lemma_join_dash_len(keep_nonempty(segs.drop_last()));
                assert(segs.drop_last().push(segs.last()) =~= segs);
                assert(segments(pre).drop_last() =~= segs);
            }
            if cur.len() > 0 {
                if out.len() > 0 {
                    out.push('-');
                }
                extend_chars(&mut out, cur.as_slice());
                proof {
                    let k = keep_nonempty(segs.drop_last());
                    assert(keep_nonempty(segs) == k.push(cur@));
                    assert(k.push(cur@).drop_last() =~= k);
                    assert(out@ =~= join_dash(k.push(cur@)));
                }
            }
            cur = Vec::new();
            assert(cur@ =~= segments(pre).last());
        } else {
            cur.push(c);
            proof {
                assert(segments(pre).drop_last() =~= segs.drop_last());
            }
        }
    }
    assert(m.take(l@.len() as int) =~= m);
    proof {
        if is_ascii_text(l@) {
            assert forall|j: int| 0 <= j < l@.len() implies #[trigger] m[j] == ascii_dash_map(l@)[j] by {
                assert(is_ascii_char(l@[j]));
            }
            assert(m =~= ascii_dash_map(l@));
        }
    }
    let ghost segs = segments(m);
    proof {
        lemma_keep_nonempty_nonempty(segs.drop_last());
        lemma_join_dash_len(keep_nonempty(segs.drop_last()));
        assert(segs.drop_last().push(segs.last()) =~= segs);
    }
    if cur.len() > 0 {
        if out.len() > 0 {
            out.push('-');
        }
        extend_chars(&mut out, cur.as_slice());
        proof {
            let k = keep_nonempty(segs.drop_last());
            assert(k.push(cur@).drop_last() =~= k);
            assert(out@ =~= join_dash(k.push(cur@)));
        }
    }
    out
}

/// The file name stem of a project name: lowercased, then [`clean_lowercased`].
pub fn clean_filename(name: &str) -> (v: Vec<char>)
    ensures
        v@ == clean_name(name@),
        forall|i: int| 0 <= i < v@.len() ==> stem_char(#[trigger] v@[i]),
        is_ascii_text(name@) ==> v@ == ascii_stem(name@),
{
    let lower = to_lowercase(name);
    proof {
        if is_ascii_text(name@) {
            lemma_ascii_lower(name@);
        }
    }
    clean_lowercased(lower.as_str())
}

/// Every dash stands between two characters that are not dashes.
pub open spec fn dashes_tidy(c: Seq<char>) -> bool {
    forall|i: int|
        0 <= i < c.len() && #[trigger] c[i] == '-' ==> 0 < i && i + 1 < c.len() && c[i + 1] != '-'
}

/// A piece made only of characters that `p` holds of, none of them a dash.
pub open spec fn word_chars(x: Seq<char>, p: spec_fn(char) -> bool) -> bool {
    forall|i: int| 0 <= i < x.len() ==> #[trigger] x[i] != '-' && p(x[i])
}

proof fn lemma_segments_words(s: Seq<char>, p: spec_fn(char) -> bool)
    requires
        forall|i: int| 0 <= i < s.len() && #[trigger] s[i] != '-' ==> p(s[i]),
    ensures
        segments(s).len() > 0,
        forall|j: int| 0 <= j < segments(s).len() ==> word_chars(#[trigger] segments(s)[j], p),
    decreases s.len(),
{
    if s.len() > 0 {
        let r = s.drop_last();
        assert forall|i: int| 0 <= i < r.len() && #[trigger] r[i] != '-' implies p(r[i]) by {
            assert(r[i] == s[i]);
        }
        lemma_segments_words(r, p);
        let segs = segments(r);
        if s.last() != '-' {
            assert(s[s.len() - 1] == s.last());
            let x = segs.last().push(s.last());
            assert(word_chars(segs[segs.len() - 1], p));
            assert forall|i: int| 0 <= i < x.len() implies #[trigger] x[i] != '-' && p(x[i]) by {
                if i < x.len() - 1 {
                    assert(x[i] == segs[segs.len() - 1][i]);
                }
            }
            assert forall|j: int| 0 <= j < segments(s).len() implies word_chars(#[trigger] segments(s)[j], p) by {
                if j < segs.len() - 1 {
                    assert(segments(s)[j] == segs[j]);
                } else {
                    assert(segments(s)[j] == x);
                }
            }
        } else {
            assert forall|j: int| 0 <= j < segments(s).len() implies word_chars(#[trigger] segments(s)[j], p) by {
                if j < segs.len() {
                    assert(segments(s)[j] == segs[j]);
                }
            }
        }
    }
}

proof fn lemma_keep_nonempty_words(l: Seq<Seq<char>>, p: spec_fn(char) -> bool)
    requires
        forall|j: int| 0 <= j < l.len() ==> word_chars(#[trigger] l[j], p),
    ensures
        forall|j: int| 0 <= j < keep_nonempty(l).len() ==> word_chars(#[trigger] keep_nonempty(l)[j], p),
    decreases l.len(),
{
    if l.len() > 0 {
        let r = l.drop_last();
        assert forall|j: int| 0 <= j < r.len() implies word_chars(#[trigger] r[j], p) by {
            assert(r[j] == l[j]);
        }
        lemma_keep_nonempty_words(r, p);
        let k = keep_nonempty(r);
        if l.last().len() > 0 {
            assert(word_chars(l[l.len() - 1], p));
            assert forall|j: int| 0 <= j < keep_nonempty(l).len() implies word_chars(#[trigger] keep_nonempty(l)[j], p) by {
                if j < k.len() {
                    assert(keep_nonempty(l)[j] == k[j]);
                }
            }
        }
    }
}

proof fn lemma_join_tidy(l: Seq<Seq<char>>, p: spec_fn(char) -> bool)
    requires
        forall|j: int| 0 <= j < l.len() ==> word_chars(#[trigger] l[j], p),
        forall|j: int| 0 <= j < l.len() ==> (#[trigger] l[j]).len() > 0,
    ensures
        dashes_tidy(join_dash(l)),
        l.len() > 0 ==> join_dash(l).len() > 0 && join_dash(l).last() != '-',
    decreases l.len(),
{
    if l.len() == 1 {
        assert(word_chars(l[0], p));
        assert(l[0].len() > 0);
        assert(l[0][l[0].len() - 1] != '-');
    } else if l.len() > 1 {
        let r = l.drop_last();
        assert forall|j: int| 0 <= j < r.len() implies word_chars(#[trigger] r[j], p) && r[j].len() > 0 by {
            assert(r[j] == l[j]);
        }
        lemma_join_tidy(r, p);
        let a = join_dash(r);
        let b = l.last();
        assert(word_chars(l[l.len() - 1], p));
        assert(l[l.len() - 1].len() > 0);
        let c = join_dash(l);
        assert(c == a + seq!['-'] + b);
        assert(a[a.len() - 1] == a.last());
        assert forall|i: int| 0 <= i < c.len() && #[trigger] c[i] == '-' implies 0 < i && i + 1 < c.len()
            && c[i + 1] != '-' by {
            if i < a.len() {
                assert(c[i] == a[i]);
                if i + 1 < a.len() {
                    assert(c[i + 1] == a[i + 1]);
                } else {
                    assert(a[i] == a.last());
                }
            } else if i == a.len() {
                assert(c[i + 1] == b[0]);
            } else {
                assert(c[i] == b[i - a.len() - 1]);
            }
        }
        assert(c.last() == b[b.len() - 1]);
    }
}

/// A file name stem has only alphanumeric characters and dashes, and every
/// dash stands between two characters that are not dashes: none at either
/// end, no two in a row.
pub proof fn lemma_clean_name_tidy(name: Seq<char>)
    ensures
        dashes_tidy(clean_name(name)),
        forall|i: int|
            0 <= i < clean_name(name).len() ==> #[trigger] clean_name(name)[i] == '-' || alphanumeric(
                clean_name(name)[i],
            ),
{
    lemma_clean_lower_tidy(lowercase(name));
}

proof fn lemma_clean_lower_tidy(s: Seq<char>)
    ensures
        dashes_tidy(clean_lower(s)),
        forall|i: int|
            0 <= i < clean_lower(s).len() ==> #[trigger] clean_lower(s)[i] == '-' || alphanumeric(
                clean_lower(s)[i],
            ),
{
    let p = |c: char| alphanumeric(c);
    lemma_clean_dashed_tidy(dash_map(s), p);
}

/// Tidying keeps only dashes and the characters other than dashes of the
/// text; every dash of the result stands between two characters that are
/// not dashes.
proof fn lemma_clean_dashed_tidy(m: Seq<char>, p: spec_fn(char) -> bool)
    requires
        forall|i: int| 0 <= i < m.len() && #[trigger] m[i] != '-' ==> p(m[i]),
    ensures
        dashes_tidy(clean_dashed(m)),
        forall|i: int|
            0 <= i < clean_dashed(m).len() ==> #[trigger] clean_dashed(m)[i] == '-' || p(
                clean_dashed(m)[i],
            ),
{
    lemma_segments_words(m, p);
    lemma_keep_nonempty_words(segments(m), p);
    lemma_keep_nonempty_nonempty(segments(m));
    lemma_join_tidy(keep_nonempty(segments(m)), p);
    lemma_join_chars(keep_nonempty(segments(m)), p);
}

proof fn lemma_join_chars(l: Seq<Seq<char>>, p: spec_fn(char) -> bool)
    requires
        forall|j: int| 0 <= j < l.len() ==> word_chars(#[trigger] l[j], p),
    ensures
        forall|i: int| 0 <= i < join_dash(l).len() ==> #[trigger] join_dash(l)[i] == '-' || p(join_dash(l)[i]),
    decreases l.len(),
{
    if l.len() == 1 {
        assert(word_chars(l[0], p));
    } else if l.len() > 1 {
        let r = l.drop_last();
        assert forall|j: int| 0 <= j < r.len() implies word_chars(#[trigger] r[j], p) by {
            assert(r[j] == l[j]);
        }
        lemma_join_chars(r, p);
        let a = join_dash(r);
        let b = l.last();
        assert(word_chars(l[l.len() - 1], p));
        let c = join_dash(l);
        assert forall|i: int| 0 <= i < c.len() implies #[trigger] c[i] == '-' || p(c[i]) by {
            if i < a.len() {
                assert(c[i] == a[i]);
            } else if i > a.len() {
                assert(c[i] == b[i - a.len() - 1]);
            }
        }
    }
}


proof fn lemma_segments_nonempty_len(x: Seq<char>)
    ensures
        segments(x).len() > 0,
    decreases x.len(),
{
    if x.len() > 0 {
        lemma_segments_nonempty_len(x.drop_last());
    }
}

/// Joining the pieces between the dashes with dashes gives the text back.
proof fn lemma_join_segments(x: Seq<char>)
    ensures
        join_dash(segments(x)) == x,
    decreases x.len(),
{
    if x.len() > 0 {
        let r = x.drop_last();
        lemma_join_segments(r);
        lemma_segments_nonempty_len(r);
        let sg = segments(r);
        let n = sg.len();
        if x.last() == '-' {
            let t = sg.push(Seq::<char>::empty());
            assert(t.drop_last() =~= sg);
            assert(join_dash(t) == join_dash(sg) + seq!['-'] + Seq::<char>::empty());
            assert(x =~= r + seq!['-'] + Seq::<char>::empty());
        } else {
            let w = sg.last().push(x.last());
            let t = sg.update(n - 1, w);
            if n == 1 {
                assert(join_dash(t) == w);
                assert(x =~= r.push(x.last()));
            } else {
                assert(t.drop_last() =~= sg.drop_last());
                assert(join_dash(t) == join_dash(sg.drop_last()) + seq!['-'] + w);
                assert(join_dash(sg) == join_dash(sg.drop_last()) + seq!['-'] + sg.last());
                assert(x =~= r.push(x.last()));
                assert(join_dash(t) =~= join_dash(sg).push(x.last()));
            }
        }
    }
}

/// Where no dash stands first or right after another dash, every piece but
/// the last is non-empty, and so is the last one where the text ends in
/// something other than a dash.
proof fn lemma_segments_filled(x: Seq<char>)
    requires
        forall|i: int| 0 <= i < x.len() && #[trigger] x[i] == '-' ==> i > 0 && x[i - 1] != '-',
    ensures
        segments(x).len() > 0,
        forall|j: int| 0 <= j < segments(x).len() - 1 ==> (#[trigger] segments(x)[j]).len() > 0,
        x.len() > 0 && x.last() != '-' ==> segments(x).last().len() > 0,
    decreases x.len(),
{
    lemma_segments_nonempty_len(x);
    if x.len() > 0 {
        let r = x.drop_last();
        assert forall|i: int| 0 <= i < r.len() && #[trigger] r[i] == '-' implies i > 0 && r[i - 1] != '-' by {
            assert(r[i] == x[i]);
            assert(x[i - 1] == r[i - 1]);
        }
        lemma_segments_filled(r);
        let sg = segments(r);
        if x.last() == '-' {
            assert(x[x.len() - 1] == '-');
            assert(r.len() > 0 && r.last() != '-') by {
                assert(x[x.len() - 2] == r.last());
            }
            assert forall|j: int| 0 <= j < segments(x).len() - 1 implies (#[trigger] segments(x)[j]).len() > 0 by {
                assert(segments(x)[j] == sg[j]);
            }
        } else {
            assert forall|j: int| 0 <= j < segments(x).len() - 1 implies (#[trigger] segments(x)[j]).len() > 0 by {
                assert(segments(x)[j] == sg[j]);
            }
        }
    }
}

proof fn lemma_keep_nonempty_all(l: Seq<Seq<char>>)
    requires
        forall|j: int| 0 <= j < l.len() ==> (#[trigger] l[j]).len() > 0,
    ensures
        keep_nonempty(l) == l,
    decreases l.len(),
{
    if l.len() > 0 {
        let r = l.drop_last();
        assert forall|j: int| 0 <= j < r.len() implies (#[trigger] r[j]).len() > 0 by {
            assert(r[j] == l[j]);
        }
        lemma_keep_nonempty_all(r);
        assert(l[l.len() - 1].len() > 0);
        assert(r.push(l.last()) =~= l);
    }
}

/// Tidy text is its own tidying.
proof fn lemma_clean_dashed_fixed(c: Seq<char>)
    requires
        dashes_tidy(c),
    ensures
        clean_dashed(c) == c,
{
    if c.len() == 0 {
        let e = seq![Seq::<char>::empty()];
        assert(segments(c) =~= e);
        assert(e.drop_last() =~= Seq::<Seq<char>>::empty());
        assert(keep_nonempty(e) == keep_nonempty(Seq::<Seq<char>>::empty()));
    } else {
        assert forall|i: int| 0 <= i < c.len() && #[trigger] c[i] == '-' implies i > 0 && c[i - 1] != '-' by {
            if c[i - 1] == '-' {
                assert(c[(i - 1) + 1] != '-');
            }
        }
        assert(c.last() != '-') by {
            if c[c.len() - 1] == '-' {
                assert(c.len() - 1 + 1 < c.len());
            }
        }
        lemma_segments_filled(c);
        let sg = segments(c);
        assert forall|j: int| 0 <= j < sg.len() implies (#[trigger] sg[j]).len() > 0 by {
            if j == sg.len() - 1 {
                assert(sg[j] == sg.last());
            }
        }
        lemma_keep_nonempty_all(sg);
        lemma_join_segments(c);
    }
}

/// A file name stem is its own stem: tidying lowercased text a second time
/// changes nothing.
pub proof fn lemma_clean_lower_idempotent(s: Seq<char>)
    ensures
        clean_lower(clean_lower(s)) == clean_lower(s),
{
    let c = clean_lower(s);
    lemma_clean_lower_tidy(s);
    assert(dash_map(c) =~= c) by {
        assert forall|i: int| 0 <= i < c.len() implies #[trigger] dash_map(c)[i] == c[i] by {
            assert(c[i] == '-' || alphanumeric(c[i]));
        }
    }
    lemma_clean_dashed_fixed(c);
}


/// `n` dashes.
spec fn dashes(n: nat) -> Seq<char> {
    Seq::new(n, |i: int| '-')
}

/// `n` empty pieces.
spec fn empties(n: nat) -> Seq<Seq<char>> {
    Seq::new(n, |i: int| Seq::<char>::empty())
}

/// A dash splits text into the pieces of what stands before it and the
/// pieces of what stands after it.
proof fn lemma_segments_at_dash(p: Seq<char>, q: Seq<char>)
    ensures
        segments(p + seq!['-'] + q) == segments(p) + segments(q),
    decreases q.len(),
{
    let x = p + seq!['-'] + q;
    if q.len() == 0 {
        assert(x.drop_last() =~= p);
        assert(segments(p).push(Seq::<char>::empty()) =~= segments(p) + seq![Seq::<char>::empty()]);
    } else {
        let qr = q.drop_last();
        assert(x.drop_last() =~= p + seq!['-'] + qr);
        assert(x.last() == q.last());
        lemma_segments_at_dash(p, qr);
        lemma_segments_nonempty_len(qr);
        let a = segments(p);
        let b = segments(qr);
        if q.last() == '-' {
            assert((a + b).push(Seq::<char>::empty()) =~= a + b.push(Seq::<char>::empty()));
        } else {
            let w = b.last().push(q.last());
            assert((a + b).last() == b.last());
            assert((a + b).update((a + b).len() - 1, w) =~= a + b.update(b.len() - 1, w));
        }
    }
}

/// Dashes at the end of text add that many empty pieces.
proof fn lemma_segments_trailing_dashes(p: Seq<char>, k: nat)
    ensures
        segments(p + dashes(k)) == segments(p) + empties(k),
    decreases k,
{
    if k == 0 {
        assert(p + dashes(0) =~= p);
        assert(segments(p) + empties(0) =~= segments(p));
    } else {
        let x = p + dashes(k);
        assert(x.drop_last() =~= p + dashes((k - 1) as nat));
        assert(x.last() == '-');
        lemma_segments_trailing_dashes(p, (k - 1) as nat);
        assert((segments(p) + empties((k - 1) as nat)).push(Seq::<char>::empty()) =~= segments(p)
            + empties(k));
    }
}

proof fn lemma_keep_nonempty_concat(l1: Seq<Seq<char>>, l2: Seq<Seq<char>>)
    ensures
        keep_nonempty(l1 + l2) == keep_nonempty(l1) + keep_nonempty(l2),
    decreases l2.len(),
{
    if l2.len() == 0 {
        assert(l1 + l2 =~= l1);
        assert(keep_nonempty(l1) + keep_nonempty(l2) =~= keep_nonempty(l1));
    } else {
        let r = l2.drop_last();
        assert((l1 + l2).drop_last() =~= l1 + r);
        assert((l1 + l2).last() == l2.last());
        lemma_keep_nonempty_concat(l1, r);
        if l2.last().len() > 0 {
            assert((keep_nonempty(l1) + keep_nonempty(r)).push(l2.last()) =~= keep_nonempty(l1)
                + keep_nonempty(r).push(l2.last()));
        }
    }
}

proof fn lemma_keep_nonempty_empties(k: nat)
    ensures
        keep_nonempty(empties(k)) == Seq::<Seq<char>>::empty(),
    decreases k,
{
    if k > 0 {
        assert(empties(k).drop_last() =~= empties((k - 1) as nat));
        assert(empties(k).last().len() == 0);
        lemma_keep_nonempty_empties((k - 1) as nat);
    } else {
        assert(empties(0) =~= Seq::<Seq<char>>::empty());
    }
}

/// A run of one or more dashes between two pieces of text keeps the same
/// non-empty pieces, however long the run is.
proof fn lemma_dash_run(a: Seq<char>, b: Seq<char>, n: nat)
    requires
        n > 0,
    ensures
        keep_nonempty(segments(a + dashes(n) + b)) == keep_nonempty(segments(a)) + keep_nonempty(
            segments(b),
        ),
{
    let p = a + dashes((n - 1) as nat);
    assert(a + dashes(n) + b =~= p + seq!['-'] + b);
    lemma_segments_at_dash(p, b);
    lemma_segments_trailing_dashes(a, (n - 1) as nat);
    lemma_keep_nonempty_concat(segments(a) + empties((n - 1) as nat), segments(b));
    lemma_keep_nonempty_concat(segments(a), empties((n - 1) as nat));
    lemma_keep_nonempty_empties((n - 1) as nat);
    assert(keep_nonempty(segments(a)) + Seq::<Seq<char>>::empty() =~= keep_nonempty(segments(a)));
}

/// Between the same two pieces of lowercased text, any two non-empty runs of
/// characters that are not alphanumeric give the same file name stem.
pub proof fn lemma_separator_runs_agree(a: Seq<char>, s: Seq<char>, t: Seq<char>, b: Seq<char>)
    requires
        s.len() > 0,
        t.len() > 0,
        forall|i: int| 0 <= i < s.len() ==> !alphanumeric(#[trigger] s[i]),
        forall|i: int| 0 <= i < t.len() ==> !alphanumeric(#[trigger] t[i]),
    ensures
        clean_lower(a + s + b) == clean_lower(a + t + b),
{
    assert(dash_map(a + s + b) =~= dash_map(a) + dashes(s.len()) + dash_map(b));
    assert(dash_map(a + t + b) =~= dash_map(a) + dashes(t.len()) + dash_map(b));
    lemma_dash_run(dash_map(a), dash_map(b), s.len());
    lemma_dash_run(dash_map(a), dash_map(b), t.len());
}


/// Where some character is not a dash, some piece between the dashes is not
/// empty.
proof fn lemma_nondash_keeps(m: Seq<char>, i: int)
    requires
        0 <= i < m.len(),
        m[i] != '-',
    ensures
        keep_nonempty(segments(m)).len() > 0,
    decreases m.len(),
{
    let r = m.drop_last();
    let sg = segments(r);
    lemma_segments_nonempty_len(r);
    if m.last() != '-' {
        assert(segments(m).last() == sg.last().push(m.last()));
        assert(segments(m)[segments(m).len() - 1].len() > 0);
    } else {
        assert(i < m.len() - 1) by {
            if i == m.len() - 1 {
                assert(m[i] == m.last());
            }
        }
        assert(r[i] == m[i]);
        lemma_nondash_keeps(r, i);
        assert(segments(m).drop_last() =~= sg);
    }
}

/// Text with a character other than a dash tidies to something non-empty.
proof fn lemma_nondash_stem(m: Seq<char>, i: int)
    requires
        0 <= i < m.len(),
        m[i] != '-',
    ensures
        clean_dashed(m).len() > 0,
{
    lemma_nondash_keeps(m, i);
    lemma_keep_nonempty_nonempty(segments(m));
    lemma_join_dash_len(keep_nonempty(segments(m)));
}

/// Lowercased text with an alphanumeric character other than a dash has a
/// non-empty file name stem.
pub proof fn lemma_alnum_gives_stem(lower: Seq<char>, i: int)
    requires
        0 <= i < lower.len(),
        alphanumeric(lower[i]),
        lower[i] != '-',
    ensures
        clean_lower(lower).len() > 0,
{
    lemma_nondash_stem(dash_map(lower), i);
}

/// The stem of an ASCII name is ASCII and tidy, made of dashes, small letters
/// and digits.
proof fn lemma_ascii_stem_tidy(name: Seq<char>)
    requires
        is_ascii_text(name),
    ensures
        is_ascii_text(ascii_stem(name)),
        dashes_tidy(ascii_stem(name)),
        forall|i: int|
            0 <= i < ascii_stem(name).len() ==> #[trigger] ascii_stem(name)[i] == '-' || (
            is_ascii_alnum(ascii_stem(name)[i]) && !('A' <= ascii_stem(name)[i] <= 'Z')),
{
    lemma_ascii_lower(name);
    let lo = ascii_lower(name);
    let m = ascii_dash_map(lo);
    let p = |c: char| is_ascii_alnum(c) && !('A' <= c <= 'Z');
    assert forall|i: int| 0 <= i < m.len() && #[trigger] m[i] != '-' implies p(m[i]) by {
        assert(!('A' <= lo[i] <= 'Z'));
    }
    lemma_clean_dashed_tidy(m, p);
    let c = ascii_stem(name);
    assert forall|i: int| 0 <= i < c.len() implies is_ascii_char(#[trigger] c[i]) by {
        assert(c[i] == '-' || p(c[i]));
    }
}

/// Sanitizing the stem of an ASCII name gives the same file name again: where
/// the name has a stem, its file name is the stem with `.md`, and the stem,
/// sanitized in turn, gives that same file name, whatever the clock reads.
pub proof fn lemma_ascii_sanitize_idempotent(name: Seq<char>, secs1: i64, secs2: i64)
    requires
        is_ascii_text(name),
        ascii_stem(name).len() > 0,
    ensures
        is_ascii_text(ascii_stem(name)),
        ascii_sanitized_at(name, secs1) == ascii_stem(name) + seq!['.', 'm', 'd'],
        ascii_sanitized_at(ascii_stem(name), secs2) == ascii_sanitized_at(name, secs1),
{
    let c = ascii_stem(name);
    lemma_ascii_stem_tidy(name);
    assert(ascii_lower(c) =~= c) by {
        assert forall|i: int| 0 <= i < c.len() implies #[trigger] ascii_lower(c)[i] == c[i] by {
            assert(c[i] == '-' || (is_ascii_alnum(c[i]) && !('A' <= c[i] <= 'Z')));
        }
    }
    assert(ascii_dash_map(c) =~= c) by {
        assert forall|i: int| 0 <= i < c.len() implies #[trigger] ascii_dash_map(c)[i] == c[i] by {
            assert(c[i] == '-' || is_ascii_alnum(c[i]));
        }
    }
    lemma_clean_dashed_fixed(c);
}

/// Between the same two pieces of ASCII text, any two non-empty runs of ASCII
/// characters that are neither letters nor digits give the same stem; and
/// where either piece has a letter or a digit, that stem is not empty, so the
/// two file names are the same stem with `.md`.
pub proof fn lemma_ascii_separator_runs_agree(a: Seq<char>, s: Seq<char>, t: Seq<char>, b: Seq<char>)
    requires
        is_ascii_text(a),
        is_ascii_text(s),
        is_ascii_text(t),
        is_ascii_text(b),
        s.len() > 0,
        t.len() > 0,
        forall|i: int| 0 <= i < s.len() ==> !is_ascii_alnum(#[trigger] s[i]),
        forall|i: int| 0 <= i < t.len() ==> !is_ascii_alnum(#[trigger] t[i]),
    ensures
        ascii_stem(a + s + b) == ascii_stem(a + t + b),
        (exists|i: int| 0 <= i < a.len() && is_ascii_alnum(#[trigger] a[i])) || (exists|i: int|
            0 <= i < b.len() && is_ascii_alnum(#[trigger] b[i])) ==> ascii_stem(a + s + b).len() > 0,
{
    let da = ascii_dash_map(ascii_lower(a));
    let db = ascii_dash_map(ascii_lower(b));
    lemma_ascii_lower(a);
    lemma_ascii_lower(b);
    assert(ascii_dash_map(ascii_lower(a + s + b)) =~= da + dashes(s.len()) + db) by {
        assert forall|i: int| 0 <= i < s.len() implies !('A' <= #[trigger] s[i] <= 'Z') by {
            assert(!is_ascii_alnum(s[i]));
        }
    }
    assert(ascii_dash_map(ascii_lower(a + t + b)) =~= da + dashes(t.len()) + db) by {
        assert forall|i: int| 0 <= i < t.len() implies !('A' <= #[trigger] t[i] <= 'Z') by {
            assert(!is_ascii_alnum(t[i]));
        }
    }
    lemma_dash_run(da, db, s.len());
    lemma_dash_run(da, db, t.len());
    let full = da + dashes(s.len()) + db;
    let k = keep_nonempty(segments(full));
    if exists|i: int| 0 <= i < a.len() && is_ascii_alnum(#[trigger] a[i]) {
        let i = choose|i: int| 0 <= i < a.len() && is_ascii_alnum(#[trigger] a[i]);
        assert(da[i] != '-');
        lemma_nondash_keeps(da, i);
    }
    if exists|i: int| 0 <= i < b.len() && is_ascii_alnum(#[trigger] b[i]) {
        let i = choose|i: int| 0 <= i < b.len() && is_ascii_alnum(#[trigger] b[i]);
        assert(db[i] != '-');
        lemma_nondash_keeps(db, i);
    }
    lemma_keep_nonempty_nonempty(segments(full));
    lemma_join_dash_len(k);
}

} // verus!
