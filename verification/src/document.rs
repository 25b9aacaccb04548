use vstd::prelude::*;
use crate::position::Position;
use crate::row::Row;
use crate::row::line_wf;
use crate::row::row_insert_spec;
use crate::row::row_delete_spec;
use crate::row::row_split_at;
use crate::row::lemma_row_insert_wf;
use crate::row::lemma_row_delete_wf;
use crate::text::str_to_chars;
use crate::text::chars_to_string;

verus! {

/// The scalar sequences of a sequence of rows.
pub open spec fn rows_view(rows: Seq<Row>) -> Seq<Seq<char>> {
    Seq::new(rows.len(), |i: int| rows[i]@)
}

/// Every row of `d` is free of line separators.
pub open spec fn doc_wf(d: Seq<Seq<char>>) -> bool {
    forall|i: int| 0 <= i < d.len() ==> line_wf(#[trigger] d[i])
}

/// The lines of a text, split on the line separator; a trailing separator
/// does not open a final empty line, matching how a file is loaded.
pub open spec fn lines_of(s: Seq<char>) -> Seq<Seq<char>>
    decreases s.len(),
{
    if s.len() == 0 {
        Seq::empty()
    } else if s[0] == '\n' {
        seq![Seq::<char>::empty()] + lines_of(s.skip(1))
    } else {
        let rest = lines_of(s.skip(1));
        if rest.len() == 0 {
            seq![seq![s[0]]]
        } else {
            rest.update(0, seq![s[0]] + rest[0])
        }
    }
}

/// The text that persisting `rows` produces: each row followed by one line
/// separator.
pub open spec fn join_lines(rows: Seq<Seq<char>>) -> Seq<char>
    decreases rows.len(),
{
    if rows.len() == 0 {
        Seq::empty()
    } else {
        rows[0].push('\n') + join_lines(rows.skip(1))
    }
}

/// A non-empty text has at least one line.
proof fn lemma_lines_of_nonempty(s: Seq<char>)
    requires
        s.len() > 0,
    ensures
        lines_of(s).len() > 0,
    decreases s.len(),
{
    if s[0] != '\n' && lines_of(s.skip(1)).len() != 0 {
        lemma_lines_of_nonempty(s.skip(1));
    }
}

/// A separator-free, non-empty text is a single line.
proof fn lemma_lines_of_unbroken(s: Seq<char>)
    requires
        s.len() > 0,
        line_wf(s),
    ensures
        lines_of(s) == seq![s],
    decreases s.len(),
{
    assert(s[0] != '\n');
    let tail = s.skip(1);
    if tail.len() == 0 {
        assert(lines_of(tail).len() == 0);
        assert(lines_of(s) == seq![seq![s[0]]]);
        assert(seq![s[0]] =~= s);
    } else {
        assert(line_wf(tail)) by {
            assert(forall|i: int| 0 <= i < tail.len() ==> tail[i] == s[i + 1]);
        }
        lemma_lines_of_unbroken(tail);
        assert(lines_of(s) == seq![tail].update(0, seq![s[0]] + tail));
        assert(seq![s[0]] + tail =~= s);
        assert(seq![tail].update(0, s) =~= seq![s]);
    }
}

/// Splitting at the first separator: a separator-free prefix becomes one
/// line, and the rest is split on its own.
proof fn lemma_lines_of_split(p: Seq<char>, rest: Seq<char>)
    requires
        line_wf(p),
    ensures
        lines_of(p + seq!['\n'] + rest) == seq![p] + lines_of(rest),
    decreases p.len(),
{
    let s = p + seq!['\n'] + rest;
    if p.len() == 0 {
        assert(s =~= seq!['\n'] + rest);
        assert(s[0] == '\n');
        assert(s.skip(1) =~= rest);
        assert(lines_of(s) == seq![Seq::<char>::empty()] + lines_of(rest));
        assert(p =~= Seq::<char>::empty());
        assert(seq![Seq::<char>::empty()] =~= seq![p]);
    } else {
        let p1 = p.skip(1);
        assert(line_wf(p1)) by {
            assert(forall|i: int| 0 <= i < p1.len() ==> p1[i] == p[i + 1]);
        }
        lemma_lines_of_split(p1, rest);
        assert(s[0] == p[0]);
        assert(s[0] != '\n');
        assert(s.skip(1) =~= p1 + seq!['\n'] + rest);
        let rest_lines = lines_of(s.skip(1));
        assert(rest_lines == seq![p1] + lines_of(rest));
        assert(rest_lines.len() > 0);
        assert(rest_lines[0] == p1);
        assert(lines_of(s) == rest_lines.update(0, seq![s[0]] + p1));
        assert(seq![s[0]] + p1 =~= p);
        assert((seq![p1] + lines_of(rest)).update(0, p) =~= seq![p] + lines_of(rest));
    }
}

/// Every line produced by splitting is itself free of separators.
proof fn lemma_lines_of_wf(s: Seq<char>)
    ensures
        doc_wf(lines_of(s)),
    decreases s.len(),
{
    if s.len() == 0 {
    } else if s[0] == '\n' {
        lemma_lines_of_wf(s.skip(1));
        let r = lines_of(s);
        assert forall|i: int| 0 <= i < r.len() implies line_wf(#[trigger] r[i]) by {
            if i > 0 {
                assert(r[i] == lines_of(s.skip(1))[i - 1]);
            }
        }
    } else {
        lemma_lines_of_wf(s.skip(1));
        let rest = lines_of(s.skip(1));
        let r = lines_of(s);
        if rest.len() == 0 {
            assert forall|i: int| 0 <= i < r.len() implies line_wf(#[trigger] r[i]) by {
                assert(r[i] =~= seq![s[0]]);
                assert(forall|j: int| 0 <= j < r[i].len() ==> r[i][j] == s[0]);
            }
        } else {
            assert forall|i: int| 0 <= i < r.len() implies line_wf(#[trigger] r[i]) by {
                if i == 0 {
                    let head = seq![s[0]] + rest[0];
                    assert(r[0] == head);
                    assert(line_wf(rest[0]));
                    assert(forall|j: int| 1 <= j < head.len() ==> head[j] == rest[0][j - 1]);
                    assert(head[0] == s[0]);
                } else {
                    assert(r[i] == rest[i]);
                }
            }
        }
    }
}

/// Joining one more line on the right appends its text and a separator.
proof fn lemma_join_lines_push(rows: Seq<Seq<char>>, r: Seq<char>)
    ensures
        join_lines(rows.push(r)) == join_lines(rows) + r.push('\n'),
    decreases rows.len(),
{
    if rows.len() == 0 {
        assert(rows.push(r)[0] == r);
        assert(rows.push(r).skip(1) =~= Seq::<Seq<char>>::empty());
        assert(join_lines(Seq::<Seq<char>>::empty()) == Seq::<char>::empty());
        assert(join_lines(rows.push(r)) =~= r.push('\n'));
        assert(join_lines(rows) + r.push('\n') =~= r.push('\n'));
    } else {
        lemma_join_lines_push(rows.skip(1), r);
        assert(rows.push(r).skip(1) =~= rows.skip(1).push(r));
        assert(rows.push(r)[0] == rows[0]);
        assert(rows[0].push('\n') + (join_lines(rows.skip(1)) + r.push('\n')) =~= (rows[0].push(
            '\n',
        ) + join_lines(rows.skip(1))) + r.push('\n'));
    }
}

/// Splitting a text into lines and writing them back yields the text itself,
/// up to one normalized trailing separator: a missing final separator is
/// added, an existing one is kept.
pub proof fn lemma_text_round_trip(s: Seq<char>)
    ensures
        join_lines(lines_of(s)) == if s.len() == 0 {
            s
        } else if s[s.len() - 1] == '\n' {
            s
        } else {
            s.push('\n')
        },
    decreases s.len(),
{
    if s.len() == 0 {
    } else {
        let tail = s.skip(1);
        lemma_text_round_trip(tail);
        if s[0] == '\n' {
            let r = lines_of(s);
            assert(r == seq![Seq::<char>::empty()] + lines_of(tail));
            assert(r[0] == Seq::<char>::empty());
            assert(r.skip(1) =~= lines_of(tail));
            assert(join_lines(r) == Seq::<char>::empty().push('\n') + join_lines(lines_of(tail)));
            if tail.len() == 0 {
                assert(join_lines(r) =~= s);
            } else {
                assert(s[s.len() - 1] == tail[tail.len() - 1]);
                if tail[tail.len() - 1] == '\n' {
                    assert(Seq::<char>::empty().push('\n') + tail =~= s);
                } else {
                    assert(Seq::<char>::empty().push('\n') + tail.push('\n') =~= s.push('\n'));
                }
            }
        } else {
            let rest = lines_of(tail);
            if rest.len() == 0 {
                assert(tail.len() == 0) by {
                    if tail.len() > 0 {
                        lemma_lines_of_nonempty(tail);
                    }
                }
                assert(lines_of(s) == seq![seq![s[0]]]);
                assert(seq![seq![s[0]]].skip(1) =~= Seq::<Seq<char>>::empty());
                assert(join_lines(Seq::<Seq<char>>::empty()) == Seq::<char>::empty());
                assert(join_lines(lines_of(s)) =~= seq![s[0]].push('\n'));
                assert(seq![s[0]] =~= s);
            } else {
                let r = lines_of(s);
                assert(r == rest.update(0, seq![s[0]] + rest[0]));
                assert(r[0] == seq![s[0]] + rest[0]);
                assert(r.skip(1) =~= rest.skip(1));
                assert(join_lines(r) == (seq![s[0]] + rest[0]).push('\n') + join_lines(
                    rest.skip(1),
                ));
                assert(join_lines(rest) == rest[0].push('\n') + join_lines(rest.skip(1)));
                assert((seq![s[0]] + rest[0]).push('\n') + join_lines(rest.skip(1)) =~= seq![s[0]]
                    + (rest[0].push('\n') + join_lines(rest.skip(1))));
                assert(tail.len() > 0) by {
                    if tail.len() == 0 {
                        assert(rest.len() == 0);
                    }
                }
                assert(s[s.len() - 1] == tail[tail.len() - 1]);
                if tail[tail.len() - 1] == '\n' {
                    assert(seq![s[0]] + tail =~= s);
                } else {
                    assert(seq![s[0]] + tail.push('\n') =~= s.push('\n'));
                }
            }
        }
    }
}

/// `d` after inserting scalar `c` at position `(x, y)`: a separator splits
/// the line instead; on the virtual row just past the end a new row is
/// opened; further out nothing happens.
pub open spec fn doc_insert_spec(d: Seq<Seq<char>>, x: int, y: int, c: char) -> Seq<Seq<char>> {
    if c == '\n' {
        doc_break_spec(d, x, y)
    } else if y == d.len() {
        d.push(seq![c])
    } else if 0 <= y < d.len() {
        d.update(y, row_insert_spec(d[y], x, c))
    } else {
        d
    }
}

/// `d` after a line break at `(x, y)`: the addressed row is split at `x`
/// (clamped to its length) and the tail becomes the next row; on the virtual
/// row just past the end an empty row is appended; further out nothing
/// happens.
pub open spec fn doc_break_spec(d: Seq<Seq<char>>, x: int, y: int) -> Seq<Seq<char>> {
    if y == d.len() {
        d.push(Seq::empty())
    } else if 0 <= y < d.len() {
        let at = row_split_at(d[y], x);
        d.update(y, d[y].take(at)).insert(y + 1, d[y].skip(at))
    } else {
        d
    }
}

/// `d` after a forward delete at `(x, y)`: past the last row nothing
/// happens; at the end of a row that has a successor the two rows merge;
/// otherwise the scalar at `x` is removed from the row (out of range within
/// the row is a no-op).
pub open spec fn doc_delete_spec(d: Seq<Seq<char>>, x: int, y: int) -> Seq<Seq<char>> {
    if !(0 <= y < d.len()) {
        d
    } else if x == d[y].len() && y < d.len() - 1 {
        d.update(y, d[y] + d[y + 1]).remove(y + 1)
    } else {
        d.update(y, row_delete_spec(d[y], x))
    }
}

/// An insert keeps every row free of separators.
pub proof fn lemma_doc_insert_wf(d: Seq<Seq<char>>, x: int, y: int, c: char)
    requires
        doc_wf(d),
        0 <= x,
    ensures
        doc_wf(doc_insert_spec(d, x, y, c)),
{
    if c == '\n' {
        lemma_doc_break_wf(d, x, y);
    } else if y == d.len() {
        let r = doc_insert_spec(d, x, y, c);
        assert forall|i: int| 0 <= i < r.len() implies line_wf(#[trigger] r[i]) by {
            if i < d.len() {
                assert(r[i] == d[i]);
            } else {
                assert(r[i] == seq![c]);
                assert(forall|j: int| 0 <= j < r[i].len() ==> r[i][j] == c);
            }
        }
    } else if 0 <= y < d.len() {
        lemma_row_insert_wf(d[y], x, c);
        let r = doc_insert_spec(d, x, y, c);
        assert forall|i: int| 0 <= i < r.len() implies line_wf(#[trigger] r[i]) by {
            if i != y {
                assert(r[i] == d[i]);
            }
        }
    }
}

/// A line break keeps every row free of separators.
pub proof fn lemma_doc_break_wf(d: Seq<Seq<char>>, x: int, y: int)
    requires
        doc_wf(d),
    ensures
        doc_wf(doc_break_spec(d, x, y)),
{
    if y == d.len() {
    } else if 0 <= y < d.len() {
        let at = row_split_at(d[y], x);
        let r = doc_break_spec(d, x, y);
        assert forall|i: int| 0 <= i < r.len() implies line_wf(#[trigger] r[i]) by {
            if i < y {
                assert(r[i] == d[i]);
            } else if i == y {
                assert(r[i] == d[y].take(at));
                assert(forall|j: int| 0 <= j < at ==> d[y].take(at)[j] == d[y][j]);
            } else if i == y + 1 {
                assert(r[i] == d[y].skip(at));
                assert(forall|j: int| 0 <= j < d[y].len() - at ==> d[y].skip(at)[j] == d[y][j
                    + at]);
            } else {
                assert(r[i] == d[i - 1]);
            }
        }
    }
}

/// A delete keeps every row free of separators.
pub proof fn lemma_doc_delete_wf(d: Seq<Seq<char>>, x: int, y: int)
    requires
        doc_wf(d),
    ensures
        doc_wf(doc_delete_spec(d, x, y)),
{
    if !(0 <= y < d.len()) {
    } else if x == d[y].len() && y < d.len() - 1 {
        let r = doc_delete_spec(d, x, y);
        assert forall|i: int| 0 <= i < r.len() implies line_wf(#[trigger] r[i]) by {
            if i < y {
                assert(r[i] == d[i]);
            } else if i == y {
                let merged = d[y] + d[y + 1];
                assert(r[i] == merged);
                assert(forall|j: int| 0 <= j < d[y].len() ==> merged[j] == d[y][j]);
                assert(forall|j: int|
                    d[y].len() <= j < merged.len() ==> merged[j] == d[y + 1][j - d[y].len()]);
            } else {
                assert(r[i] == d[i + 1]);
            }
        }
    } else {
        lemma_row_delete_wf(d[y], x);
        let r = doc_delete_spec(d, x, y);
        assert forall|i: int| 0 <= i < r.len() implies line_wf(#[trigger] r[i]) by {
            if i != y {
                assert(r[i] == d[i]);
            }
        }
    }
}

/// Inserting a scalar at a valid position and deleting at the same position
/// restores the document: insert and delete are inverse for a non-separator
/// scalar.
pub proof fn lemma_insert_delete_inverse(d: Seq<Seq<char>>, x: int, y: int, c: char)
    requires
        0 <= y < d.len(),
        0 <= x <= d[y].len(),
        c != '\n',
    ensures
        doc_delete_spec(doc_insert_spec(d, x, y, c), x, y) == d,
{
    let row = d[y];
    let row2 = row_insert_spec(row, x, c);
    assert(row2 =~= row.insert(x, c)) by {
        if x >= row.len() {
            assert(row.push(c) =~= row.insert(x, c));
        }
    }
    let d2 = doc_insert_spec(d, x, y, c);
    assert(d2 == d.update(y, row2));
    assert(d2[y] == row2);
    assert(row2.len() == row.len() + 1);
    assert(x < d2[y].len());
    let d3 = doc_delete_spec(d2, x, y);
    assert(d3 == d2.update(y, row_delete_spec(row2, x)));
    assert(row_delete_spec(row2, x) == row2.remove(x));
    assert(row.insert(x, c).remove(x) =~= row);
    assert(d3 =~= d);
}

/// Breaking a line at a valid position and deleting at the break point (the
/// end of the shortened row) merges the halves back: split and merge are
/// inverse.
pub proof fn lemma_break_merge_inverse(d: Seq<Seq<char>>, x: int, y: int)
    requires
        0 <= y < d.len(),
        0 <= x <= d[y].len(),
    ensures
        doc_delete_spec(doc_break_spec(d, x, y), doc_break_spec(d, x, y)[y].len() as int, y) == d,
{
    let row = d[y];
    let at = row_split_at(row, x);
    assert(at == x);
    let d2 = doc_break_spec(d, x, y);
    assert(d2 == d.update(y, row.take(x)).insert(y + 1, row.skip(x)));
    assert(d2.len() == d.len() + 1);
    assert(d2[y] == row.take(x));
    assert(d2[y + 1] == row.skip(x));
    assert(d2[y].len() == x);
    let d3 = doc_delete_spec(d2, x, y);
    assert(y < d2.len() - 1);
    assert(d3 == d2.update(y, d2[y] + d2[y + 1]).remove(y + 1));
    assert(row.take(x) + row.skip(x) =~= row);
    assert(d3 =~= d);
}

/// The ordered line buffer for one file: a sequence of rows and the optional
/// backing path.
pub struct Document {
    rows: Vec<Row>,
    file: Option<String>,
}

impl View for Document {
    type V = Seq<Seq<char>>;

    closed spec fn view(&self) -> Seq<Seq<char>> {
        rows_view(self.rows@)
    }
}

/// The text of an optional file name.
pub open spec fn opt_text(o: Option<String>) -> Option<Seq<char>> {
    match o {
        Option::Some(s) => Option::Some(s@),
        Option::None => Option::None,
    }
}

impl Document {
    /// The backing file path, if one is set.
    pub closed spec fn file_view(&self) -> Option<Seq<char>> {
        opt_text(self.file)
    }

    /// The backing file path as a value, for display and persistence.
    pub fn file_name(&self) -> (r: &Option<String>)
        ensures
            opt_text(*r) == self.file_view(),
    {
        &self.file
    }

    /// Records (or clears) the backing file path.
    pub fn set_file(&mut self, name: Option<String>)
        ensures
            final(self)@ == old(self)@,
            final(self).file_view() == opt_text(name),
    {
        self.file = name;
    }

    /// Builds the document a text file loads into: one row per line, the
    /// trailing separator not kept as a row of its own. The backing path is
    /// left unset; the caller records where the text came from.
    pub fn from_text(text: &str) -> (d: Document)
        ensures
            d@ == lines_of(text@),
            doc_wf(d@),
            d.file_view() is None,
    {
        let chars = str_to_chars(text);
        let n = chars.len();
        let mut rows: Vec<Row> = Vec::new();
        let mut cur: Vec<char> = Vec::new();
        let mut i: usize = 0;
        proof {
            assert(cur@ + chars@.skip(0) =~= text@);
            assert(rows_view(rows@) =~= Seq::<Seq<char>>::empty());
            assert(rows_view(rows@) + lines_of(cur@ + chars@.skip(0)) =~= lines_of(text@));
        }
        while i < n
            invariant
                chars@ == text@,
                n == chars@.len(),
                i <= n,
                line_wf(cur@),
                lines_of(text@) == rows_view(rows@) + lines_of(cur@ + chars@.skip(i as int)),
            decreases n - i,
        {
            let c = chars[i];
            if c == '\n' {
                proof {
                    assert(cur@ + chars@.skip(i as int) =~= cur@ + seq!['\n'] + chars@.skip(
                        i + 1,
                    ));
                    lemma_lines_of_split(cur@, chars@.skip(i + 1));
                }
                let ghost old_rows = rows@;
                let ghost line = cur@;
                rows.push(Row::from_chars(cur));
                cur = Vec::new();
                proof {
                    assert(rows_view(old_rows.push(rows@[old_rows.len() as int])) =~= rows_view(
                        old_rows,
                    ).push(line));
                    assert(rows_view(old_rows).push(line) + lines_of(chars@.skip(i + 1))
                        =~= rows_view(old_rows) + (seq![line] + lines_of(chars@.skip(i + 1))));
                    assert(cur@ + chars@.skip(i + 1) =~= chars@.skip(i + 1));
                }
            } else {
                let ghost old_cur = cur@;
                cur.push(c);
                proof {
                    assert(cur@ + chars@.skip(i + 1) =~= old_cur + chars@.skip(i as int));
                    assert forall|j: int| 0 <= j < cur@.len() implies cur@[j] != '\n' by {
                        if j < old_cur.len() {
                            assert(cur@[j] == old_cur[j]);
                        }
                    }
                }
            }
            i = i + 1;
        }
        proof {
            assert(cur@ + chars@.skip(n as int) =~= cur@);
        }
        if cur.len() > 0 {
            proof {
                lemma_lines_of_unbroken(cur@);
            }
            let ghost old_rows = rows@;
            let ghost line = cur@;
            rows.push(Row::from_chars(cur));
            proof {
                assert(rows_view(old_rows.push(rows@[old_rows.len() as int])) =~= rows_view(
                    old_rows,
                ).push(line));
                assert(rows_view(old_rows).push(line) =~= rows_view(old_rows) + seq![line]);
            }
        } else {
            proof {
                assert(rows_view(rows@) + lines_of(cur@) =~= rows_view(rows@));
            }
        }
        let d = Document { rows, file: None };
        proof {
            lemma_lines_of_wf(text@);
        }
        d
    }

    /// The text that `save` persists: every row followed by one line
    /// separator.
    pub fn to_text(&self) -> (s: String)
        ensures
            s@ == join_lines(self@),
    {
        let mut out: Vec<char> = Vec::new();
        let mut i: usize = 0;
        proof {
            assert(self@.take(0) =~= Seq::<Seq<char>>::empty());
        }
        while i < self.rows.len()
            invariant
                out@ == join_lines(self@.take(i as int)),
                i <= self.rows@.len(),
                self@ == rows_view(self.rows@),
            decreases self.rows@.len() - i,
        {
            let row = &self.rows[i];
            let mut j: usize = 0;
            let n = row.len();
            while j < n
                invariant
                    n == row@.len(),
                    j <= n,
                    out@ == join_lines(self@.take(i as int)) + row@.subrange(0, j as int),
                decreases n - j,
            {
                out.push(row.char_at(j));
                proof {
                    assert(row@.subrange(0, j as int).push(row@[j as int]) =~= row@.subrange(
                        0,
                        j + 1,
                    ));
                    assert((join_lines(self@.take(i as int)) + row@.subrange(0, j as int)).push(
                        row@[j as int],
                    ) =~= join_lines(self@.take(i as int)) + row@.subrange(0, j + 1));
                }
                j = j + 1;
            }
            out.push('\n');
            proof {
                lemma_join_lines_push(self@.take(i as int), row@);
                assert(self@.take(i as int).push(row@) =~= self@.take(i + 1));
                assert(row@.subrange(0, row@.len() as int) =~= row@);
                assert((join_lines(self@.take(i as int)) + row@).push('\n') =~= join_lines(
                    self@.take(i as int),
                ) + row@.push('\n'));
            }
            i = i + 1;
        }
        proof {
            assert(self@.take(self.rows@.len() as int) =~= self@);
        }
        chars_to_string(&out)
    }

    /// The row at index `y`, if the document has one; never panics on an
    /// out-of-range index.
    pub fn row(&self, index: usize) -> (r: Option<&Row>)
        ensures
            index < self@.len() ==> (r matches Some(row) && row@ == self@[index as int]),
            index >= self@.len() ==> r is None,
    {
        self.rows.get(index)
    }

    /// Whether the document has no rows at all.
    pub fn is_empty(&self) -> (r: bool)
        ensures
            r == (self@.len() == 0),
    {
        self.rows.is_empty()
    }

    /// The number of rows.
    pub fn len(&self) -> (n: usize)
        ensures
            n == self@.len(),
    {
        self.rows.len()
    }

    /// Inserts `c` at `pos`: a separator breaks the line, the virtual row
    /// just past the end opens a new row, a position further out is a no-op.
    pub fn insert(&mut self, pos: &Position, c: char)
        ensures
            final(self)@ == doc_insert_spec(old(self)@, pos.x as int, pos.y as int, c),
            final(self).file_view() == old(self).file_view(),
            doc_wf(old(self)@) ==> doc_wf(final(self)@),
    {
        proof {
            if doc_wf(self@) {
                lemma_doc_insert_wf(self@, pos.x as int, pos.y as int, c);
            }
        }
        if c == '\n' {
            self.insert_line_break(pos);
            return;
        }
        if pos.y == self.rows.len() {
            let mut row = Row::default();
            row.insert(0, c);
            let ghost old_rows = self.rows@;
            self.rows.push(row);
            proof {
                assert(row@ =~= seq![c]);
                assert(rows_view(old_rows.push(row)) =~= rows_view(old_rows).push(row@));
            }
        } else if pos.y < self.rows.len() {
            let mut row = self.rows.remove(pos.y);
            row.insert(pos.x, c);
            let ghost old_rows = old(self).rows@;
            self.rows.insert(pos.y, row);
            proof {
                assert(self.rows@ =~= old_rows.update(pos.y as int, row));
                assert(rows_view(old_rows.update(pos.y as int, row)) =~= rows_view(
                    old_rows,
                ).update(pos.y as int, row@));
            }
        }
    }

    /// Breaks the line at `pos`: the tail of the addressed row becomes the
    /// next row; on the virtual row just past the end an empty row is
    /// appended; a position further out is a no-op.
    pub fn insert_line_break(&mut self, pos: &Position)
        ensures
            final(self)@ == doc_break_spec(old(self)@, pos.x as int, pos.y as int),
            final(self).file_view() == old(self).file_view(),
            doc_wf(old(self)@) ==> doc_wf(final(self)@),
    {
        proof {
            if doc_wf(self@) {
                lemma_doc_break_wf(self@, pos.x as int, pos.y as int);
            }
        }
        if pos.y > self.rows.len() {
            return;
        }
        if pos.y == self.rows.len() {
            let ghost old_rows = self.rows@;
            self.rows.push(Row::default());
            proof {
                assert(rows_view(self.rows@) =~= rows_view(old_rows).push(Seq::empty()));
                assert(rows_view(old_rows).push(Seq::empty()) =~= old(self)@.push(Seq::empty()));
            }
            return;
        }
        let mut row = self.rows.remove(pos.y);
        let tail = row.split(pos.x);
        let ghost old_rows = old(self).rows@;
        self.rows.insert(pos.y, row);
        self.rows.insert(pos.y + 1, tail);
        proof {
            let y = pos.y as int;
            let at = row_split_at(old(self)@[y], pos.x as int);
            assert(self.rows@ =~= old_rows.update(y, row).insert(y + 1, tail));
            assert(rows_view(self.rows@) =~= rows_view(old_rows).update(y, row@).insert(
                y + 1,
                tail@,
            ));
        }
    }

    /// Forward delete at `pos`: past the last row nothing happens; at the
    /// end of a row that has a successor the next row is merged in;
    /// otherwise one scalar is removed from the addressed row.
    pub fn delete(&mut self, pos: &Position)
        ensures
            final(self)@ == doc_delete_spec(old(self)@, pos.x as int, pos.y as int),
            final(self).file_view() == old(self).file_view(),
            doc_wf(old(self)@) ==> doc_wf(final(self)@),
    {
        proof {
            if doc_wf(self@) {
                lemma_doc_delete_wf(self@, pos.x as int, pos.y as int);
            }
        }
        let len = self.rows.len();
        if pos.y >= len {
            return;
        }
        if pos.x == self.rows[pos.y].len() && pos.y < len - 1 {
            let next_row = self.rows.remove(pos.y + 1);
            let mut row = self.rows.remove(pos.y);
            row.append(next_row);
            let ghost old_rows = old(self).rows@;
            self.rows.insert(pos.y, row);
            proof {
                let y = pos.y as int;
                assert(self.rows@ =~= old_rows.update(y, row).remove(y + 1));
                assert(rows_view(old_rows.update(y, row).remove(y + 1)) =~= rows_view(
                    old_rows,
                ).update(y, row@).remove(y + 1));
            }
        } else {
            let mut row = self.rows.remove(pos.y);
            row.delete(pos.x);
            let ghost old_rows = old(self).rows@;
            self.rows.insert(pos.y, row);
            proof {
                let y = pos.y as int;
                assert(self.rows@ =~= old_rows.update(y, row));
                assert(rows_view(old_rows.update(y, row)) =~= rows_view(old_rows).update(
                    y,
                    row@,
                ));
            }
        }
    }
}

impl Default for Document {
    /// An empty, unnamed buffer.
    fn default() -> (d: Document)
        ensures
            d@ == Seq::<Seq<char>>::empty(),
            d.file_view() is None,
    {
        Document { rows: Vec::new(), file: None }
    }
}

} // verus!
