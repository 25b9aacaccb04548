use vstd::prelude::*;
use crate::text::chars_to_string;
use crate::text::str_to_chars;

verus! {

/// One line of editable text: an owned sequence of Unicode scalar values.
///
/// A well-formed row holds no line separator; splitting text into lines is
/// the document's responsibility.
pub struct Row {
    chars: Vec<char>,
}

impl View for Row {
    type V = Seq<char>;

    closed spec fn view(&self) -> Seq<char> {
        self.chars@
    }
}

/// No line separator occurs in `s`.
pub open spec fn line_wf(s: Seq<char>) -> bool {
    forall|i: int| 0 <= i < s.len() ==> s[i] != '\n'
}

/// `s` with `c` inserted at offset `x`; an offset past the end appends, and a
/// line separator is rejected unchanged (line splitting belongs to the
/// document layer).
pub open spec fn row_insert_spec(s: Seq<char>, x: int, c: char) -> Seq<char> {
    if c == '\n' {
        s
    } else if x >= s.len() {
        s.push(c)
    } else {
        s.insert(x, c)
    }
}

/// `s` with the scalar at offset `x` removed; an out-of-range offset leaves
/// `s` unchanged.
pub open spec fn row_delete_spec(s: Seq<char>, x: int) -> Seq<char> {
    if 0 <= x < s.len() {
        s.remove(x)
    } else {
        s
    }
}

/// The split offset actually used by `Row::split`: `x` clamped to the row.
pub open spec fn row_split_at(s: Seq<char>, x: int) -> int {
    if x < 0 {
        0
    } else if x <= s.len() {
        x
    } else {
        s.len() as int
    }
}

/// Inserting a non-separator scalar into a well-formed line keeps it
/// well formed.
pub proof fn lemma_row_insert_wf(s: Seq<char>, x: int, c: char)
    requires
        line_wf(s),
        0 <= x,
    ensures
        line_wf(row_insert_spec(s, x, c)),
{
    let r = row_insert_spec(s, x, c);
    assert forall|i: int| 0 <= i < r.len() implies r[i] != '\n' by {
        if c != '\n' {
            if x >= s.len() {
                assert(r == s.push(c));
            } else {
                assert(r == s.insert(x, c));
            }
        }
    }
}

/// Removing a scalar from a well-formed line keeps it well formed.
pub proof fn lemma_row_delete_wf(s: Seq<char>, x: int)
    requires
        line_wf(s),
    ensures
        line_wf(row_delete_spec(s, x)),
{
}

impl Row {
    /// Materializes the scalar sequence of one line of text.
    pub fn from(text: &str) -> (r: Row)
        ensures
            r@ == text@,
    {
        Row { chars: str_to_chars(text) }
    }

    /// Wraps an already materialized scalar sequence as a row.
    pub fn from_chars(v: Vec<char>) -> (r: Row)
        ensures
            r@ == v@,
    {
        Row { chars: v }
    }

    /// The scalar at offset `i`.
    pub fn char_at(&self, i: usize) -> (c: char)
        requires
            i < self@.len(),
        ensures
            c == self@[i as int],
    {
        self.chars[i]
    }

    /// The number of scalar values (not bytes) in the row.
    pub fn len(&self) -> (n: usize)
        ensures
            n == self@.len(),
    {
        self.chars.len()
    }

    /// The row's text, rebuilt as an owned string; its UTF-8 bytes are what
    /// persistence writes.
    pub fn as_text(&self) -> (s: String)
        ensures
            s@ == self@,
    {
        chars_to_string(&self.chars)
    }

    /// Inserts `c` at scalar offset `x`, appending when `x` is past the end.
    /// A line separator is rejected here: the document splits lines instead.
    pub fn insert(&mut self, x: usize, c: char)
        ensures
            final(self)@ == row_insert_spec(old(self)@, x as int, c),
    {
        if c == '\n' {
            return;
        }
        if x >= self.chars.len() {
            self.chars.push(c);
        } else {
            self.chars.insert(x, c);
        }
    }

    /// Removes the scalar at offset `x`; out of range is a no-op.
    pub fn delete(&mut self, x: usize)
        ensures
            final(self)@ == row_delete_spec(old(self)@, x as int),
    {
        if x < self.chars.len() {
            self.chars.remove(x);
        }
    }

    /// Removes the scalar just before offset `x`; at the start of the row
    /// nothing happens.
    pub fn backspace(&mut self, x: usize)
        ensures
            x == 0 ==> final(self)@ == old(self)@,
            x > 0 ==> final(self)@ == row_delete_spec(old(self)@, x - 1),
    {
        if x > 0 {
            self.delete(x - 1);
        }
    }

    /// Truncates the row to `[0, x)` and hands back the tail `[x, end)`;
    /// `x` is clamped to the length, so a split past the end yields an
    /// empty tail.
    pub fn split(&mut self, x: usize) -> (tail: Row)
        ensures
            final(self)@ == old(self)@.take(row_split_at(old(self)@, x as int)),
            tail@ == old(self)@.skip(row_split_at(old(self)@, x as int)),
    {
        let at = if x <= self.chars.len() {
            x
        } else {
            self.chars.len()
        };
        let tail_chars = self.chars.split_off(at);
        proof {
            assert(self@ =~= old(self)@.take(row_split_at(old(self)@, x as int)));
            assert(tail_chars@ =~= old(self)@.skip(row_split_at(old(self)@, x as int)));
        }
        Row { chars: tail_chars }
    }

    /// Concatenates `other` onto the end of this row; used when two lines
    /// merge.
    pub fn append(&mut self, other: Row)
        ensures
            final(self)@ == old(self)@ + other@,
    {
        let mut tail = other;
        self.chars.append(&mut tail.chars);
    }

    /// The substring visible in a horizontally scrolled window `[start, end)`,
    /// clipped to the row's actual length; `start` at or past the end yields
    /// an empty string.
    pub fn render(&self, start: usize, end: usize) -> (s: String)
        ensures
            s@ == row_render_spec(self@, start as int, end as int),
    {
        let e = if end <= self.chars.len() {
            end
        } else {
            self.chars.len()
        };
        let st = if start <= e {
            start
        } else {
            e
        };
        let mut out: Vec<char> = Vec::new();
        let mut i: usize = st;
        while i < e
            invariant
                st <= i <= e <= self@.len(),
                out@ == self@.subrange(st as int, i as int),
            decreases e - i,
        {
            out.push(self.chars[i]);
            proof {
                assert(self@.subrange(st as int, i as int).push(self@[i as int]) =~= self@
                    .subrange(st as int, i + 1));
            }
            i = i + 1;
        }
        chars_to_string(&out)
    }
}

/// The window of `s` that `Row::render(start, end)` shows: `[start, end)`
/// clipped to the row.
pub open spec fn row_render_spec(s: Seq<char>, start: int, end: int) -> Seq<char> {
    let e = if end <= s.len() {
        end
    } else {
        s.len() as int
    };
    let st = if start <= e {
        start
    } else {
        e
    };
    s.subrange(st, e)
}

impl Default for Row {
    /// An empty row.
    fn default() -> (r: Row)
        ensures
            r@ == Seq::<char>::empty(),
    {
        Row { chars: Vec::new() }
    }
}

} // verus!
