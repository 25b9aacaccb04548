use vstd::prelude::*;
use vstd::string::StringExecFns;
use crate::document::Document;
use crate::document::doc_insert_spec;
use crate::document::doc_break_spec;
use crate::document::doc_delete_spec;
use crate::document::doc_wf;
use crate::document::lines_of;
use crate::document::opt_text;
use crate::position::Position;
use crate::row::Row;
use crate::row::row_render_spec;
use crate::terminal::Terminal;
use crate::text::chars_to_string;
use crate::text::str_to_chars;
use crate::text::char_range;
use crate::text::dec_rep;
use crate::text::fmt_usize;
use crate::text::pad_left;
use crate::text::pad_left_to;
use crate::text::space_seq;
use crate::text::spaces;
use crate::text::truncated;

verus! {

/// `a + b`, saturating at the machine-word ceiling, as cursor arithmetic
/// does.
pub open spec fn sat_add(a: int, b: int) -> int {
    if a + b > usize::MAX {
        usize::MAX as int
    } else {
        a + b
    }
}

/// `a - b`, saturating at zero, as cursor arithmetic does.
pub open spec fn sat_sub(a: int, b: int) -> int {
    if a - b < 0 {
        0
    } else {
        a - b
    }
}

/// The length of row `y` of `d`, with zero for any index past the buffer
/// (including the virtual append row).
pub open spec fn row_len_at(d: Seq<Seq<char>>, y: int) -> int {
    if 0 <= y < d.len() {
        d[y].len() as int
    } else {
        0
    }
}

/// A navigation key.
#[derive(Clone, Copy, PartialEq, Eq, Structural, Debug)]
pub enum NavKey {
    Up,
    Down,
    Left,
    Right,
    PageUp,
    PageDown,
    Home,
    End,
}

/// One decoded command per input cycle; the application's event decoder
/// produces exactly one of these from a key press.
#[derive(Clone, Copy, PartialEq, Eq, Structural, Debug)]
pub enum Command {
    Quit,
    Move(NavKey),
    Insert(char),
    Break,
    DeleteForward,
    Backspace,
}

/// The raw cursor/offset transition for one navigation key, before the
/// end-of-row clamp and the scroll recompute: new `x`, new `y`, new vertical
/// offset. `th` is the viewport height, which PageUp/PageDown jump by.
pub open spec fn nav_raw(d: Seq<Seq<char>>, x: int, y: int, off_y: int, th: int, key: NavKey) -> (
    int,
    int,
    int,
) {
    let cols = row_len_at(d, y);
    let rows = d.len() as int;
    match key {
        NavKey::Up => (x, sat_sub(y, 1), off_y),
        NavKey::Down => (x, if y < rows { y + 1 } else { y }, off_y),
        NavKey::Left => if x == 0 {
            if y > 0 {
                (row_len_at(d, y - 1), y - 1, off_y)
            } else {
                (x, y, off_y)
            }
        } else {
            (x - 1, y, off_y)
        },
        NavKey::Right => if x == cols {
            if y < rows {
                (0, y + 1, off_y)
            } else {
                (x, y, off_y)
            }
        } else {
            (sat_add(x, 1), y, off_y)
        },
        NavKey::PageUp => if y > 0 {
            (x, sat_sub(y, th), sat_sub(off_y, th))
        } else {
            (x, y, off_y)
        },
        NavKey::PageDown => if y < rows {
            (x, if sat_add(y, th) < rows { sat_add(y, th) } else { rows }, sat_add(off_y, th))
        } else {
            (x, y, off_y)
        },
        NavKey::Home => (0, y, off_y),
        NavKey::End => (cols, y, off_y),
    }
}

/// The post-move clamp: `x` may never exceed the length of the row the
/// cursor lands on.
pub open spec fn clamp_x(d: Seq<Seq<char>>, x: int, y: int) -> int {
    if x > row_len_at(d, y) {
        row_len_at(d, y)
    } else {
        x
    }
}

/// One navigation key applied to the cursor, clamp included: new `x`, new
/// `y`, new vertical offset (still before the scroll recompute).
pub open spec fn move_target(d: Seq<Seq<char>>, x: int, y: int, off_y: int, th: int, key: NavKey)
    -> (int, int, int) {
    let t = nav_raw(d, x, y, off_y, th, key);
    (clamp_x(d, t.0, t.1), t.1, t.2)
}

/// The scroll recompute along one axis: pull the window back to the cursor,
/// or push it just far enough that the cursor is the last visible cell.
pub open spec fn scroll_axis(pos: int, off: int, extent: int) -> int {
    if pos < off {
        pos
    } else if pos >= sat_add(off, extent) {
        sat_add(sat_sub(pos, extent), 1)
    } else {
        off
    }
}

/// One whole navigation step: transition, clamp, then scroll on both axes.
/// Returns the new cursor `x` and `y` and the new offset `x` and `y`.
pub open spec fn move_step(
    d: Seq<Seq<char>>,
    x: int,
    y: int,
    off_x: int,
    off_y: int,
    tw: int,
    th: int,
    key: NavKey,
) -> (int, int, int, int) {
    let t = move_target(d, x, y, off_y, th, key);
    (t.0, t.1, scroll_axis(t.0, off_x, tw), scroll_axis(t.1, t.2, th))
}

/// A whole sequence of navigation steps, applied left to right.
pub open spec fn apply_moves(
    d: Seq<Seq<char>>,
    x: int,
    y: int,
    off_x: int,
    off_y: int,
    tw: int,
    th: int,
    keys: Seq<NavKey>,
) -> (int, int, int, int)
    decreases keys.len(),
{
    if keys.len() == 0 {
        (x, y, off_x, off_y)
    } else {
        let st = move_step(d, x, y, off_x, off_y, tw, th, keys[0]);
        apply_moves(d, st.0, st.1, st.2, st.3, tw, th, keys.skip(1))
    }
}

/// After the scroll recompute the cursor lies inside the window:
/// `off <= pos < off + extent`, for any window extent of at least one cell.
pub proof fn lemma_scroll_axis_bounds(pos: int, off: int, extent: int)
    requires
        0 <= pos <= usize::MAX,
        0 <= off,
        1 <= extent,
    ensures
        scroll_axis(pos, off, extent) <= pos,
        pos < scroll_axis(pos, off, extent) + extent,
        0 <= scroll_axis(pos, off, extent) <= usize::MAX,
{
}

/// One navigation step keeps every coordinate a machine word, and, for a
/// viewport of at least one cell on each axis, leaves the cursor inside the
/// window on both axes.
pub proof fn lemma_move_step_in_range(
    d: Seq<Seq<char>>,
    x: int,
    y: int,
    off_x: int,
    off_y: int,
    tw: int,
    th: int,
    key: NavKey,
)
    requires
        d.len() <= usize::MAX,
        forall|i: int| 0 <= i < d.len() ==> (#[trigger] d[i]).len() <= usize::MAX,
        0 <= x <= usize::MAX,
        0 <= y <= usize::MAX,
        0 <= off_x <= usize::MAX,
        0 <= off_y <= usize::MAX,
        0 <= tw,
        0 <= th,
    ensures
        ({
            let st = move_step(d, x, y, off_x, off_y, tw, th, key);
            &&& 0 <= st.0 <= usize::MAX
            &&& 0 <= st.1 <= usize::MAX
            &&& 0 <= st.2 <= usize::MAX
            &&& 0 <= st.3 <= usize::MAX
            &&& (tw >= 1 ==> st.2 <= st.0 < st.2 + tw)
            &&& (th >= 1 ==> st.3 <= st.1 < st.3 + th)
        }),
{
    let t = move_target(d, x, y, off_y, th, key);
    assert(0 <= t.0 <= usize::MAX);
    assert(0 <= t.1 <= usize::MAX);
    assert(0 <= t.2 <= usize::MAX);
    if tw >= 1 {
        lemma_scroll_axis_bounds(t.0, off_x, tw);
    }
    if th >= 1 {
        lemma_scroll_axis_bounds(t.1, t.2, th);
    }
}

/// After one navigation step the cursor column never exceeds the length of
/// the row it rests on.
pub proof fn lemma_move_step_cursor_clamped(
    d: Seq<Seq<char>>,
    x: int,
    y: int,
    off_x: int,
    off_y: int,
    tw: int,
    th: int,
    key: NavKey,
)
    ensures
        move_step(d, x, y, off_x, off_y, tw, th, key).0 <= row_len_at(
            d,
            move_step(d, x, y, off_x, off_y, tw, th, key).1,
        ),
{
}

/// After any non-empty sequence of navigation steps, on any viewport, the
/// cursor column never exceeds the length of the row it rests on.
pub proof fn lemma_moves_keep_cursor_clamped(
    d: Seq<Seq<char>>,
    x: int,
    y: int,
    off_x: int,
    off_y: int,
    tw: int,
    th: int,
    keys: Seq<NavKey>,
)
    requires
        keys.len() > 0,
    ensures
        ({
            let r = apply_moves(d, x, y, off_x, off_y, tw, th, keys);
            r.0 <= row_len_at(d, r.1)
        }),
    decreases keys.len(),
{
    let st = move_step(d, x, y, off_x, off_y, tw, th, keys[0]);
    if keys.len() == 1 {
        assert(keys.skip(1).len() == 0);
        assert(apply_moves(d, st.0, st.1, st.2, st.3, tw, th, keys.skip(1)) == st);
    } else {
        lemma_moves_keep_cursor_clamped(d, st.0, st.1, st.2, st.3, tw, th, keys.skip(1));
    }
}

/// After any non-empty sequence of navigation steps on a viewport of at
/// least one cell per axis, the cursor lies inside the window on both axes.
pub proof fn lemma_moves_keep_viewport(
    d: Seq<Seq<char>>,
    x: int,
    y: int,
    off_x: int,
    off_y: int,
    tw: int,
    th: int,
    keys: Seq<NavKey>,
)
    requires
        keys.len() > 0,
        d.len() <= usize::MAX,
        forall|i: int| 0 <= i < d.len() ==> (#[trigger] d[i]).len() <= usize::MAX,
        0 <= x <= usize::MAX,
        0 <= y <= usize::MAX,
        0 <= off_x <= usize::MAX,
        0 <= off_y <= usize::MAX,
        1 <= tw,
        1 <= th,
    ensures
        ({
            let r = apply_moves(d, x, y, off_x, off_y, tw, th, keys);
            &&& r.2 <= r.0 < r.2 + tw
            &&& r.3 <= r.1 < r.3 + th
        }),
    decreases keys.len(),
{
    let st = move_step(d, x, y, off_x, off_y, tw, th, keys[0]);
    lemma_move_step_in_range(d, x, y, off_x, off_y, tw, th, keys[0]);
    if keys.len() == 1 {
        assert(keys.skip(1).len() == 0);
        assert(apply_moves(d, st.0, st.1, st.2, st.3, tw, th, keys.skip(1)) == st);
    } else {
        lemma_moves_keep_viewport(d, st.0, st.1, st.2, st.3, tw, th, keys.skip(1));
    }
}

/// A transient status line, stamped with the moment it was posted, in
/// milliseconds of whatever monotonic clock the application supplies.
pub struct StatusMessage {
    pub text: String,
    pub time: u64,
}

impl StatusMessage {
    /// Wraps a message with its posting time.
    pub fn from(message: String, now_ms: u64) -> (m: StatusMessage)
        ensures
            m.text@ == message@,
            m.time == now_ms,
    {
        StatusMessage { text: message, time: now_ms }
    }
}

/// The whole editor state one input cycle acts on: the buffer, the cursor,
/// the viewport offset, the terminal extent, the quit flag and the transient
/// status message.
pub struct Editor {
    pub terminal: Terminal,
    pub quit: bool,
    pub cursor_position: Position,
    pub document: Document,
    pub offset: Position,
    pub status_message: StatusMessage,
}

impl Editor {
    /// A fresh editor over `document`: cursor and offset at the origin, not
    /// quitting.
    pub fn new(terminal: Terminal, document: Document, status_message: StatusMessage) -> (e:
        Editor)
        ensures
            e.terminal == terminal,
            e.quit == false,
            e.cursor_position == (Position { x: 0, y: 0 }),
            e.offset == (Position { x: 0, y: 0 }),
            e.document == document,
            e.status_message == status_message,
    {
        Editor {
            terminal,
            quit: false,
            cursor_position: Position { x: 0, y: 0 },
            document,
            offset: Position { x: 0, y: 0 },
            status_message,
        }
    }

    /// The scroll recompute, run after every move: pulls the window back to
    /// the cursor or pushes it down/right just far enough, on each axis
    /// independently. Afterwards the cursor lies inside any window of at
    /// least one cell per axis.
    pub fn scroll(&mut self)
        ensures
            final(self).offset.x as int == scroll_axis(
                old(self).cursor_position.x as int,
                old(self).offset.x as int,
                old(self).terminal.spec_size().colums as int,
            ),
            final(self).offset.y as int == scroll_axis(
                old(self).cursor_position.y as int,
                old(self).offset.y as int,
                old(self).terminal.spec_size().rows as int,
            ),
            final(self).cursor_position == old(self).cursor_position,
            final(self).document == old(self).document,
            final(self).terminal == old(self).terminal,
            final(self).quit == old(self).quit,
            final(self).status_message == old(self).status_message,
            old(self).terminal.spec_size().colums >= 1 ==> final(self).offset.x
                <= final(self).cursor_position.x < final(self).offset.x as int + old(
                self,
            ).terminal.spec_size().colums as int,
            old(self).terminal.spec_size().rows >= 1 ==> final(self).offset.y
                <= final(self).cursor_position.y < final(self).offset.y as int + old(
                self,
            ).terminal.spec_size().rows as int,
    {
        let colum = self.terminal.size().colums as usize;
        let row = self.terminal.size().rows as usize;
        let x = self.cursor_position.x;
        let y = self.cursor_position.y;
        if y < self.offset.y {
            self.offset.y = y;
        } else if y >= self.offset.y.saturating_add(row) {
            self.offset.y = y.saturating_sub(row).saturating_add(1);
        }
        if x < self.offset.x {
            self.offset.x = x;
        } else if x >= self.offset.x.saturating_add(colum) {
            self.offset.x = x.saturating_sub(colum).saturating_add(1);
        }
    }

    /// The length of the row the cursor would find at index `y`: zero past
    /// the end of the buffer.
    fn row_len(&self, y: usize) -> (n: usize)
        ensures
            n as int == row_len_at(self.document@, y as int),
    {
        match self.document.row(y) {
            Option::Some(row) => row.len(),
            Option::None => 0,
        }
    }

    /// Applies one navigation key: the transition for the key, then the
    /// end-of-row clamp, then the scroll recompute. The buffer itself is
    /// untouched; afterwards the cursor column never exceeds the length of
    /// its row, and for a viewport of at least one cell per axis the cursor
    /// lies inside the window.
    pub fn move_cursor(&mut self, key: NavKey)
        ensures
            ({
                let st = move_step(
                    old(self).document@,
                    old(self).cursor_position.x as int,
                    old(self).cursor_position.y as int,
                    old(self).offset.x as int,
                    old(self).offset.y as int,
                    old(self).terminal.spec_size().colums as int,
                    old(self).terminal.spec_size().rows as int,
                    key,
                );
                &&& final(self).cursor_position.x as int == st.0
                &&& final(self).cursor_position.y as int == st.1
                &&& final(self).offset.x as int == st.2
                &&& final(self).offset.y as int == st.3
            }),
            final(self).document == old(self).document,
            final(self).terminal == old(self).terminal,
            final(self).quit == old(self).quit,
            final(self).status_message == old(self).status_message,
            final(self).cursor_position.x as int <= row_len_at(
                old(self).document@,
                final(self).cursor_position.y as int,
            ),
            old(self).terminal.spec_size().colums >= 1 ==> final(self).offset.x
                <= final(self).cursor_position.x < final(self).offset.x as int + old(
                self,
            ).terminal.spec_size().colums as int,
            old(self).terminal.spec_size().rows >= 1 ==> final(self).offset.y
                <= final(self).cursor_position.y < final(self).offset.y as int + old(
                self,
            ).terminal.spec_size().rows as int,
    {
        let terminal_height = self.terminal.size().rows as usize;
        let mut x = self.cursor_position.x;
        let mut y = self.cursor_position.y;
        let rows = self.document.len();
        let colums = self.row_len(y);
        match key {
            NavKey::Up => {
                y = y.saturating_sub(1);
            },
            NavKey::Down => {
                if y < rows {
                    y = y + 1;
                }
            },
            NavKey::Left => {
                if x == 0 {
                    if y > 0 {
                        y = y - 1;
                        x = self.row_len(y);
                    }
                } else {
                    x = x - 1;
                }
            },
            NavKey::Right => {
                if x == colums {
                    if y < rows {
                        y = y + 1;
                        x = 0;
                    }
                } else {
                    x = x.saturating_add(1);
                }
            },
            NavKey::PageUp => {
                if y > 0 {
                    y = y.saturating_sub(terminal_height);
                    self.offset.y = self.offset.y.saturating_sub(terminal_height);
                }
            },
            NavKey::PageDown => {
                if y < rows {
                    let jump = y.saturating_add(terminal_height);
                    y = if jump < rows {
                        jump
                    } else {
                        rows
                    };
                    self.offset.y = self.offset.y.saturating_add(terminal_height);
                }
            },
            NavKey::Home => {
                x = 0;
            },
            NavKey::End => {
                x = colums;
            },
        }
        let new_colums = self.row_len(y);
        if x > new_colums {
            x = new_colums;
        }
        self.cursor_position = Position { x, y };
        self.scroll();
    }

    /// Applies one decoded command: quit, a cursor move, a scalar insert
    /// (followed by a move right, as typing advances the cursor), a line
    /// break (likewise), a forward delete, or a backspace (a move left
    /// composed with a forward delete, so a backspace at the very start of
    /// the buffer does nothing).
    pub fn process_key(&mut self, cmd: Command)
        ensures
            final(self).terminal == old(self).terminal,
            final(self).status_message == old(self).status_message,
            final(self).document.file_view() == old(self).document.file_view(),
            final(self).quit == (old(self).quit || cmd == Command::Quit),
            cmd == Command::Quit ==> final(self).document == old(self).document
                && final(self).cursor_position == old(self).cursor_position && final(self).offset
                == old(self).offset,
            cmd matches Command::Move(k) ==> ({
                let st = move_step(
                    old(self).document@,
                    old(self).cursor_position.x as int,
                    old(self).cursor_position.y as int,
                    old(self).offset.x as int,
                    old(self).offset.y as int,
                    old(self).terminal.spec_size().colums as int,
                    old(self).terminal.spec_size().rows as int,
                    k,
                );
                &&& final(self).document == old(self).document
                &&& final(self).cursor_position.x as int == st.0
                &&& final(self).cursor_position.y as int == st.1
                &&& final(self).offset.x as int == st.2
                &&& final(self).offset.y as int == st.3
            }),
            cmd matches Command::Insert(c) ==> ({
                let d2 = doc_insert_spec(
                    old(self).document@,
                    old(self).cursor_position.x as int,
                    old(self).cursor_position.y as int,
                    c,
                );
                let st = move_step(
                    d2,
                    old(self).cursor_position.x as int,
                    old(self).cursor_position.y as int,
                    old(self).offset.x as int,
                    old(self).offset.y as int,
                    old(self).terminal.spec_size().colums as int,
                    old(self).terminal.spec_size().rows as int,
                    NavKey::Right,
                );
                &&& final(self).document@ == d2
                &&& final(self).cursor_position.x as int == st.0
                &&& final(self).cursor_position.y as int == st.1
                &&& final(self).offset.x as int == st.2
                &&& final(self).offset.y as int == st.3
            }),
            cmd == Command::Break ==> ({
                let d2 = doc_break_spec(
                    old(self).document@,
                    old(self).cursor_position.x as int,
                    old(self).cursor_position.y as int,
                );
                let st = move_step(
                    d2,
                    old(self).cursor_position.x as int,
                    old(self).cursor_position.y as int,
                    old(self).offset.x as int,
                    old(self).offset.y as int,
                    old(self).terminal.spec_size().colums as int,
                    old(self).terminal.spec_size().rows as int,
                    NavKey::Right,
                );
                &&& final(self).document@ == d2
                &&& final(self).cursor_position.x as int == st.0
                &&& final(self).cursor_position.y as int == st.1
                &&& final(self).offset.x as int == st.2
                &&& final(self).offset.y as int == st.3
            }),
            cmd == Command::DeleteForward ==> final(self).document@ == doc_delete_spec(
                old(self).document@,
                old(self).cursor_position.x as int,
                old(self).cursor_position.y as int,
            ) && final(self).cursor_position == old(self).cursor_position && final(self).offset
                == old(self).offset,
            cmd == Command::Backspace ==> ({
                let st = move_step(
                    old(self).document@,
                    old(self).cursor_position.x as int,
                    old(self).cursor_position.y as int,
                    old(self).offset.x as int,
                    old(self).offset.y as int,
                    old(self).terminal.spec_size().colums as int,
                    old(self).terminal.spec_size().rows as int,
                    NavKey::Left,
                );
                if old(self).cursor_position.x > 0 || old(self).cursor_position.y > 0 {
                    &&& final(self).document@ == doc_delete_spec(old(self).document@, st.0, st.1)
                    &&& final(self).cursor_position.x as int == st.0
                    &&& final(self).cursor_position.y as int == st.1
                    &&& final(self).offset.x as int == st.2
                    &&& final(self).offset.y as int == st.3
                } else {
                    &&& final(self).document == old(self).document
                    &&& final(self).cursor_position == old(self).cursor_position
                    &&& final(self).offset == old(self).offset
                }
            }),
    {
        match cmd {
            Command::Quit => {
                self.quit = true;
            },
            Command::Move(k) => {
                self.move_cursor(k);
            },
            Command::Insert(c) => {
                let pos = self.cursor_position;
                self.document.insert(&pos, c);
                self.move_cursor(NavKey::Right);
            },
            Command::Break => {
                let pos = self.cursor_position;
                self.document.insert_line_break(&pos);
                self.move_cursor(NavKey::Right);
            },
            Command::DeleteForward => {
                let pos = self.cursor_position;
                self.document.delete(&pos);
            },
            Command::Backspace => {
                if self.cursor_position.x > 0 || self.cursor_position.y > 0 {
                    self.move_cursor(NavKey::Left);
                    let pos = self.cursor_position;
                    self.document.delete(&pos);
                }
            },
        }
    }

    /// The centered welcome banner line for an empty buffer, padded to the
    /// middle of the terminal and cut to its width.
    pub fn welcome_messages(&self) -> (s: String)
        ensures
            s@ == welcome_line(self.terminal.spec_size().colums as int),
    {
        let cols = self.terminal.size().colums as usize;
        let msg = str_to_chars("Hecto editor -- version 0.1.0");
        let len = msg.len();
        let padding = cols.saturating_sub(len) / 2;
        let mut line = spaces(padding.saturating_sub(1));
        let mut tail = msg;
        line.append(&mut tail);
        line.truncate(cols);
        chars_to_string(&line)
    }

    /// The part of `row` visible through the horizontal viewport window,
    /// with four columns reserved for the gutter.
    pub fn render_row(&self, row: &Row) -> (s: String)
        ensures
            s@ == rendered_row(
                row@,
                self.offset.x as int,
                self.terminal.spec_size().colums as int,
            ),
    {
        let offset = self.offset.x;
        let start = offset;
        let end = (self.terminal.size().colums as usize).saturating_sub(4).saturating_add(offset);
        row.render(start, end)
    }

    /// The text of terminal row `r` of one frame: the welcome banner at the
    /// vertical center of an empty buffer, a document row with its gutter
    /// label, or a blank filler line with its gutter label.
    fn frame_line_text(&self, r: u16) -> (s: String)
        ensures
            s@ == frame_line(
                self.document@,
                self.offset.x as int,
                self.offset.y as int,
                self.terminal.spec_size().colums as int,
                self.terminal.spec_size().rows as int,
                r as int,
            ),
    {
        let vis = self.terminal.size().rows;
        if self.document.is_empty() && r == vis / 2 {
            let g = pad_left_to(fmt_usize(r as usize + 1), 3);
            let w = self.welcome_messages();
            let mut s = chars_to_string(&g);
            s.append(w.as_str());
            s
        } else {
            let idx = self.offset.y.saturating_add(r as usize);
            // learn that the row count is a machine word, so the gutter
            // label's idx + 1 below cannot overflow
            let _doc_len = self.document.len();
            match self.document.row(idx) {
                Option::Some(row) => {
                    let mut g = pad_left_to(fmt_usize(idx + 1), 3);
                    g.push(' ');
                    let rendered = self.render_row(row);
                    let mut s = chars_to_string(&g);
                    s.append(rendered.as_str());
                    proof {
                        assert(pad_left(dec_rep(idx + 1), 3).push(' ') + rendered@ =~= pad_left(
                            dec_rep(idx + 1),
                            3,
                        ) + seq![' '] + rendered@);
                    }
                    s
                },
                Option::None => {
                    let mut g = pad_left_to(fmt_usize(r as usize + 1), 3);
                    g.push(' ');
                    proof {
                        assert(pad_left(dec_rep(r as int + 1), 3).push(' ') =~= pad_left(
                            dec_rep(r as int + 1),
                            3,
                        ) + seq![' ']);
                    }
                    chars_to_string(&g)
                },
            }
        }
    }

    /// One frame's visible rows, top to bottom: one string per terminal row
    /// of the viewport.
    pub fn frame_rows(&self) -> (v: Vec<String>)
        ensures
            v@.len() == self.terminal.spec_size().rows as int,
            forall|r: int|
                0 <= r < v@.len() ==> (#[trigger] v@[r])@ == frame_line(
                    self.document@,
                    self.offset.x as int,
                    self.offset.y as int,
                    self.terminal.spec_size().colums as int,
                    self.terminal.spec_size().rows as int,
                    r,
                ),
    {
        let vis = self.terminal.size().rows;
        let mut v: Vec<String> = Vec::new();
        let mut r: u16 = 0;
        while r < vis
            invariant
                r <= vis,
                vis == self.terminal.spec_size().rows,
                v@.len() == r as int,
                forall|j: int|
                    0 <= j < r as int ==> (#[trigger] v@[j])@ == frame_line(
                        self.document@,
                        self.offset.x as int,
                        self.offset.y as int,
                        self.terminal.spec_size().colums as int,
                        self.terminal.spec_size().rows as int,
                        j,
                    ),
            decreases vis - r,
        {
            v.push(self.frame_line_text(r));
            r = r + 1;
        }
        v
    }

    /// The status bar line: the file name (or an untitled marker), the line
    /// count, and a `current/total` indicator pushed to the right edge, all
    /// cut to the terminal width.
    pub fn status_bar_text(&self) -> (s: String)
        ensures
            s@ == status_bar_spec(
                self.document.file_view(),
                self.document@.len() as int,
                self.cursor_position.y as int,
                self.terminal.spec_size().colums as int,
            ),
    {
        let cols = self.terminal.size().colums as usize;
        let mut left: Vec<char>;
        match self.document.file_name() {
            Option::Some(name) => {
                let mut nv = str_to_chars(name.as_str());
                if nv.len() > 18 {
                    nv = char_range(&nv, nv.len() - 18, nv.len());
                }
                left = str_to_chars("  ");
                left.append(&mut nv);
            },
            Option::None => {
                left = str_to_chars("[Untitled]");
            },
        }
        let mut mid = str_to_chars(" | ");
        left.append(&mut mid);
        let mut cnt = fmt_usize(self.document.len());
        left.append(&mut cnt);
        let mut lines_word = str_to_chars(" lines");
        left.append(&mut lines_word);
        let mut right = fmt_usize(self.cursor_position.y.saturating_add(1));
        let mut slash = str_to_chars("/");
        right.append(&mut slash);
        let mut cnt2 = fmt_usize(self.document.len());
        right.append(&mut cnt2);
        let total = left.len().saturating_add(right.len());
        if cols > total {
            let mut pad = spaces(cols - total);
            left.append(&mut pad);
        }
        left.append(&mut right);
        left.truncate(cols);
        chars_to_string(&left)
    }

    /// The message bar line: the status message, cut to the terminal width,
    /// while it is younger than the expiry window; afterwards an empty line.
    pub fn message_bar_text(&self, now_ms: u64) -> (s: String)
        ensures
            s@ == message_bar_spec(
                self.status_message.text@,
                self.status_message.time as int,
                now_ms as int,
                self.terminal.spec_size().colums as int,
            ),
    {
        let cols = self.terminal.size().colums as usize;
        if now_ms.saturating_sub(self.status_message.time) < 5000 {
            let mut t = str_to_chars(self.status_message.text.as_str());
            t.truncate(cols);
            chars_to_string(&t)
        } else {
            String::new()
        }
    }

    /// Where the terminal cursor goes for this frame: the cursor relative to
    /// the viewport offset, shifted right past the gutter.
    pub fn screen_cursor(&self) -> (p: Position)
        ensures
            p.x as int == sat_add(
                sat_sub(self.cursor_position.x as int, self.offset.x as int),
                4,
            ),
            p.y as int == sat_sub(self.cursor_position.y as int, self.offset.y as int),
    {
        Position {
            x: self.cursor_position.x.saturating_sub(self.offset.x).saturating_add(4),
            y: self.cursor_position.y.saturating_sub(self.offset.y),
        }
    }
}

/// The welcome banner's text.
pub open spec fn welcome_text() -> Seq<char> {
    "Hecto editor -- version 0.1.0"@
}

/// The centered welcome banner for a terminal `cols` wide: left padding of
/// half the remaining width (less one column for the gutter edge), then the
/// banner, cut to the width.
pub open spec fn welcome_line(cols: int) -> Seq<char> {
    let msg = welcome_text();
    let padding = sat_sub(cols, msg.len() as int) / 2;
    truncated(space_seq(sat_sub(padding, 1)) + msg, cols)
}

/// The window of a document row that `Editor::render_row` shows: the
/// horizontal offset wide, with four columns reserved for the gutter.
pub open spec fn rendered_row(row: Seq<char>, off_x: int, cols: int) -> Seq<char> {
    row_render_spec(row, off_x, sat_add(sat_sub(cols, 4), off_x))
}

/// The gutter label for line number `n`: its decimal digits, right-aligned
/// to three columns.
pub open spec fn gutter_label(n: int) -> Seq<char> {
    pad_left(dec_rep(n), 3)
}

/// The text of terminal row `r` of one frame.
pub open spec fn frame_line(
    d: Seq<Seq<char>>,
    off_x: int,
    off_y: int,
    cols: int,
    vis: int,
    r: int,
) -> Seq<char> {
    if d.len() == 0 && r == vis / 2 {
        gutter_label(r + 1) + welcome_line(cols)
    } else if sat_add(off_y, r) < d.len() {
        gutter_label(sat_add(off_y, r) + 1) + seq![' '] + rendered_row(
            d[sat_add(off_y, r)],
            off_x,
            cols,
        )
    } else {
        gutter_label(r + 1) + seq![' ']
    }
}

/// The label shown for the buffer in the status bar: two leading spaces and
/// the last eighteen scalars of the file name, or an untitled marker.
pub open spec fn file_label(file: Option<Seq<char>>) -> Seq<char> {
    match file {
        Option::None => "[Untitled]"@,
        Option::Some(name) => "  "@ + if name.len() > 18 {
            name.skip(name.len() - 18)
        } else {
            name
        },
    }
}

/// The status bar for a terminal `cols` wide: the file label and line
/// count on the left, `current/total` pushed to the right edge, the whole
/// line cut to the width.
pub open spec fn status_bar_spec(file: Option<Seq<char>>, nrows: int, cy: int, cols: int) -> Seq<
    char,
> {
    let left = file_label(file) + " | "@ + dec_rep(nrows) + " lines"@;
    let right = dec_rep(sat_add(cy, 1)) + "/"@ + dec_rep(nrows);
    let padded = if cols > left.len() + right.len() {
        left + space_seq(cols - left.len() - right.len())
    } else {
        left
    };
    truncated(padded + right, cols)
}

/// The message bar: the status text, cut to the terminal width, while it is
/// less than five seconds old; an empty line afterwards.
pub open spec fn message_bar_spec(text: Seq<char>, time: int, now: int, cols: int) -> Seq<char> {
    if sat_sub(now, time) < 5000 {
        truncated(text, cols)
    } else {
        Seq::empty()
    }
}

/// What the editor starts from: the named file's lines when it could be
/// read, an empty named-after-nothing buffer otherwise, together with the
/// initial status message — a help hint, or an error that names the path
/// that could not be opened. The caller reads the file (or fails to) and
/// hands the outcome in.
pub fn startup_document(file_name: Option<String>, contents: Option<String>) -> (r: (
    Document,
    String,
))
    ensures
        r.0.file_view() == if file_name is Some && contents is Some {
            opt_text(file_name)
        } else {
            Option::<Seq<char>>::None
        },
        r.0@ == match contents {
            Option::Some(text) => if file_name is Some {
                lines_of(text@)
            } else {
                Seq::<Seq<char>>::empty()
            },
            Option::None => Seq::<Seq<char>>::empty(),
        },
        doc_wf(r.0@),
        r.1@ == match file_name {
            Option::Some(name) => if contents is Some {
                "HELP: Ctrl-Q = quit"@
            } else {
                "ERR: Could not open file: "@ + name@
            },
            Option::None => "HELP: Ctrl-Q = quit"@,
        },
{
    match file_name {
        Option::None => (Document::default(), String::from_str("HELP: Ctrl-Q = quit")),
        Option::Some(name) => {
            match contents {
                Option::Some(text) => {
                    let mut d = Document::from_text(text.as_str());
                    d.set_file(Option::Some(name));
                    (d, String::from_str("HELP: Ctrl-Q = quit"))
                },
                Option::None => {
                    let mut msg = str_to_chars("ERR: Could not open file: ");
                    let mut nm = str_to_chars(name.as_str());
                    msg.append(&mut nm);
                    (Document::default(), chars_to_string(&msg))
                },
            }
        },
    }
}

} // verus!
