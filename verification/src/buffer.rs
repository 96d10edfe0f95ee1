//! The cursor/viewport engine: one unit of editable content (file text, a
//! synthesized directory listing, or an empty placeholder) with a cursor, a
//! scroll offset and a mode. Motions clamp the cursor so it always addresses
//! a real character position; the viewport is recomputed so the cursor row
//! stays on screen; a remembered "desired column" survives vertical moves.

use crate::strutil::usize_to_string;
use crate::text::{
    addressable_lines, char_line, lemma_addressable_bounds, lemma_char_line,
    lemma_char_line_addressable, lemma_line_end_newline, lemma_line_excl_nonneg,
    lemma_col_in_line, lemma_line_start_bounds, lemma_line_start_mono, lemma_line_start_zero,
    lemma_newline_count_le_len, lemma_newline_count_nonneg, line_count,
    line_excl_len, line_len_excl, line_raw_len, line_start, rope_addressable_lines, rope_char,
    rope_char_to_line, rope_from_str, rope_insert_char, rope_len_chars, rope_len_lines,
    rope_line_to_char, rope_new, rope_remove_char, rope_text, rope_to_string,
};
use crate::word::{
    find_word_end_forward, find_word_start_backward, find_word_start_forward, is_space_char,
    word_end_at, word_start_at,
};
use vstd::prelude::*;
use vstd::string::StrSliceExecFns;
use vstd::string::StringExecFns;

verus! {

/// The editing mode. Only Normal and Insert affect cursor clamping; Command
/// redirects keystrokes to the editor's command line; Visual is defined but
/// its selection semantics are not implemented.
#[derive(Clone, Copy, Debug, PartialEq, Eq, Structural)]
pub enum Mode {
    Insert,
    Command,
    Normal,
    Visual { start: usize, end: usize },
}

/// The cursor: `current` is (column, row) relative to the viewport;
/// `possible` remembers the desired column across vertical moves.
#[derive(Clone, Copy, Debug)]
pub struct Cursor {
    pub current: (usize, usize),
    pub possible: (usize, usize),
}

impl Cursor {
    /// A cursor at the origin.
    pub fn new() -> (c: Cursor)
        ensures
            c.current.0 == 0,
            c.current.1 == 0,
            c.possible.0 == 0,
            c.possible.1 == 0,
    {
        Cursor { current: (0, 0), possible: (0, 0) }
    }
}

/// What a buffer holds: nothing, a directory listing, or file text.
#[derive(Clone, Copy, Debug, PartialEq, Eq, Structural)]
pub enum BufferType {
    Empty,
    Directory,
    File,
}

/// What was found at a path, handed in by the caller: the path does not
/// exist, it is a file with the given text, or a directory with the given
/// child names.
pub enum PathContent {
    Missing,
    FileText(String),
    DirEntries(Vec<String>),
}

/// A key event, reduced to what the editing core reads.
#[derive(Clone, Copy, Debug, PartialEq, Eq, Structural)]
pub enum Key {
    Char(char),
    Ctrl(char),
    Enter,
    Backspace,
    Tab,
    Esc,
    Other,
}

/// The rope holding a buffer's text.
pub struct Lines {
    pub rope: ropey::Rope,
}

/// The smaller of two values.
pub open spec fn imin(a: int, b: int) -> int {
    if a <= b {
        a
    } else {
        b
    }
}

/// The last column a Normal-mode cursor may stand on in line `k`: the last
/// character, or zero on an empty line.
pub open spec fn normal_bound(s: Seq<char>, k: int) -> int {
    if line_excl_len(s, k) == 0 {
        0
    } else {
        line_excl_len(s, k) - 1
    }
}

/// The last column the cursor may stand on in line `k` under mode `m`:
/// Insert (and the modes that do not reclamp) may stand one past the last
/// character, Normal may not.
pub open spec fn bound_for_mode(m: Mode, s: Seq<char>, k: int) -> int {
    match m {
        Mode::Normal => normal_bound(s, k),
        _ => line_excl_len(s, k),
    }
}

/// Where the viewport starts after the cursor lands on absolute line `abs`:
/// it scrolls up to reach a line above it, down to keep the cursor within
/// `h` rows, and otherwise stays.
pub open spec fn place_ptr_y_spec(old_ptr: int, abs: int, h: int) -> int {
    if abs < old_ptr {
        abs
    } else if h > 0 && abs >= old_ptr + h {
        abs - (h - 1)
    } else {
        old_ptr
    }
}

/// One unit of editable content with its cursor, scroll offset and mode.
pub struct Buffer {
    pub buffer_type: BufferType,
    pub lines: Lines,
    pub size: (u16, u16),
    pub ptr_y: usize,
    pub ptr_x: usize,
    pub cursor: Cursor,
    pub file: Option<String>,
    pub parent_dir: Option<String>,
    pub mode: Mode,
}

impl Buffer {
    /// The buffer's text.
    pub open spec fn text(self) -> Seq<char> {
        rope_text(self.lines.rope)
    }

    /// The absolute line the cursor stands on.
    pub open spec fn abs_line(self) -> int {
        self.ptr_y + self.cursor.current.1
    }

    /// Well-formed buffer: the cursor addresses an existing line, its column
    /// is within the mode's bound, and the horizontal scroll is unused.
    pub open spec fn wf(self) -> bool {
        &&& self.abs_line() < addressable_lines(self.text())
        &&& self.cursor.current.0 <= bound_for_mode(self.mode, self.text(), self.abs_line())
        &&& self.ptr_x == 0
    }

    /// A fresh, empty buffer in Normal mode.
    pub fn new(window_size: (u16, u16)) -> (b: Buffer)
        ensures
            b.wf(),
            b.buffer_type == BufferType::Empty,
            b.text() == Seq::<char>::empty(),
            b.size == window_size,
            b.ptr_y == 0,
            b.ptr_x == 0,
            b.cursor.current.0 == 0,
            b.cursor.current.1 == 0,
            b.cursor.possible.0 == 0,
            b.file is None,
            b.parent_dir is None,
            b.mode == Mode::Normal,
    {
        Buffer {
            buffer_type: BufferType::Empty,
            lines: Lines { rope: rope_new() },
            size: window_size,
            ptr_y: 0,
            ptr_x: 0,
            cursor: Cursor::new(),
            file: None,
            parent_dir: None,
            mode: Mode::Normal,
        }
    }

    /// The cursor's absolute line, as a machine index.
    fn abs_line_idx(&self) -> (k: usize)
        requires
            self.abs_line() < addressable_lines(self.text()),
        ensures
            k == self.abs_line(),
            k < addressable_lines(self.text()),
    {
        let _total = rope_len_chars(&self.lines.rope);
        proof {
            lemma_addressable_bounds(self.text());
            lemma_newline_count_le_len(self.text());
        }
        self.ptr_y + self.cursor.current.1
    }

    /// The cursor-column bound for the current mode on line `k`.
    fn mode_bound_at(&self, k: usize) -> (b: usize)
        requires
            k < line_count(self.text()),
        ensures
            b == bound_for_mode(self.mode, self.text(), k as int),
    {
        let e = line_len_excl(&self.lines.rope, k);
        proof {
            lemma_line_excl_nonneg(self.text(), k as int);
        }
        match self.mode {
            Mode::Normal => {
                if e == 0 {
                    0
                } else {
                    e - 1
                }
            },
            _ => e,
        }
    }

    /// Scrolls the viewport so that absolute line `abs` is on screen, and
    /// puts the cursor row on it. Column, text and mode are untouched.
    fn place_viewport(&mut self, abs: usize, size: (u16, u16))
        ensures
            final (self).lines == old(self).lines,
            final (self).mode == old(self).mode,
            final (self).buffer_type == old(self).buffer_type,
            final (self).size == old(self).size,
            final (self).file == old(self).file,
            final (self).parent_dir == old(self).parent_dir,
            final (self).ptr_x == old(self).ptr_x,
            final (self).cursor.possible == old(self).cursor.possible,
            final (self).cursor.current.0 == old(self).cursor.current.0,
            final (self).ptr_y == place_ptr_y_spec(old(self).ptr_y as int, abs as int, size.1 as int),
            final (self).abs_line() == abs,
            size.1 > 0 ==> final (self).cursor.current.1 < size.1,
    {
        if abs < self.ptr_y {
            self.ptr_y = abs;
            self.cursor.current.1 = 0;
        } else if size.1 > 0 && abs - self.ptr_y >= size.1 as usize {
            let h = size.1 as usize;
            self.ptr_y = abs - (h - 1);
            self.cursor.current.1 = h - 1;
        } else {
            self.cursor.current.1 = abs - self.ptr_y;
        }
    }

    /// Places the cursor on line `abs` (clamped to the last addressable
    /// line), scrolls the viewport after it, and clamps the column to the
    /// mode's bound. The remembered desired column is untouched.
    fn place_and_clamp(&mut self, abs_target: usize, want_col: usize, size: (u16, u16))
        requires
            old(self).ptr_x == 0,
        ensures
            final (self).lines == old(self).lines,
            final (self).mode == old(self).mode,
            final (self).buffer_type == old(self).buffer_type,
            final (self).size == old(self).size,
            final (self).file == old(self).file,
            final (self).parent_dir == old(self).parent_dir,
            final (self).ptr_x == 0,
            final (self).cursor.possible == old(self).cursor.possible,
            final (self).abs_line() == imin(
                abs_target as int,
                addressable_lines(old(self).text()) - 1,
            ),
            final (self).ptr_y == place_ptr_y_spec(
                old(self).ptr_y as int,
                final (self).abs_line(),
                size.1 as int,
            ),
            final (self).cursor.current.0 == imin(
                want_col as int,
                bound_for_mode(old(self).mode, old(self).text(), final (self).abs_line()),
            ),
            size.1 > 0 ==> final (self).cursor.current.1 < size.1,
            final (self).wf(),
    {
        let addr = rope_addressable_lines(&self.lines.rope);
        let abs = if abs_target <= addr - 1 {
            abs_target
        } else {
            addr - 1
        };
        self.place_viewport(abs, size);
        let bound = self.mode_bound_at(abs);
        let c = if want_col <= bound {
            want_col
        } else {
            bound
        };
        self.cursor.current.0 = c;
    }

    /// Moves one line down, or stays on the last line; the column follows
    /// the remembered desired column as far as the new line allows.
    pub fn move_down(&mut self, size: (u16, u16))
        requires
            old(self).wf(),
        ensures
            final (self).wf(),
            final (self).lines == old(self).lines,
            final (self).mode == old(self).mode,
            final (self).buffer_type == old(self).buffer_type,
            final (self).cursor.possible == old(self).cursor.possible,
            final (self).abs_line() == imin(
                old(self).abs_line() + 1,
                addressable_lines(old(self).text()) - 1,
            ),
            final (self).ptr_y == place_ptr_y_spec(
                old(self).ptr_y as int,
                final (self).abs_line(),
                size.1 as int,
            ),
            final (self).cursor.current.0 == imin(
                if old(self).cursor.current.0 >= old(self).cursor.possible.0 {
                    old(self).cursor.current.0 as int
                } else {
                    old(self).cursor.possible.0 as int
                },
                bound_for_mode(old(self).mode, old(self).text(), final (self).abs_line()),
            ),
            size.1 > 0 ==> final (self).cursor.current.1 < size.1,
    {
        let k = self.abs_line_idx();
        let addr = rope_addressable_lines(&self.lines.rope);
        let target = if addr - k > 1 {
            k + 1
        } else {
            k
        };
        let want = if self.cursor.current.0 >= self.cursor.possible.0 {
            self.cursor.current.0
        } else {
            self.cursor.possible.0
        };
        self.place_and_clamp(target, want, size);
    }

    /// Moves one line up, or stays on the first; the column follows the
    /// remembered desired column as far as the new line allows.
    pub fn move_up(&mut self, size: (u16, u16))
        requires
            old(self).wf(),
        ensures
            final (self).wf(),
            final (self).lines == old(self).lines,
            final (self).mode == old(self).mode,
            final (self).buffer_type == old(self).buffer_type,
            final (self).cursor.possible == old(self).cursor.possible,
            final (self).abs_line() == if old(self).abs_line() > 0 {
                old(self).abs_line() - 1
            } else {
                0
            },
            final (self).ptr_y == place_ptr_y_spec(
                old(self).ptr_y as int,
                final (self).abs_line(),
                size.1 as int,
            ),
            final (self).cursor.current.0 == imin(
                if old(self).cursor.current.0 >= old(self).cursor.possible.0 {
                    old(self).cursor.current.0 as int
                } else {
                    old(self).cursor.possible.0 as int
                },
                bound_for_mode(old(self).mode, old(self).text(), final (self).abs_line()),
            ),
            size.1 > 0 ==> final (self).cursor.current.1 < size.1,
    {
        let k = self.abs_line_idx();
        let target = if k > 0 {
            k - 1
        } else {
            0
        };
        let want = if self.cursor.current.0 >= self.cursor.possible.0 {
            self.cursor.current.0
        } else {
            self.cursor.possible.0
        };
        proof {
            lemma_addressable_bounds(self.text());
        }
        self.place_and_clamp(target, want, size);
    }

    /// Moves one column right, saturating at the mode's bound for the
    /// current line; the desired column follows.
    pub fn move_right(&mut self)
        requires
            old(self).wf(),
        ensures
            final (self).wf(),
            final (self).lines == old(self).lines,
            final (self).mode == old(self).mode,
            final (self).buffer_type == old(self).buffer_type,
            final (self).ptr_y == old(self).ptr_y,
            final (self).cursor.current.1 == old(self).cursor.current.1,
            final (self).cursor.current.0 == imin(
                old(self).cursor.current.0 + 1,
                bound_for_mode(old(self).mode, old(self).text(), old(self).abs_line()),
            ),
            final (self).cursor.possible.0 == final (self).cursor.current.0,
    {
        let k = self.abs_line_idx();
        proof {
            lemma_addressable_bounds(self.text());
        }
        let bound = self.mode_bound_at(k);
        let c = if self.cursor.current.0 < bound {
            self.cursor.current.0 + 1
        } else {
            bound
        };
        self.cursor.current.0 = c;
        self.cursor.possible.0 = c;
    }

    /// Moves one column left, saturating at the first column; the desired
    /// column follows.
    pub fn move_left(&mut self)
        requires
            old(self).wf(),
        ensures
            final (self).wf(),
            final (self).lines == old(self).lines,
            final (self).mode == old(self).mode,
            final (self).buffer_type == old(self).buffer_type,
            final (self).ptr_y == old(self).ptr_y,
            final (self).cursor.current.1 == old(self).cursor.current.1,
            final (self).cursor.current.0 == if old(self).cursor.current.0 > 0 {
                old(self).cursor.current.0 - 1
            } else {
                0int
            },
            final (self).cursor.possible.0 == final (self).cursor.current.0,
    {
        let c = if self.cursor.current.0 > 0 {
            self.cursor.current.0 - 1
        } else {
            0
        };
        self.cursor.current.0 = c;
        self.cursor.possible.0 = c;
    }

    /// Moves to the last column the mode allows on the current line; in
    /// Command or Visual mode this is a no-op.
    pub fn move_end_of_line(&mut self)
        requires
            old(self).wf(),
        ensures
            final (self).wf(),
            final (self).lines == old(self).lines,
            final (self).mode == old(self).mode,
            final (self).buffer_type == old(self).buffer_type,
            final (self).ptr_y == old(self).ptr_y,
            final (self).cursor.current.1 == old(self).cursor.current.1,
            match old(self).mode {
                Mode::Normal | Mode::Insert => {
                    &&& final (self).cursor.current.0 == bound_for_mode(
                        old(self).mode,
                        old(self).text(),
                        old(self).abs_line(),
                    )
                    &&& final (self).cursor.possible.0 == final (self).cursor.current.0
                },
                _ => final (self).cursor == old(self).cursor,
            },
    {
        match self.mode {
            Mode::Normal | Mode::Insert => {
                let k = self.abs_line_idx();
                proof {
                    lemma_addressable_bounds(self.text());
                }
                let bound = self.mode_bound_at(k);
                self.cursor.current.0 = bound;
                self.cursor.possible.0 = bound;
            },
            _ => {},
        }
    }

    /// Moves to the first column.
    pub fn move_begin_of_line(&mut self)
        requires
            old(self).wf(),
        ensures
            final (self).wf(),
            final (self).lines == old(self).lines,
            final (self).mode == old(self).mode,
            final (self).buffer_type == old(self).buffer_type,
            final (self).ptr_y == old(self).ptr_y,
            final (self).cursor.current.1 == old(self).cursor.current.1,
            final (self).cursor.current.0 == 0,
            final (self).cursor.possible.0 == 0,
    {
        self.cursor.current.0 = 0;
        self.cursor.possible.0 = 0;
        proof {
            lemma_line_excl_nonneg(self.text(), self.abs_line());
            lemma_addressable_bounds(self.text());
        }
    }

    /// Changes mode. Entering Insert on a directory buffer is a no-op;
    /// entering Normal reclamps the cursor column (and the desired column)
    /// to the line's last character.
    pub fn change_mode(&mut self, mode: Mode)
        requires
            old(self).wf(),
        ensures
            final (self).wf(),
            final (self).lines == old(self).lines,
            final (self).buffer_type == old(self).buffer_type,
            final (self).size == old(self).size,
            final (self).file == old(self).file,
            final (self).parent_dir == old(self).parent_dir,
            final (self).ptr_y == old(self).ptr_y,
            final (self).cursor.current.1 == old(self).cursor.current.1,
            match mode {
                Mode::Insert => {
                    &&& final (self).mode == (if old(self).buffer_type == BufferType::Directory {
                        old(self).mode
                    } else {
                        Mode::Insert
                    })
                    &&& final (self).cursor == old(self).cursor
                },
                Mode::Command | Mode::Visual { .. } => {
                    &&& final (self).mode == mode
                    &&& final (self).cursor == old(self).cursor
                },
                Mode::Normal => {
                    &&& final (self).mode == Mode::Normal
                    &&& final (self).cursor.current.0 == imin(
                        old(self).cursor.current.0 as int,
                        normal_bound(old(self).text(), old(self).abs_line()),
                    )
                    &&& final (self).cursor.possible.0 == final (self).cursor.current.0
                },
            },
    {
        match mode {
            Mode::Insert => {
                match self.buffer_type {
                    BufferType::Directory => {},
                    _ => {
                        self.mode = mode;
                    },
                }
            },
            Mode::Command | Mode::Visual { .. } => {
                self.mode = mode;
            },
            Mode::Normal => {
                let k = self.abs_line_idx();
                proof {
                    lemma_addressable_bounds(self.text());
                    lemma_line_excl_nonneg(self.text(), k as int);
                }
                let e = line_len_excl(&self.lines.rope, k);
                let bound = if e == 0 {
                    0
                } else {
                    e - 1
                };
                let c = if self.cursor.current.0 <= bound {
                    self.cursor.current.0
                } else {
                    bound
                };
                self.cursor.current.0 = c;
                self.cursor.possible.0 = c;
                self.mode = mode;
            },
        }
    }

    /// Resets cursor, scroll offsets and mode to their defaults.
    pub fn refresh_buffer(&mut self)
        ensures
            final (self).lines == old(self).lines,
            final (self).buffer_type == old(self).buffer_type,
            final (self).size == old(self).size,
            final (self).file == old(self).file,
            final (self).parent_dir == old(self).parent_dir,
            final (self).cursor.current.0 == 0,
            final (self).cursor.current.1 == 0,
            final (self).cursor.possible.0 == 0,
            final (self).cursor.possible.1 == 0,
            final (self).ptr_y == 0,
            final (self).ptr_x == 0,
            final (self).mode == Mode::Normal,
            final (self).wf(),
    {
        self.cursor = Cursor::new();
        self.ptr_y = 0;
        self.ptr_x = 0;
        self.mode = Mode::Normal;
        proof {
            lemma_addressable_bounds(self.text());
            lemma_line_excl_nonneg(self.text(), 0);
        }
    }

    /// Scrolls the viewport, if needed, so the cursor row is back within
    /// the given height.
    pub fn refresh_view(&mut self, size: (u16, u16))
        requires
            old(self).wf(),
        ensures
            final (self).wf(),
            final (self).lines == old(self).lines,
            final (self).mode == old(self).mode,
            final (self).buffer_type == old(self).buffer_type,
            final (self).cursor.current.0 == old(self).cursor.current.0,
            final (self).cursor.possible == old(self).cursor.possible,
            final (self).abs_line() == old(self).abs_line(),
            final (self).ptr_y == place_ptr_y_spec(
                old(self).ptr_y as int,
                old(self).abs_line(),
                size.1 as int,
            ),
            size.1 > 0 ==> final (self).cursor.current.1 < size.1,
    {
        let k = self.abs_line_idx();
        self.place_viewport(k, size);
    }

    /// Places the cursor at the start of the given absolute line, clamped to
    /// the last addressable line, scrolling the viewport after it.
    pub fn go_to_abs_line(&mut self, abs: usize, size: (u16, u16))
        requires
            old(self).wf(),
        ensures
            final (self).wf(),
            final (self).lines == old(self).lines,
            final (self).mode == old(self).mode,
            final (self).buffer_type == old(self).buffer_type,
            final (self).size == old(self).size,
            final (self).file == old(self).file,
            final (self).parent_dir == old(self).parent_dir,
            final (self).cursor.possible == old(self).cursor.possible,
            final (self).abs_line() == imin(abs as int, addressable_lines(old(self).text()) - 1),
            final (self).ptr_y == place_ptr_y_spec(
                old(self).ptr_y as int,
                final (self).abs_line(),
                size.1 as int,
            ),
            final (self).cursor.current.0 == 0,
            size.1 > 0 ==> final (self).cursor.current.1 < size.1,
    {
        proof {
            lemma_addressable_bounds(self.text());
        }
        self.place_and_clamp(abs, 0, size);
        proof {
            lemma_line_excl_nonneg(self.text(), self.abs_line());
        }
    }

    /// Records a new window size.
    pub fn resize(&mut self, new_size: (u16, u16))
        ensures
            final (self).size == new_size,
            final (self).lines == old(self).lines,
            final (self).cursor == old(self).cursor,
            final (self).mode == old(self).mode,
            final (self).buffer_type == old(self).buffer_type,
            final (self).ptr_y == old(self).ptr_y,
            final (self).ptr_x == old(self).ptr_x,
            final (self).file == old(self).file,
            final (self).parent_dir == old(self).parent_dir,
            final (self).wf() == old(self).wf(),
    {
        self.size = new_size;
    }
}

/// The text of a synthesized directory listing after the fixed `.` and `..`
/// lines: each entry on a line of its own.
pub open spec fn dir_entries_text(es: Seq<Seq<char>>) -> Seq<char>
    decreases es.len(),
{
    if es.len() == 0 {
        Seq::empty()
    } else {
        dir_entries_text(es.drop_last()) + es.last().push('\n')
    }
}

/// The full text of a directory listing: a `.` line, a `..` line, then each
/// entry on a line of its own.
pub open spec fn dir_listing_text(es: Seq<Seq<char>>) -> Seq<char> {
    seq!['.', '\n', '.', '.', '\n'] + dir_entries_text(es)
}

/// Builds the text of a directory listing.
pub fn directory_listing(entries: &Vec<String>) -> (s: String)
    ensures
        s@ == dir_listing_text(entries.deep_view()),
{
    let mut s = String::new();
    s.push('.');
    s.push('\n');
    s.push('.');
    s.push('.');
    s.push('\n');
    proof {
        assert(s@ =~= seq!['.', '\n', '.', '.', '\n']);
        assert(entries.deep_view().take(0) =~= Seq::<Seq<char>>::empty());
        assert(s@ =~= seq!['.', '\n', '.', '.', '\n'] + dir_entries_text(
            entries.deep_view().take(0),
        ));
    }
    let mut i: usize = 0;
    while i < entries.len()
        invariant
            i <= entries.len(),
            s@ == seq!['.', '\n', '.', '.', '\n'] + dir_entries_text(
                entries.deep_view().take(i as int),
            ),
        decreases entries.len() - i,
    {
        s.append(entries[i].as_str());
        s.push('\n');
        i += 1;
        proof {
            assert(entries.deep_view().take(i as int).drop_last() =~= entries.deep_view().take(
                i - 1,
            ));
            assert(entries.deep_view().take(i as int).last() == entries.deep_view()[i - 1]);
            assert(s@ =~= seq!['.', '\n', '.', '.', '\n'] + dir_entries_text(
                entries.deep_view().take(i as int),
            ));
        }
    }
    proof {
        assert(entries.deep_view().take(entries@.len() as int) =~= entries.deep_view());
    }
    s
}

impl Buffer {
    /// Loads what was found at `path` into this buffer, replacing its
    /// content and kind in place: a missing path empties it, file text is
    /// loaded as is, and a directory becomes the synthesized listing.
    /// Cursor, viewport and mode are reset in every case.
    pub fn open_with(&mut self, path: &String, content: PathContent)
        ensures
            final (self).wf(),
            final (self).size == old(self).size,
            final (self).cursor.current.0 == 0,
            final (self).cursor.current.1 == 0,
            final (self).cursor.possible.0 == 0,
            final (self).cursor.possible.1 == 0,
            final (self).ptr_y == 0,
            final (self).ptr_x == 0,
            final (self).mode == Mode::Normal,
            match content {
                PathContent::Missing => {
                    &&& final (self).buffer_type == BufferType::Empty
                    &&& final (self).text() == Seq::<char>::empty()
                    &&& final (self).file is None
                    &&& final (self).parent_dir == old(self).parent_dir
                },
                PathContent::FileText(t) => {
                    &&& final (self).buffer_type == BufferType::File
                    &&& final (self).text() == t@
                    &&& final (self).file == Some(*path)
                    &&& final (self).parent_dir == old(self).parent_dir
                },
                PathContent::DirEntries(es) => {
                    &&& final (self).buffer_type == BufferType::Directory
                    &&& final (self).text() == dir_listing_text(es.deep_view())
                    &&& final (self).file is None
                    &&& final (self).parent_dir == Some(*path)
                },
            },
    {
        match content {
            PathContent::Missing => {
                self.buffer_type = BufferType::Empty;
                self.lines.rope = rope_new();
                self.file = None;
            },
            PathContent::FileText(t) => {
                self.lines.rope = rope_from_str(t.as_str());
                self.file = Some(path.clone());
                self.buffer_type = BufferType::File;
            },
            PathContent::DirEntries(es) => {
                let listing = directory_listing(&es);
                self.lines.rope = rope_from_str(listing.as_str());
                self.file = None;
                self.parent_dir = Some(path.clone());
                self.buffer_type = BufferType::Directory;
            },
        }
        self.refresh_buffer();
    }

    /// The text to persist, with its path: `Some` exactly for a file buffer
    /// with a known path. Directory and empty buffers yield nothing.
    pub fn save_content(&self) -> (r: Option<(String, String)>)
        ensures
            match r {
                Some(p) => {
                    &&& self.buffer_type == BufferType::File
                    &&& self.file == Some(p.0)
                    &&& p.1@ == self.text()
                },
                None => self.buffer_type != BufferType::File || self.file is None,
            },
    {
        if matches!(self.buffer_type, BufferType::File) {
            match &self.file {
                Some(f) => {
                    let text = rope_to_string(&self.lines.rope);
                    Some((f.clone(), text))
                },
                None => None,
            }
        } else {
            None
        }
    }
}

/// A non-space character's column never passes the Normal-mode bound of its
/// line.
pub proof fn lemma_nonspace_col_bound(s: Seq<char>, p: int)
    requires
        0 <= p < s.len(),
        !is_space_char(s[p]),
    ensures
        ({
            let k = char_line(s, p);
            &&& 0 <= p - line_start(s, k) <= normal_bound(s, k)
            &&& 0 <= k < line_count(s)
        }),
{
    lemma_char_line(s, p);
    let k = char_line(s, p);
    lemma_line_excl_nonneg(s, k);
    if k + 1 < line_count(s) {
        lemma_line_end_newline(s, k);
        assert(is_space_char('\n'));
        assert(p != line_start(s, k + 1) - 1);
    }
}

impl Buffer {
    /// The number of characters in the buffer.
    pub fn len_chars(&self) -> (n: usize)
        ensures
            n == self.text().len(),
    {
        rope_len_chars(&self.lines.rope)
    }

    /// The buffer's text as one string.
    pub fn content_string(&self) -> (s: String)
        ensures
            s@ == self.text(),
    {
        rope_to_string(&self.lines.rope)
    }

    /// Moves the cursor onto the (non-space) character at text position
    /// `idx`, scrolling the viewport after it.
    fn move_to_char_index(&mut self, idx: usize, size: (u16, u16))
        requires
            old(self).wf(),
            idx < old(self).text().len(),
            !is_space_char(old(self).text()[idx as int]),
        ensures
            final (self).wf(),
            final (self).lines == old(self).lines,
            final (self).mode == old(self).mode,
            final (self).buffer_type == old(self).buffer_type,
            final (self).size == old(self).size,
            final (self).file == old(self).file,
            final (self).abs_line() == char_line(old(self).text(), idx as int),
            final (self).ptr_y == place_ptr_y_spec(
                old(self).ptr_y as int,
                final (self).abs_line(),
                size.1 as int,
            ),
            final (self).cursor.current.0 == idx - line_start(
                old(self).text(),
                final (self).abs_line(),
            ),
            final (self).cursor.possible.0 == final (self).cursor.current.0,
            size.1 > 0 ==> final (self).cursor.current.1 < size.1,
    {
        let line = rope_char_to_line(&self.lines.rope, idx);
        proof {
            lemma_char_line(self.text(), idx as int);
            lemma_char_line_addressable(self.text(), idx as int);
            lemma_nonspace_col_bound(self.text(), idx as int);
        }
        let ls = rope_line_to_char(&self.lines.rope, line);
        let col = idx - ls;
        self.place_viewport(line, size);
        self.cursor.current.0 = col;
        self.cursor.possible.0 = col;
        proof {
            lemma_line_excl_nonneg(self.text(), line as int);
        }
    }

    /// The absolute text position of the cursor.
    fn cursor_char_index(&self) -> (idx: usize)
        requires
            self.wf(),
        ensures
            idx == line_start(self.text(), self.abs_line()) + self.ptr_x
                + self.cursor.current.0,
            idx <= self.text().len(),
            self.cursor.current.0 <= line_excl_len(self.text(), self.abs_line()),
            line_start(self.text(), self.abs_line()) >= 0,
    {
        let _total = rope_len_chars(&self.lines.rope);
        let k = self.abs_line_idx();
        proof {
            lemma_addressable_bounds(self.text());
            lemma_line_excl_nonneg(self.text(), k as int);
            lemma_col_in_line(self.text(), k as int, self.cursor.current.0 as int);
        }
        let ls = rope_line_to_char(&self.lines.rope, k);
        ls + self.ptr_x + self.cursor.current.0
    }

    /// Moves to the start of the next word: the nearest position after the
    /// cursor whose character class differs from its predecessor's and is
    /// not space. Without one, the cursor stays.
    pub fn move_next_word(&mut self, size: (u16, u16))
        requires
            old(self).wf(),
        ensures
            final (self).wf(),
            final (self).lines == old(self).lines,
            final (self).mode == old(self).mode,
            final (self).buffer_type == old(self).buffer_type,
            final (self).size == old(self).size,
            ({
                let s = old(self).text();
                let from = line_start(s, old(self).abs_line()) + old(self).ptr_x + old(
                    self,
                ).cursor.current.0;
                ||| ({
                    &&& (forall|j: int| from < j < s.len() ==> !word_start_at(s, j))
                    &&& *final (self) == *old(self)
                })
                ||| ({
                    let p = line_start(s, final (self).abs_line()) + final (
                    self).cursor.current.0;
                    &&& from < p < s.len()
                    &&& word_start_at(s, p)
                    &&& (forall|j: int| from < j < p ==> !word_start_at(s, j))
                    &&& final (self).abs_line() == char_line(s, p)
                    &&& final (self).cursor.possible.0 == final (self).cursor.current.0
                    &&& final (self).ptr_y == place_ptr_y_spec(
                        old(self).ptr_y as int,
                        final (self).abs_line(),
                        size.1 as int,
                    )
                })
            }),
    {
        let s = rope_to_string(&self.lines.rope);
        let from = self.cursor_char_index();
        match find_word_start_forward(&s, from) {
            Some(idx) => {
                proof {
                    assert(!is_space_char(self.text()[idx as int]));
                }
                self.move_to_char_index(idx, size);
                proof {
                    lemma_char_line(old(self).text(), idx as int);
                }
            },
            None => {},
        }
    }

    /// Moves to the end of the current or next word: the nearest position
    /// after the cursor holding a non-space character whose successor is of
    /// another class. Without one, the cursor stays.
    pub fn move_end_word(&mut self, size: (u16, u16))
        requires
            old(self).wf(),
        ensures
            final (self).wf(),
            final (self).lines == old(self).lines,
            final (self).mode == old(self).mode,
            final (self).buffer_type == old(self).buffer_type,
            final (self).size == old(self).size,
            ({
                let s = old(self).text();
                let from = line_start(s, old(self).abs_line()) + old(self).ptr_x + old(
                    self,
                ).cursor.current.0;
                ||| ({
                    &&& (forall|j: int| from < j && j + 1 < s.len() ==> !word_end_at(s, j))
                    &&& *final (self) == *old(self)
                })
                ||| ({
                    let p = line_start(s, final (self).abs_line()) + final (
                    self).cursor.current.0;
                    &&& from < p
                    &&& p + 1 < s.len()
                    &&& word_end_at(s, p)
                    &&& (forall|j: int| from < j < p ==> !word_end_at(s, j))
                    &&& final (self).abs_line() == char_line(s, p)
                    &&& final (self).cursor.possible.0 == final (self).cursor.current.0
                    &&& final (self).ptr_y == place_ptr_y_spec(
                        old(self).ptr_y as int,
                        final (self).abs_line(),
                        size.1 as int,
                    )
                })
            }),
    {
        let s = rope_to_string(&self.lines.rope);
        let from = self.cursor_char_index();
        match find_word_end_forward(&s, from) {
            Some(idx) => {
                proof {
                    assert(!is_space_char(self.text()[idx as int]));
                }
                self.move_to_char_index(idx, size);
                proof {
                    lemma_char_line(old(self).text(), idx as int);
                }
            },
            None => {},
        }
    }

    /// Moves to the start of the run of non-space characters nearest before
    /// the cursor. With only space before the cursor, it stays.
    pub fn move_back_word(&mut self, size: (u16, u16))
        requires
            old(self).wf(),
        ensures
            final (self).wf(),
            final (self).lines == old(self).lines,
            final (self).mode == old(self).mode,
            final (self).buffer_type == old(self).buffer_type,
            final (self).size == old(self).size,
            ({
                let s = old(self).text();
                let from = line_start(s, old(self).abs_line()) + old(self).ptr_x + old(
                    self,
                ).cursor.current.0;
                ||| ({
                    &&& crate::word::all_space_range(s, 0, from)
                    &&& *final (self) == *old(self)
                })
                ||| ({
                    let p = line_start(s, final (self).abs_line()) + final (
                    self).cursor.current.0;
                    &&& 0 <= p < from
                    &&& !is_space_char(s[p])
                    &&& (p == 0 || is_space_char(s[p - 1]))
                    &&& (forall|t1: int, t2: int|
                        #![trigger s[t1], s[t2]]
                        p <= t1 <= t2 < from && is_space_char(s[t1]) ==> is_space_char(s[t2]))
                    &&& final (self).abs_line() == char_line(s, p)
                    &&& final (self).cursor.possible.0 == final (self).cursor.current.0
                    &&& final (self).ptr_y == place_ptr_y_spec(
                        old(self).ptr_y as int,
                        final (self).abs_line(),
                        size.1 as int,
                    )
                })
            }),
    {
        let s = rope_to_string(&self.lines.rope);
        let from = self.cursor_char_index();
        match find_word_start_backward(&s, from) {
            Some(idx) => {
                self.move_to_char_index(idx, size);
                proof {
                    lemma_char_line(old(self).text(), idx as int);
                }
            },
            None => {},
        }
    }
}

/// The buffer after a mode change to Normal: the column (and the desired
/// column) reclamped to the line's last character.
pub open spec fn to_normal_effect(pre: Buffer, post: Buffer) -> bool {
    &&& post.lines == pre.lines
    &&& post.buffer_type == pre.buffer_type
    &&& post.size == pre.size
    &&& post.file == pre.file
    &&& post.parent_dir == pre.parent_dir
    &&& post.ptr_y == pre.ptr_y
    &&& post.ptr_x == pre.ptr_x
    &&& post.cursor.current.1 == pre.cursor.current.1
    &&& post.mode == Mode::Normal
    &&& post.cursor.current.0 == imin(
        pre.cursor.current.0 as int,
        normal_bound(pre.text(), pre.abs_line()),
    )
    &&& post.cursor.possible.0 == post.cursor.current.0
}

/// The buffer after one character is inserted at the cursor: the text gains
/// `c` and the cursor steps right as far as the new line allows.
pub open spec fn insert_char_effect(pre: Buffer, post: Buffer, c: char, size: (u16, u16)) -> bool {
    let s = pre.text();
    let k = pre.abs_line();
    let idx = line_start(s, k) + pre.ptr_x + pre.cursor.current.0;
    let s2 = s.take(idx) + seq![c] + s.skip(idx);
    &&& post.text() == s2
    &&& post.mode == pre.mode
    &&& post.buffer_type == pre.buffer_type
    &&& post.file == pre.file
    &&& post.parent_dir == pre.parent_dir
    &&& post.abs_line() == imin(k, addressable_lines(s2) - 1)
    &&& post.ptr_y == place_ptr_y_spec(pre.ptr_y as int, post.abs_line(), size.1 as int)
    &&& post.cursor.current.0 == imin(
        pre.cursor.current.0 + 1,
        bound_for_mode(pre.mode, s2, post.abs_line()),
    )
    &&& post.cursor.possible.0 == post.cursor.current.0
}

/// The buffer after the current line is split at the cursor: a line break
/// goes in and the cursor moves to the start of the new line.
pub open spec fn enter_effect(pre: Buffer, post: Buffer, size: (u16, u16)) -> bool {
    let s = pre.text();
    let k = pre.abs_line();
    let idx = line_start(s, k) + pre.ptr_x + pre.cursor.current.0;
    let s2 = s.take(idx) + seq!['\n'] + s.skip(idx);
    &&& post.text() == s2
    &&& post.mode == pre.mode
    &&& post.buffer_type == pre.buffer_type
    &&& post.file == pre.file
    &&& post.parent_dir == pre.parent_dir
    &&& post.abs_line() == imin(k + 1, addressable_lines(s2) - 1)
    &&& post.ptr_y == place_ptr_y_spec(pre.ptr_y as int, post.abs_line(), size.1 as int)
    &&& post.cursor.current.0 == 0
    &&& post.cursor.possible.0 == 0
}

/// The buffer after a backspace: nothing at the very start of the text; at
/// the start of a line, the line joins its predecessor and the cursor lands
/// at the junction; elsewhere the character before the cursor goes and the
/// cursor steps left.
pub open spec fn backspace_effect(pre: Buffer, post: Buffer, size: (u16, u16)) -> bool {
    let s = pre.text();
    let k = pre.abs_line();
    let local = pre.ptr_x + pre.cursor.current.0;
    let idx = line_start(s, k) + local;
    if idx == 0 {
        post == pre
    } else {
        let s2 = s.take(idx - 1) + s.skip(idx);
        &&& post.text() == s2
        &&& post.mode == pre.mode
        &&& post.buffer_type == pre.buffer_type
        &&& post.file == pre.file
        &&& post.parent_dir == pre.parent_dir
        &&& post.cursor.possible.0 == post.cursor.current.0
        &&& if local == 0 {
            &&& post.abs_line() == imin(k - 1, addressable_lines(s2) - 1)
            &&& post.ptr_y == place_ptr_y_spec(pre.ptr_y as int, post.abs_line(), size.1 as int)
            &&& post.cursor.current.0 == imin(
                bound_for_mode(pre.mode, s, k - 1),
                bound_for_mode(pre.mode, s2, post.abs_line()),
            )
        } else {
            &&& post.abs_line() == imin(k, addressable_lines(s2) - 1)
            &&& post.ptr_y == place_ptr_y_spec(pre.ptr_y as int, post.abs_line(), size.1 as int)
            &&& post.cursor.current.0 == imin(
                local - 1,
                bound_for_mode(pre.mode, s2, post.abs_line()),
            )
        }
    }
}

impl Buffer {
    /// Handles one key on a file-backed (or empty) buffer: characters go in
    /// at the cursor, Enter splits the line, Backspace joins or deletes,
    /// Ctrl-C and Esc return to Normal mode, anything else is ignored.
    pub fn insert_key_file(&mut self, key: Key, size: (u16, u16))
        requires
            old(self).wf(),
        ensures
            final (self).wf(),
            final (self).size == old(self).size,
            final (self).file == old(self).file,
            final (self).parent_dir == old(self).parent_dir,
            match key {
                Key::Char(c) => if old(self).text().len() < usize::MAX {
                    insert_char_effect(*old(self), *final (self), c, size)
                } else {
                    *final (self) == *old(self)
                },
                Key::Enter => if old(self).text().len() < usize::MAX {
                    enter_effect(*old(self), *final (self), size)
                } else {
                    *final (self) == *old(self)
                },
                Key::Backspace => backspace_effect(*old(self), *final (self), size),
                Key::Ctrl(c) => if c == 'c' {
                    to_normal_effect(*old(self), *final (self))
                } else {
                    *final (self) == *old(self)
                },
                Key::Esc => to_normal_effect(*old(self), *final (self)),
                Key::Tab | Key::Other => *final (self) == *old(self),
            },
    {
        match key {
            Key::Char(c) => {
                let total = rope_len_chars(&self.lines.rope);
                if total == usize::MAX {
                    return ;
                }
                let k = self.abs_line_idx();
                let idx = self.cursor_char_index();
                let want = self.cursor.current.0 + 1;
                rope_insert_char(&mut self.lines.rope, idx, c);
                self.place_and_clamp(k, want, size);
                let c0 = self.cursor.current.0;
                self.cursor.possible.0 = c0;
            },
            Key::Enter => {
                let total = rope_len_chars(&self.lines.rope);
                if total == usize::MAX {
                    return ;
                }
                let k = self.abs_line_idx();
                let idx = self.cursor_char_index();
                proof {
                    lemma_addressable_bounds(self.text());
                    lemma_newline_count_le_len(self.text());
                }
                rope_insert_char(&mut self.lines.rope, idx, '\n');
                self.place_and_clamp(k + 1, 0, size);
                self.cursor.possible.0 = 0;
            },
            Key::Backspace => {
                let k = self.abs_line_idx();
                let idx = self.cursor_char_index();
                if idx == 0 {
                    return ;
                }
                let local = self.ptr_x + self.cursor.current.0;
                if local == 0 {
                    proof {
                        lemma_line_start_zero(self.text());
                        lemma_addressable_bounds(self.text());
                    }
                    let want = self.mode_bound_at(k - 1);
                    rope_remove_char(&mut self.lines.rope, idx - 1);
                    self.place_and_clamp(k - 1, want, size);
                    let c0 = self.cursor.current.0;
                    self.cursor.possible.0 = c0;
                } else {
                    let want = self.cursor.current.0 - 1;
                    rope_remove_char(&mut self.lines.rope, idx - 1);
                    self.place_and_clamp(k, want, size);
                    let c0 = self.cursor.current.0;
                    self.cursor.possible.0 = c0;
                }
            },
            Key::Ctrl(c) => {
                if c == 'c' {
                    self.change_mode(Mode::Normal);
                }
            },
            Key::Esc => {
                self.change_mode(Mode::Normal);
            },
            Key::Tab | Key::Other => {},
        }
    }

    /// Key handling for directory buffers in insert mode: directories are
    /// not editable, so every key is ignored.
    pub fn insert_key_dir(&mut self, _key: Key)
        ensures
            *final (self) == *old(self),
    {
    }

    /// Opens an empty line above the current one and enters Insert mode
    /// (directories stay read-only and keep their mode).
    pub fn new_line_above(&mut self, size: (u16, u16))
        requires
            old(self).wf(),
        ensures
            final (self).wf(),
            final (self).size == old(self).size,
            final (self).buffer_type == old(self).buffer_type,
            final (self).file == old(self).file,
            final (self).parent_dir == old(self).parent_dir,
            if old(self).text().len() < usize::MAX {
                ({
                    let s = old(self).text();
                    let k = old(self).abs_line();
                    let idx = line_start(s, k);
                    let s2 = s.take(idx) + seq!['\n'] + s.skip(idx);
                    &&& final (self).text() == s2
                    &&& final (self).mode == (if old(self).buffer_type
                        == BufferType::Directory {
                        old(self).mode
                    } else {
                        Mode::Insert
                    })
                    &&& final (self).abs_line() == imin(k, addressable_lines(s2) - 1)
                    &&& final (self).cursor.current.0 == 0
                    &&& final (self).cursor.possible.0 == 0
                })
            } else {
                *final (self) == *old(self)
            },
    {
        let total = rope_len_chars(&self.lines.rope);
        if total == usize::MAX {
            return ;
        }
        let k = self.abs_line_idx();
        proof {
            lemma_addressable_bounds(self.text());
            lemma_line_start_bounds(self.text(), k as int);
        }
        let idx = rope_line_to_char(&self.lines.rope, k);
        rope_insert_char(&mut self.lines.rope, idx, '\n');
        self.place_and_clamp(k, 0, size);
        self.cursor.possible.0 = 0;
        self.change_mode(Mode::Insert);
    }

    /// Opens an empty line below the current one and enters Insert mode
    /// (directories stay read-only and keep their mode).
    pub fn new_line_below(&mut self, size: (u16, u16))
        requires
            old(self).wf(),
        ensures
            final (self).wf(),
            final (self).size == old(self).size,
            final (self).buffer_type == old(self).buffer_type,
            final (self).file == old(self).file,
            final (self).parent_dir == old(self).parent_dir,
            if old(self).text().len() < usize::MAX {
                ({
                    let s = old(self).text();
                    let k = old(self).abs_line();
                    let idx = line_start(s, k + 1);
                    let s2 = s.take(idx) + seq!['\n'] + s.skip(idx);
                    &&& final (self).text() == s2
                    &&& final (self).mode == (if old(self).buffer_type
                        == BufferType::Directory {
                        old(self).mode
                    } else {
                        Mode::Insert
                    })
                    &&& final (self).abs_line() == imin(k + 1, addressable_lines(s2) - 1)
                    &&& final (self).cursor.current.0 == 0
                    &&& final (self).cursor.possible.0 == 0
                })
            } else {
                *final (self) == *old(self)
            },
    {
        let total = rope_len_chars(&self.lines.rope);
        if total == usize::MAX {
            return ;
        }
        let k = self.abs_line_idx();
        proof {
            lemma_addressable_bounds(self.text());
            lemma_newline_count_le_len(self.text());
            lemma_line_start_bounds(self.text(), k + 1);
        }
        let idx = rope_line_to_char(&self.lines.rope, k + 1);
        rope_insert_char(&mut self.lines.rope, idx, '\n');
        self.place_and_clamp(k + 1, 0, size);
        self.cursor.possible.0 = 0;
        self.change_mode(Mode::Insert);
    }

    /// The text of the line under the cursor, without its terminator; the
    /// buffer's cursor, viewport and mode are reset so the caller can open
    /// the named entry in place.
    pub fn get_hover_file(&mut self) -> (r: String)
        requires
            old(self).wf(),
        ensures
            final (self).lines == old(self).lines,
            final (self).buffer_type == old(self).buffer_type,
            final (self).size == old(self).size,
            final (self).file == old(self).file,
            final (self).parent_dir == old(self).parent_dir,
            final (self).cursor.current.0 == 0,
            final (self).cursor.current.1 == 0,
            final (self).cursor.possible.0 == 0,
            final (self).cursor.possible.1 == 0,
            final (self).ptr_y == 0,
            final (self).ptr_x == 0,
            final (self).mode == Mode::Normal,
            final (self).wf(),
            ({
                let s = old(self).text();
                let k = old(self).abs_line();
                r@ == s.subrange(line_start(s, k), line_start(s, k) + line_excl_len(s, k))
            }),
    {
        let s = rope_to_string(&self.lines.rope);
        let _total = rope_len_chars(&self.lines.rope);
        let k = self.abs_line_idx();
        proof {
            lemma_addressable_bounds(self.text());
            lemma_line_excl_nonneg(self.text(), k as int);
        }
        let a = rope_line_to_char(&self.lines.rope, k);
        let e = line_len_excl(&self.lines.rope, k);
        proof {
            lemma_col_in_line(self.text(), k as int, e as int);
        }
        let result = s.as_str().substring_char(a, a + e).to_owned();
        self.refresh_buffer();
        result
    }

    /// Inserts pasted text at the cursor, character by character; the cursor
    /// column is then reclamped to the current line.
    pub fn paste(&mut self, text: &str)
        requires
            old(self).wf(),
        ensures
            final (self).wf(),
            final (self).size == old(self).size,
            final (self).buffer_type == old(self).buffer_type,
            final (self).mode == old(self).mode,
            final (self).file == old(self).file,
            final (self).parent_dir == old(self).parent_dir,
            if old(self).text().len() + text@.len() <= usize::MAX {
                ({
                    let s = old(self).text();
                    let idx = line_start(s, old(self).abs_line()) + old(self).ptr_x + old(
                        self,
                    ).cursor.current.0;
                    let s2 = s.take(idx) + text@ + s.skip(idx);
                    &&& final (self).text() == s2
                    &&& final (self).abs_line() == imin(
                        old(self).abs_line(),
                        addressable_lines(s2) - 1,
                    )
                    &&& final (self).cursor.current.0 == imin(
                        old(self).cursor.current.0 as int,
                        bound_for_mode(old(self).mode, s2, final (self).abs_line()),
                    )
                })
            } else {
                *final (self) == *old(self)
            },
    {
        let sz = self.size;
        let total = rope_len_chars(&self.lines.rope);
        let n = text.unicode_len();
        if n > usize::MAX - total {
            return ;
        }
        let k = self.abs_line_idx();
        let idx = self.cursor_char_index();
        let want = self.cursor.current.0;
        let ghost s = self.text();
        let mut j: usize = 0;
        proof {
            assert(s.take(idx as int) + text@.take(0) + s.skip(idx as int) =~= s);
        }
        while j < n
            invariant
                j <= n,
                n == text@.len(),
                idx + n <= usize::MAX,
                idx as int <= s.len(),
                idx as int + j <= rope_text(self.lines.rope).len(),
                rope_text(self.lines.rope) == s.take(idx as int) + text@.take(j as int) + s.skip(
                    idx as int,
                ),
                self.mode == old(self).mode,
                self.buffer_type == old(self).buffer_type,
                self.size == old(self).size,
                self.file == old(self).file,
                self.parent_dir == old(self).parent_dir,
                self.ptr_x == 0,
                self.ptr_y == old(self).ptr_y,
                self.cursor == old(self).cursor,
            decreases n - j,
        {
            let c = text.get_char(j);
            let ghost pre_t = rope_text(self.lines.rope);
            rope_insert_char(&mut self.lines.rope, idx + j, c);
            proof {
                assert(pre_t.take(idx as int + j as int) =~= s.take(idx as int) + text@.take(
                    j as int,
                ));
                assert(pre_t.skip(idx as int + j as int) =~= s.skip(idx as int));
                assert(rope_text(self.lines.rope) =~= s.take(idx as int) + text@.take(j as int + 1)
                    + s.skip(idx as int));
            }
            j += 1;
        }
        proof {
            assert(text@.take(n as int) =~= text@);
        }
        self.place_and_clamp(k, want, sz);
    }
}

/// One gutter entry: the absolute one-based number (padded to two digits
/// with a space) on the cursor's line, the distance to the cursor elsewhere;
/// each entry ends with a line break and a carriage return.
pub open spec fn gutter_entry(abs_cursor: int, i: int) -> Seq<char> {
    if i == abs_cursor {
        let d = crate::strutil::decimal_digits(i + 1);
        (if d.len() <= 2 {
            d.push(' ')
        } else {
            d
        }) + seq!['\n', '\r']
    } else {
        let delta = if i < abs_cursor {
            abs_cursor - i
        } else {
            i - abs_cursor
        };
        crate::strutil::decimal_digits(delta) + seq!['\n', '\r']
    }
}

/// The gutter entries for the lines in `[from, to)`, in order.
pub open spec fn gutter_text(abs_cursor: int, from: int, to: int) -> Seq<char>
    decreases to - from,
{
    if from >= to {
        Seq::empty()
    } else {
        gutter_text(abs_cursor, from, to - 1) + gutter_entry(abs_cursor, to - 1)
    }
}

impl Buffer {
    /// The visible slice for rendering: the line-number gutter and the text
    /// of the lines from the viewport offset down to its height (or the end
    /// of the buffer), line terminators included.
    pub fn basic_text(&self) -> (r: (String, String))
        requires
            self.wf(),
            self.text().len() < usize::MAX,
        ensures
            ({
                let s = self.text();
                let end = imin(self.ptr_y + self.size.1 as int, addressable_lines(s));
                &&& r.0@ == gutter_text(self.abs_line(), self.ptr_y as int, end)
                &&& r.1@ == s.subrange(line_start(s, self.ptr_y as int), line_start(s, end))
            }),
    {
        let k = self.abs_line_idx();
        let addr = rope_addressable_lines(&self.lines.rope);
        let total = rope_len_chars(&self.lines.rope);
        proof {
            lemma_newline_count_le_len(self.text());
        }
        let h = self.size.1 as usize;
        let end = if addr - self.ptr_y > h {
            self.ptr_y + h
        } else {
            addr
        };
        let full = rope_to_string(&self.lines.rope);
        let mut nums = String::new();
        let mut texts = String::new();
        let mut i: usize = self.ptr_y;
        proof {
            lemma_line_start_bounds(self.text(), self.ptr_y as int);
            assert(gutter_text(k as int, self.ptr_y as int, i as int) =~= Seq::<char>::empty());
            assert(self.text().subrange(
                line_start(self.text(), self.ptr_y as int),
                line_start(self.text(), i as int),
            ) =~= Seq::<char>::empty());
        }
        while i < end
            invariant
                self.ptr_y <= i <= end,
                end <= addr,
                addr == addressable_lines(self.text()),
                total == self.text().len(),
                total < usize::MAX,
                k == self.abs_line(),
                full@ == self.text(),
                end as int == imin(self.ptr_y + self.size.1 as int, addressable_lines(self.text())),
                nums@ == gutter_text(k as int, self.ptr_y as int, i as int),
                texts@ == self.text().subrange(
                    line_start(self.text(), self.ptr_y as int),
                    line_start(self.text(), i as int),
                ),
            decreases end - i,
        {
            let entry: String = if i == k {
                let mut d = usize_to_string(k + 1);
                if d.as_str().unicode_len() <= 2 {
                    d.push(' ');
                }
                d
            } else {
                let delta = if i < k {
                    k - i
                } else {
                    i - k
                };
                usize_to_string(delta)
            };
            nums.append(entry.as_str());
            nums.push('\n');
            nums.push('\r');
            proof {
                lemma_addressable_bounds(self.text());
                lemma_line_start_mono(self.text(), i as int, i + 1);
                lemma_line_start_mono(self.text(), self.ptr_y as int, i as int);
                lemma_line_start_bounds(self.text(), i + 1);
                lemma_line_start_bounds(self.text(), self.ptr_y as int);
            }
            let a = rope_line_to_char(&self.lines.rope, i);
            let b = rope_line_to_char(&self.lines.rope, i + 1);
            texts.append(full.as_str().substring_char(a, b));
            i += 1;
            proof {
                assert(nums@ =~= gutter_text(k as int, self.ptr_y as int, i as int));
                assert(texts@ =~= self.text().subrange(
                    line_start(self.text(), self.ptr_y as int),
                    line_start(self.text(), i as int),
                ));
            }
        }
        (nums, texts)
    }
}

/// The status line after a write of `n` bytes succeeded or failed.
pub fn save_report(ok: bool, n: usize) -> (m: String)
    ensures
        ok ==> m@ == "Wrote "@ + crate::strutil::decimal_digits(n as int) + " bytes"@,
        !ok ==> m@ == "Writing to file didn't work"@,
{
    if ok {
        let mut m = String::from_str("Wrote ");
        let digits = usize_to_string(n);
        m.append(digits.as_str());
        m.append(" bytes");
        m
    } else {
        String::from_str("Writing to file didn't work")
    }
}

/// The status line when a buffer has nothing to save: a directory listing,
/// or a buffer with no file behind it.
pub fn save_refusal(b: &Buffer) -> (m: String)
    requires
        b.buffer_type != BufferType::File || b.file is None,
    ensures
        b.buffer_type != BufferType::File ==> m@ == "Can't write to directory"@,
        b.buffer_type == BufferType::File ==> m@ == "No file found"@,
    {
    if matches!(b.buffer_type, BufferType::File) {
        String::from_str("No file found")
    } else {
        String::from_str("Can't write to directory")
    }
}

} // verus!
