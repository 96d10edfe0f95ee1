//! The editor: a collection of buffers with one active, a command line, and
//! the dispatcher that interprets completed motion token sequences into
//! buffer operations. Work that only the surrounding program can do — writing
//! a file, probing a path, forwarding a character to the parser task — is
//! returned as an action for the caller to perform.

use crate::buffer::{
    backspace_effect, bound_for_mode, enter_effect, imin, insert_char_effect, normal_bound,
    place_ptr_y_spec, to_normal_effect, Buffer, BufferType, Key, Mode, PathContent,
};
use crate::command::{expected_command, Command, CommandKey};
use crate::statemachine::StateMachine;
use crate::text::{addressable_lines, char_line, line_start};
use vstd::prelude::*;
use vstd::string::StrSliceExecFns;
use vstd::string::StringExecFns;

verus! {

/// What the caller must do after a key or command was handled: nothing,
/// forward a character (or a cancel) to the motion parser, open the named
/// path into the active buffer, persist the active buffer (and possibly
/// quit), send a line to the debug sink, report the sink's state, or open a
/// fresh buffer.
#[derive(Debug, PartialEq, Eq, Clone)]
pub enum KeyAction {
    Nothing,
    SendMotion(char),
    ClearMotion,
    OpenHover(String),
    Save,
    SaveAndQuit,
    SendLog(String),
    QueryLogger,
    NewBuf,
}

/// The value `max(a, b)` over the cursor's current and desired column: the
/// column a vertical move aims for.
pub open spec fn want_col(pre: Buffer) -> int {
    if pre.cursor.current.0 >= pre.cursor.possible.0 {
        pre.cursor.current.0 as int
    } else {
        pre.cursor.possible.0 as int
    }
}

/// Fields no motion touches.
pub open spec fn motion_frame(pre: Buffer, post: Buffer) -> bool {
    &&& post.lines == pre.lines
    &&& post.mode == pre.mode
    &&& post.buffer_type == pre.buffer_type
    &&& post.cursor.possible == pre.cursor.possible
}

/// The active buffer after one `move_down`.
pub open spec fn moved_down(pre: Buffer, post: Buffer, size: (u16, u16)) -> bool {
    &&& post.wf()
    &&& motion_frame(pre, post)
    &&& post.abs_line() == imin(pre.abs_line() + 1, addressable_lines(pre.text()) - 1)
    &&& post.ptr_y == place_ptr_y_spec(pre.ptr_y as int, post.abs_line(), size.1 as int)
    &&& post.cursor.current.0 == imin(
        want_col(pre),
        bound_for_mode(pre.mode, pre.text(), post.abs_line()),
    )
}

/// The active buffer after one `move_up`.
pub open spec fn moved_up(pre: Buffer, post: Buffer, size: (u16, u16)) -> bool {
    &&& post.wf()
    &&& motion_frame(pre, post)
    &&& post.abs_line() == (if pre.abs_line() > 0 {
        pre.abs_line() - 1
    } else {
        0int
    })
    &&& post.ptr_y == place_ptr_y_spec(pre.ptr_y as int, post.abs_line(), size.1 as int)
    &&& post.cursor.current.0 == imin(
        want_col(pre),
        bound_for_mode(pre.mode, pre.text(), post.abs_line()),
    )
}

/// The active buffer after one `move_right`.
pub open spec fn moved_right(pre: Buffer, post: Buffer) -> bool {
    &&& post.wf()
    &&& post.lines == pre.lines
    &&& post.mode == pre.mode
    &&& post.buffer_type == pre.buffer_type
    &&& post.ptr_y == pre.ptr_y
    &&& post.cursor.current.1 == pre.cursor.current.1
    &&& post.cursor.current.0 == imin(
        pre.cursor.current.0 + 1,
        bound_for_mode(pre.mode, pre.text(), pre.abs_line()),
    )
    &&& post.cursor.possible.0 == post.cursor.current.0
}

/// The active buffer after one `move_left`.
pub open spec fn moved_left(pre: Buffer, post: Buffer) -> bool {
    &&& post.wf()
    &&& post.lines == pre.lines
    &&& post.mode == pre.mode
    &&& post.buffer_type == pre.buffer_type
    &&& post.ptr_y == pre.ptr_y
    &&& post.cursor.current.1 == pre.cursor.current.1
    &&& post.cursor.current.0 == (if pre.cursor.current.0 > 0 {
        pre.cursor.current.0 - 1
    } else {
        0int
    })
    &&& post.cursor.possible.0 == post.cursor.current.0
}

/// The active buffer after `move_begin_of_line`.
pub open spec fn moved_bol(pre: Buffer, post: Buffer) -> bool {
    &&& post.wf()
    &&& post.lines == pre.lines
    &&& post.mode == pre.mode
    &&& post.buffer_type == pre.buffer_type
    &&& post.ptr_y == pre.ptr_y
    &&& post.cursor.current.1 == pre.cursor.current.1
    &&& post.cursor.current.0 == 0
    &&& post.cursor.possible.0 == 0
}

/// The active buffer after `move_end_of_line`.
pub open spec fn moved_eol(pre: Buffer, post: Buffer) -> bool {
    &&& post.wf()
    &&& post.lines == pre.lines
    &&& post.mode == pre.mode
    &&& post.buffer_type == pre.buffer_type
    &&& post.ptr_y == pre.ptr_y
    &&& post.cursor.current.1 == pre.cursor.current.1
    &&& match pre.mode {
        Mode::Normal | Mode::Insert => {
            &&& post.cursor.current.0 == bound_for_mode(pre.mode, pre.text(), pre.abs_line())
            &&& post.cursor.possible.0 == post.cursor.current.0
        },
        _ => post.cursor == pre.cursor,
    }
}

/// The active buffer after `change_mode(mode)`.
pub open spec fn mode_changed(pre: Buffer, post: Buffer, mode: Mode) -> bool {
    &&& post.wf()
    &&& post.lines == pre.lines
    &&& post.buffer_type == pre.buffer_type
    &&& post.ptr_y == pre.ptr_y
    &&& post.cursor.current.1 == pre.cursor.current.1
    &&& match mode {
        Mode::Insert => {
            &&& post.mode == (if pre.buffer_type == BufferType::Directory {
                pre.mode
            } else {
                Mode::Insert
            })
            &&& post.cursor == pre.cursor
        },
        Mode::Command | Mode::Visual { .. } => {
            &&& post.mode == mode
            &&& post.cursor == pre.cursor
        },
        Mode::Normal => {
            &&& post.mode == Mode::Normal
            &&& post.cursor.current.0 == imin(
                pre.cursor.current.0 as int,
                normal_bound(pre.text(), pre.abs_line()),
            )
            &&& post.cursor.possible.0 == post.cursor.current.0
        },
    }
}

/// The active buffer after a forward word motion found (or did not find) a
/// target: either nothing changed and no word start lies after the cursor,
/// or the cursor stands on the first word start after its old position.
pub open spec fn word_next_moved(pre: Buffer, post: Buffer, size: (u16, u16)) -> bool {
    let s = pre.text();
    let from = line_start(s, pre.abs_line()) + pre.ptr_x + pre.cursor.current.0;
    &&& post.wf()
    &&& post.lines == pre.lines
    &&& post.mode == pre.mode
    &&& post.buffer_type == pre.buffer_type
    &&& ({
        ||| ({
            &&& (forall|j: int| from < j < s.len() ==> !crate::word::word_start_at(s, j))
            &&& post == pre
        })
        ||| ({
            let p = line_start(s, post.abs_line()) + post.cursor.current.0;
            &&& from < p < s.len()
            &&& crate::word::word_start_at(s, p)
            &&& (forall|j: int| from < j < p ==> !crate::word::word_start_at(s, j))
            &&& post.abs_line() == char_line(s, p)
            &&& post.cursor.possible.0 == post.cursor.current.0
            &&& post.ptr_y == place_ptr_y_spec(pre.ptr_y as int, post.abs_line(), size.1 as int)
        })
    })
}

/// The active buffer after a word-end motion.
pub open spec fn word_end_moved(pre: Buffer, post: Buffer, size: (u16, u16)) -> bool {
    let s = pre.text();
    let from = line_start(s, pre.abs_line()) + pre.ptr_x + pre.cursor.current.0;
    &&& post.wf()
    &&& post.lines == pre.lines
    &&& post.mode == pre.mode
    &&& post.buffer_type == pre.buffer_type
    &&& ({
        ||| ({
            &&& (forall|j: int| from < j && j + 1 < s.len() ==> !crate::word::word_end_at(s, j))
            &&& post == pre
        })
        ||| ({
            let p = line_start(s, post.abs_line()) + post.cursor.current.0;
            &&& from < p
            &&& p + 1 < s.len()
            &&& crate::word::word_end_at(s, p)
            &&& (forall|j: int| from < j < p ==> !crate::word::word_end_at(s, j))
            &&& post.abs_line() == char_line(s, p)
            &&& post.cursor.possible.0 == post.cursor.current.0
            &&& post.ptr_y == place_ptr_y_spec(pre.ptr_y as int, post.abs_line(), size.1 as int)
        })
    })
}

/// The active buffer after a backward word motion.
pub open spec fn word_back_moved(pre: Buffer, post: Buffer, size: (u16, u16)) -> bool {
    let s = pre.text();
    let from = line_start(s, pre.abs_line()) + pre.ptr_x + pre.cursor.current.0;
    &&& post.wf()
    &&& post.lines == pre.lines
    &&& post.mode == pre.mode
    &&& post.buffer_type == pre.buffer_type
    &&& ({
        ||| ({
            &&& crate::word::all_space_range(s, 0, from)
            &&& post == pre
        })
        ||| ({
            let p = line_start(s, post.abs_line()) + post.cursor.current.0;
            &&& 0 <= p < from
            &&& !crate::word::is_space_char(s[p])
            &&& (p == 0 || crate::word::is_space_char(s[p - 1]))
            &&& (forall|t1: int, t2: int|
                #![trigger s[t1], s[t2]]
                p <= t1 <= t2 < from && crate::word::is_space_char(s[t1])
                    ==> crate::word::is_space_char(s[t2]))
            &&& post.abs_line() == char_line(s, p)
            &&& post.cursor.possible.0 == post.cursor.current.0
            &&& post.ptr_y == place_ptr_y_spec(pre.ptr_y as int, post.abs_line(), size.1 as int)
        })
    })
}

/// The active buffer after `new_line_above`.
pub open spec fn line_opened_above(pre: Buffer, post: Buffer, size: (u16, u16)) -> bool {
    &&& post.wf()
    &&& post.buffer_type == pre.buffer_type
    &&& post.file == pre.file
    &&& post.parent_dir == pre.parent_dir
    &&& if pre.text().len() < usize::MAX {
        ({
            let s = pre.text();
            let k = pre.abs_line();
            let idx = line_start(s, k);
            let s2 = s.take(idx) + seq!['\n'] + s.skip(idx);
            &&& post.text() == s2
            &&& post.mode == (if pre.buffer_type == BufferType::Directory {
                pre.mode
            } else {
                Mode::Insert
            })
            &&& post.abs_line() == imin(k, addressable_lines(s2) - 1)
            &&& post.cursor.current.0 == 0
            &&& post.cursor.possible.0 == 0
        })
    } else {
        post == pre
    }
}

/// The active buffer after `new_line_below`.
pub open spec fn line_opened_below(pre: Buffer, post: Buffer, size: (u16, u16)) -> bool {
    &&& post.wf()
    &&& post.buffer_type == pre.buffer_type
    &&& post.file == pre.file
    &&& post.parent_dir == pre.parent_dir
    &&& if pre.text().len() < usize::MAX {
        ({
            let s = pre.text();
            let k = pre.abs_line();
            let idx = line_start(s, k + 1);
            let s2 = s.take(idx) + seq!['\n'] + s.skip(idx);
            &&& post.text() == s2
            &&& post.mode == (if pre.buffer_type == BufferType::Directory {
                pre.mode
            } else {
                Mode::Insert
            })
            &&& post.abs_line() == imin(k + 1, addressable_lines(s2) - 1)
            &&& post.cursor.current.0 == 0
            &&& post.cursor.possible.0 == 0
        })
    } else {
        post == pre
    }
}

/// The editor: its buffers, the index of the active one, the command line,
/// the window size, the quit flag, and the status message.
pub struct Editor {
    pub buffers: Vec<Buffer>,
    pub buf_ptr: usize,
    pub command: Command,
    pub should_quit: bool,
    pub size: (u16, u16),
    pub message: Option<String>,
}

impl Editor {
    /// There is a buffer to act on.
    pub open spec fn has_active(self) -> bool {
        self.buffers.len() > 0
    }

    /// The buffer under the active index.
    pub open spec fn active(self) -> Buffer {
        self.buffers@[self.buf_ptr as int]
    }

    /// Well-formed editor: the active index is in range whenever any buffer
    /// exists, and every buffer is itself well-formed.
    pub open spec fn wf(self) -> bool {
        &&& (self.buffers.len() > 0 ==> self.buf_ptr < self.buffers.len())
        &&& (self.buffers.len() == 0 ==> self.buf_ptr == 0)
        &&& (forall|i: int| 0 <= i < self.buffers.len() ==> (#[trigger] self.buffers@[i]).wf())
    }

    /// All buffers other than the active one, and the rest of the editor's
    /// fields except the named ones, are as they were.
    pub open spec fn others_same(pre: Editor, post: Editor) -> bool {
        &&& post.buffers.len() == pre.buffers.len()
        &&& post.buf_ptr == pre.buf_ptr
        &&& (forall|i: int|
            0 <= i < pre.buffers.len() && i != pre.buf_ptr ==> post.buffers@[i]
                == pre.buffers@[i])
    }

    /// A fresh editor: no buffers, an empty command line, not quitting.
    pub fn new() -> (e: Editor)
        ensures
            e.wf(),
            e.buffers.len() == 0,
            e.buf_ptr == 0,
            e.should_quit == false,
            e.size == (0u16, 0u16),
            e.message is None,
            e.command.text@ == Seq::<char>::empty(),
    {
        Editor {
            buffers: Vec::new(),
            buf_ptr: 0,
            command: Command::new(),
            should_quit: false,
            size: (0, 0),
            message: None,
        }
    }

    /// Removes the active buffer for in-place work.
    fn take_active(&mut self) -> (b: Buffer)
        requires
            old(self).wf(),
            old(self).has_active(),
        ensures
            b == old(self).active(),
            b.wf(),
            final (self).buffers@ == old(self).buffers@.remove(old(self).buf_ptr as int),
            final (self).buf_ptr == old(self).buf_ptr,
            final (self).command == old(self).command,
            final (self).should_quit == old(self).should_quit,
            final (self).size == old(self).size,
            final (self).message == old(self).message,
    {
        self.buffers.remove(self.buf_ptr)
    }

    /// Puts a buffer back at the active index.
    fn put_active(&mut self, b: Buffer)
        requires
            old(self).buf_ptr <= old(self).buffers.len(),
        ensures
            final (self).buffers@ == old(self).buffers@.insert(old(self).buf_ptr as int, b),
            final (self).buf_ptr == old(self).buf_ptr,
            final (self).command == old(self).command,
            final (self).should_quit == old(self).should_quit,
            final (self).size == old(self).size,
            final (self).message == old(self).message,
    {
        self.buffers.insert(self.buf_ptr, b);
    }
}

/// After working on the active buffer alone, the editor's buffer list is the
/// old one with the active slot updated.
pub proof fn lemma_update_active(pre: Seq<Buffer>, p: int, b: Buffer)
    requires
        0 <= p < pre.len(),
    ensures
        pre.remove(p).insert(p, b) =~= pre.update(p, b),
{
}

/// What one motion key does to the active buffer (and, for `:`, `i` and `v`,
/// to the message and command line). An unknown key changes nothing.
pub open spec fn motion_applied(pre: Editor, post: Editor, key: char) -> bool {
    let b0 = pre.active();
    let b1 = post.active();
    let size = pre.size;
    &&& Editor::others_same(pre, post)
    &&& post.should_quit == pre.should_quit
    &&& post.size == pre.size
    &&& if key == ':' {
        &&& mode_changed(b0, b1, Mode::Command)
        &&& post.message is None
        &&& post.command.text@ == Seq::<char>::empty()
        &&& post.command.history == pre.command.history
    } else if key == 'i' {
        &&& mode_changed(b0, b1, Mode::Insert)
        &&& post.message is None
        &&& post.command.text@ == Seq::<char>::empty()
        &&& post.command.history == pre.command.history
    } else {
        &&& post.command == pre.command
        &&& if key == 'v' {
            &&& mode_changed(b0, b1, Mode::Visual { start: 0, end: 0 })
            &&& post.message == pre.message
        } else {
            &&& post.message == pre.message
            &&& if key == 'j' {
                moved_down(b0, b1, size)
            } else if key == 'k' {
                moved_up(b0, b1, size)
            } else if key == 'h' {
                moved_left(b0, b1)
            } else if key == 'l' {
                moved_right(b0, b1)
            } else if key == 'a' {
                exists|mid: Buffer| #[trigger]
                    mode_changed(b0, mid, Mode::Insert) && moved_right(mid, b1)
            } else if key == 'O' {
                line_opened_above(b0, b1, size)
            } else if key == 'o' {
                line_opened_below(b0, b1, size)
            } else if key == 'w' {
                word_next_moved(b0, b1, size)
            } else if key == 'b' {
                word_back_moved(b0, b1, size)
            } else if key == 'e' {
                word_end_moved(b0, b1, size)
            } else if key == '0' {
                moved_bol(b0, b1)
            } else if key == '$' {
                moved_eol(b0, b1)
            } else if key == 'I' {
                exists|mid: Buffer| #[trigger]
                    mode_changed(b0, mid, Mode::Insert) && moved_bol(mid, b1)
            } else if key == 'A' {
                exists|mid: Buffer| #[trigger]
                    mode_changed(b0, mid, Mode::Insert) && moved_eol(mid, b1)
            } else {
                b1 == b0
            }
        }
    }
}

/// The editor after one key was handed to the active buffer in insert mode:
/// the buffer took the edit (directories ignore it), nothing else moved.
pub open spec fn inserted_key(pre: Editor, post: Editor, key: Key) -> bool {
    &&& Editor::others_same(pre, post)
    &&& post.command == pre.command
    &&& post.message == pre.message
    &&& post.should_quit == pre.should_quit
    &&& post.size == pre.size
    &&& (!pre.has_active() ==> post.buffers@ == pre.buffers@)
    &&& (pre.has_active() ==> ({
        let b0 = pre.active();
        let b1 = post.active();
        if b0.buffer_type == BufferType::Directory {
            b1 == b0
        } else {
            match key {
                Key::Char(c) => if b0.text().len() < usize::MAX {
                    insert_char_effect(b0, b1, c, pre.size)
                } else {
                    b1 == b0
                },
                Key::Enter => if b0.text().len() < usize::MAX {
                    enter_effect(b0, b1, pre.size)
                } else {
                    b1 == b0
                },
                Key::Backspace => backspace_effect(b0, b1, pre.size),
                Key::Ctrl(c) => if c == 'c' {
                    to_normal_effect(b0, b1)
                } else {
                    b1 == b0
                },
                Key::Esc => to_normal_effect(b0, b1),
                Key::Tab | Key::Other => b1 == b0,
            }
        }
    }))
}

impl Editor {
    /// Changes the active buffer's mode; entering Insert or Command also
    /// drops the status message and clears the command line.
    pub fn change_mode(&mut self, mode: Mode)
        requires
            old(self).wf(),
        ensures
            final (self).wf(),
            final (self).should_quit == old(self).should_quit,
            final (self).size == old(self).size,
            Editor::others_same(*old(self), *final (self)),
            old(self).has_active() ==> mode_changed(
                old(self).active(),
                final (self).active(),
                mode,
            ),
            !old(self).has_active() ==> final (self).buffers@ == old(self).buffers@,
            match mode {
                Mode::Insert | Mode::Command => {
                    &&& final (self).message is None
                    &&& final (self).command.text@ == Seq::<char>::empty()
                    &&& final (self).command.history == old(self).command.history
                },
                _ => {
                    &&& final (self).message == old(self).message
                    &&& final (self).command == old(self).command
                },
            },
    {
        if self.buf_ptr < self.buffers.len() {
            let ghost pre = self.buffers@;
            let mut b = self.take_active();
            b.change_mode(mode);
            self.put_active(b);
            proof {
                lemma_update_active(pre, self.buf_ptr as int, b);
            }
        }
        match mode {
            Mode::Insert | Mode::Command => {
                self.message = None;
                self.command.clear();
            },
            _ => {},
        }
    }

    /// The status-line text for the current mode: a fixed label in Insert
    /// mode, the message (or a fixed label) in Normal mode, and the typed
    /// command after a `:` in Command mode. Empty with no buffer.
    pub fn mode_display(&self) -> (m: String)
        requires
            self.wf(),
            self.has_active() ==> !(self.active().mode is Visual),
        ensures
            !self.has_active() ==> m@ == Seq::<char>::empty(),
            self.has_active() ==> match self.active().mode {
                Mode::Insert => m@ == "-- Insert --"@,
                Mode::Normal => match self.message {
                    Some(msg) => m@ == msg@,
                    None => m@ == "-- Normal --"@,
                },
                Mode::Command => m@ == seq![':'] + self.command.text@,
                Mode::Visual { .. } => false,
            },
    {
        if self.buf_ptr >= self.buffers.len() {
            return String::new();
        }
        match self.buffers[self.buf_ptr].mode {
            Mode::Insert => String::from_str("-- Insert --"),
            Mode::Normal => {
                match &self.message {
                    Some(msg) => msg.clone(),
                    None => String::from_str("-- Normal --"),
                }
            },
            Mode::Command => {
                let mut m = String::from_str(":");
                proof {
                    reveal_strlit(":");
                    assert(":"@ =~= seq![':']);
                }
                m.append(self.command.text.as_str());
                m
            },
            Mode::Visual { .. } => String::new(),
        }
    }

    /// Hands one key to the active buffer in insert mode; directory buffers
    /// ignore it.
    pub fn insert_key(&mut self, key: Key)
        requires
            old(self).wf(),
        ensures
            final (self).wf(),
            inserted_key(*old(self), *final (self), key),
    {
        if self.buf_ptr < self.buffers.len() {
            let ghost pre = self.buffers@;
            let size = self.size;
            let mut b = self.take_active();
            match b.buffer_type {
                BufferType::Directory => {
                    b.insert_key_dir(key);
                },
                _ => {
                    b.insert_key_file(key, size);
                },
            }
            self.put_active(b);
            proof {
                lemma_update_active(pre, self.buf_ptr as int, b);
            }
        }
    }

    /// Inserts pasted text at the active buffer's cursor.
    pub fn paste(&mut self, text: String)
        requires
            old(self).wf(),
        ensures
            final (self).wf(),
            Editor::others_same(*old(self), *final (self)),
            final (self).should_quit == old(self).should_quit,
            old(self).has_active() ==> ({
                let b0 = old(self).active();
                let b1 = final (self).active();
                &&& b1.mode == b0.mode
                &&& b1.buffer_type == b0.buffer_type
                &&& (b0.text().len() + text@.len() <= usize::MAX ==> b1.text() == b0.text().take(
                    line_start(b0.text(), b0.abs_line()) + b0.ptr_x + b0.cursor.current.0,
                ) + text@ + b0.text().skip(
                    line_start(b0.text(), b0.abs_line()) + b0.ptr_x + b0.cursor.current.0,
                ))
            }),
    {
        if self.buf_ptr < self.buffers.len() {
            let ghost pre = self.buffers@;
            let mut b = self.take_active();
            b.paste(text.as_str());
            self.put_active(b);
            proof {
                lemma_update_active(pre, self.buf_ptr as int, b);
            }
        }
    }

    /// Moves the cursor of the active buffer to the given one-based line,
    /// clamped to the buffer's last line, at column zero.
    pub fn go_to_line(&mut self, line_idx: usize)
        requires
            old(self).wf(),
        ensures
            final (self).wf(),
            final (self).size == old(self).size,
            Editor::others_same(*old(self), *final (self)),
            final (self).command == old(self).command,
            final (self).message == old(self).message,
            final (self).should_quit == old(self).should_quit,
            !old(self).has_active() ==> final (self).buffers@ == old(self).buffers@,
            old(self).has_active() ==> ({
                let b0 = old(self).active();
                let b1 = final (self).active();
                let target = if line_idx > 0 {
                    line_idx - 1
                } else {
                    0int
                };
                &&& b1.lines == b0.lines
                &&& b1.mode == b0.mode
                &&& b1.buffer_type == b0.buffer_type
                &&& b1.abs_line() == imin(target, addressable_lines(b0.text()) - 1)
                &&& b1.ptr_y == place_ptr_y_spec(b0.ptr_y as int, b1.abs_line(), old(
                    self,
                ).size.1 as int)
                &&& b1.cursor.current.0 == 0
            }),
    {
        let target = if line_idx > 0 {
            line_idx - 1
        } else {
            0
        };
        if self.buf_ptr < self.buffers.len() {
            let ghost pre = self.buffers@;
            let size = self.size;
            let mut b = self.take_active();
            b.go_to_abs_line(target, size);
            self.put_active(b);
            proof {
                lemma_update_active(pre, self.buf_ptr as int, b);
            }
        }
    }

    /// Runs one motion key against the active buffer (see `motion_applied`).
    #[verifier::rlimit(100)]
    pub fn motion_func(&mut self, key: &String)
        requires
            old(self).wf(),
        ensures
            final (self).wf(),
            motion_step(*old(self), *final (self), key@),
    {
        let s = key.as_str();
        let n = s.unicode_len();
        if n != 1 {
            return ;
        }
        let c = s.get_char(0);
        if self.buffers.len() == 0 {
            if c == ':' {
                // entering command mode without a buffer still clears the
                // message and command line
                self.change_mode(Mode::Command);
            }
            return ;
        }
        let size = self.size;
        if c == ':' {
            self.change_mode(Mode::Command);
        } else if c == 'i' {
            self.change_mode(Mode::Insert);
        } else if c == 'v' {
            self.change_mode(Mode::Visual { start: 0, end: 0 });
        } else if c == 'j' {
            let ghost pre = self.buffers@;
            let mut b = self.take_active();
            b.move_down(size);
            self.put_active(b);
            proof {
                lemma_update_active(pre, self.buf_ptr as int, b);
            }
        } else if c == 'k' {
            let ghost pre = self.buffers@;
            let mut b = self.take_active();
            b.move_up(size);
            self.put_active(b);
            proof {
                lemma_update_active(pre, self.buf_ptr as int, b);
            }
        } else if c == 'h' {
            let ghost pre = self.buffers@;
            let mut b = self.take_active();
            b.move_left();
            self.put_active(b);
            proof {
                lemma_update_active(pre, self.buf_ptr as int, b);
            }
        } else if c == 'l' {
            let ghost pre = self.buffers@;
            let mut b = self.take_active();
            b.move_right();
            self.put_active(b);
            proof {
                lemma_update_active(pre, self.buf_ptr as int, b);
            }
        } else if c == 'a' {
            let ghost pre = self.buffers@;
            let mut b = self.take_active();
            b.change_mode(Mode::Insert);
            let ghost mid = b;
            b.move_right();
            self.put_active(b);
            proof {
                lemma_update_active(pre, self.buf_ptr as int, b);
                assert(mode_changed(pre[self.buf_ptr as int], mid, Mode::Insert) && moved_right(
                    mid,
                    b,
                ));
            }
        } else if c == 'O' {
            let ghost pre = self.buffers@;
            let mut b = self.take_active();
            b.new_line_above(size);
            self.put_active(b);
            proof {
                lemma_update_active(pre, self.buf_ptr as int, b);
            }
        } else if c == 'o' {
            let ghost pre = self.buffers@;
            let mut b = self.take_active();
            b.new_line_below(size);
            self.put_active(b);
            proof {
                lemma_update_active(pre, self.buf_ptr as int, b);
            }
        } else if c == 'w' {
            let ghost pre = self.buffers@;
            let mut b = self.take_active();
            b.move_next_word(size);
            self.put_active(b);
            proof {
                lemma_update_active(pre, self.buf_ptr as int, b);
            }
        } else if c == 'b' {
            let ghost pre = self.buffers@;
            let mut b = self.take_active();
            b.move_back_word(size);
            self.put_active(b);
            proof {
                lemma_update_active(pre, self.buf_ptr as int, b);
            }
        } else if c == 'e' {
            let ghost pre = self.buffers@;
            let mut b = self.take_active();
            b.move_end_word(size);
            self.put_active(b);
            proof {
                lemma_update_active(pre, self.buf_ptr as int, b);
            }
        } else if c == '0' {
            let ghost pre = self.buffers@;
            let mut b = self.take_active();
            b.move_begin_of_line();
            self.put_active(b);
            proof {
                lemma_update_active(pre, self.buf_ptr as int, b);
            }
        } else if c == '$' {
            let ghost pre = self.buffers@;
            let mut b = self.take_active();
            b.move_end_of_line();
            self.put_active(b);
            proof {
                lemma_update_active(pre, self.buf_ptr as int, b);
            }
        } else if c == 'I' {
            let ghost pre = self.buffers@;
            let mut b = self.take_active();
            b.change_mode(Mode::Insert);
            let ghost mid = b;
            b.move_begin_of_line();
            self.put_active(b);
            proof {
                lemma_update_active(pre, self.buf_ptr as int, b);
                assert(mode_changed(pre[self.buf_ptr as int], mid, Mode::Insert) && moved_bol(
                    mid,
                    b,
                ));
            }
        } else if c == 'A' {
            let ghost pre = self.buffers@;
            let mut b = self.take_active();
            b.change_mode(Mode::Insert);
            let ghost mid = b;
            b.move_end_of_line();
            self.put_active(b);
            proof {
                lemma_update_active(pre, self.buf_ptr as int, b);
                assert(mode_changed(pre[self.buf_ptr as int], mid, Mode::Insert) && moved_eol(
                    mid,
                    b,
                ));
            }
        }
    }

    /// Operator keys await their behavior; none is implemented, so this
    /// changes nothing whatever the key.
    pub fn action_func(&mut self, key: &String, _args: &String)
        ensures
            *final (self) == *old(self),
    {
    }
}

/// The action a confirmed command asks of the caller: writes and debug-sink
/// traffic are the caller's to perform. Buffer cycling is not here: it
/// reports the new active index, which only `command_handled` can state.
pub open spec fn action_for(ck: Option<CommandKey>) -> KeyAction {
    match ck {
        Option::None => KeyAction::Nothing,
        Option::Some(c) => match c {
            CommandKey::Save => KeyAction::Save,
            CommandKey::SaveAndQuit => KeyAction::SaveAndQuit,
            CommandKey::Logger => KeyAction::QueryLogger,
            CommandKey::Send(m) => KeyAction::SendLog(m),
            CommandKey::NewBuf => KeyAction::NewBuf,
            _ => KeyAction::Nothing,
        },
    }
}

/// The editor's state after `handle_command(ck)`, and the action `r` it
/// returns: quitting closes the active buffer or raises the quit flag, a
/// number moves the cursor, buffer-cycling commands move the active index
/// and report it to the debug sink, the count command sets the status
/// message, and the rest leave the state alone and ask `action_for(ck)` of
/// the caller.
pub open spec fn command_handled(pre: Editor, post: Editor, ck: Option<CommandKey>, r: KeyAction) -> bool {
    &&& post.command == pre.command
    &&& post.size == pre.size
    &&& match ck {
        Option::Some(CommandKey::Quit) => {
            &&& r == KeyAction::Nothing
            &&& post.message == pre.message
            &&& if pre.buffers.len() <= 1 {
                &&& post.buffers@ == pre.buffers@
                &&& post.buf_ptr == pre.buf_ptr
                &&& post.should_quit == true
            } else {
                &&& post.buffers@ == pre.buffers@.remove(pre.buf_ptr as int)
                &&& post.buf_ptr == (if pre.buf_ptr > 0 {
                    pre.buf_ptr - 1
                } else {
                    0int
                })
                &&& post.should_quit == pre.should_quit
            }
        },
        Option::Some(CommandKey::Line(n)) => {
            &&& r == KeyAction::Nothing
            &&& post.message == pre.message
            &&& post.should_quit == pre.should_quit
            &&& Editor::others_same(pre, post)
            &&& (pre.has_active() ==> ({
                let b0 = pre.active();
                let b1 = post.active();
                let target = if n > 0 {
                    n - 1
                } else {
                    0int
                };
                &&& b1.lines == b0.lines
                &&& b1.mode == b0.mode
                &&& b1.abs_line() == imin(target, addressable_lines(b0.text()) - 1)
                &&& b1.cursor.current.0 == 0
            }))
            &&& (!pre.has_active() ==> post.buffers@ == pre.buffers@)
        },
        Option::Some(CommandKey::SaveAndQuit) => {
            &&& r == KeyAction::SaveAndQuit
            &&& post.buffers@ == pre.buffers@
            &&& post.buf_ptr == pre.buf_ptr
            &&& post.message == pre.message
            &&& post.should_quit == true
        },
        Option::Some(CommandKey::NextBuf) => {
            &&& post.buffers@ == pre.buffers@
            &&& post.message == pre.message
            &&& post.should_quit == pre.should_quit
            &&& post.buf_ptr == (if pre.buffers.len() > 0 {
                ((pre.buf_ptr + 1) % (pre.buffers.len() as int))
            } else {
                pre.buf_ptr as int
            })
            &&& match r {
                KeyAction::SendLog(m) => m@ == "buf: "@ + crate::strutil::decimal_digits(
                    post.buf_ptr as int,
                ),
                _ => false,
            }
        },
        Option::Some(CommandKey::PrevBuf) => {
            &&& post.buffers@ == pre.buffers@
            &&& post.message == pre.message
            &&& post.should_quit == pre.should_quit
            &&& post.buf_ptr == (if pre.buffers.len() == 0 {
                pre.buf_ptr as int
            } else if pre.buf_ptr > 0 {
                pre.buf_ptr - 1
            } else {
                pre.buffers.len() - 1
            })
            &&& match r {
                KeyAction::SendLog(m) => m@ == "buf: "@ + crate::strutil::decimal_digits(
                    post.buf_ptr as int,
                ),
                _ => false,
            }
        },
        Option::Some(CommandKey::BufCount) => {
            &&& r == KeyAction::Nothing
            &&& post.buffers@ == pre.buffers@
            &&& post.buf_ptr == pre.buf_ptr
            &&& post.should_quit == pre.should_quit
            &&& match post.message {
                Option::Some(m) => m@ == crate::strutil::decimal_digits(
                    pre.buffers.len() as int,
                ) + " open buffers"@,
                Option::None => false,
            }
        },
        _ => {
            &&& r == action_for(ck)
            &&& post.buffers@ == pre.buffers@
            &&& post.buf_ptr == pre.buf_ptr
            &&& post.message == pre.message
            &&& post.should_quit == pre.should_quit
        },
    }
}

/// What one Command-mode key does to the editor and what it asks of the
/// caller.
pub open spec fn command_key_rel(pre: Editor, post: Editor, key: Key, r: KeyAction) -> bool {
    match key {
        Key::Char(c) => {
            &&& r == KeyAction::Nothing
            &&& post.command.text@ == pre.command.text@.push(c)
            &&& post.command.history == pre.command.history
            &&& post.buffers@ == pre.buffers@
            &&& post.buf_ptr == pre.buf_ptr
            &&& post.message == pre.message
            &&& post.should_quit == pre.should_quit
        },
        Key::Ctrl(c) => if c == 'c' {
            left_command_mode(pre, post, r)
        } else {
            r == KeyAction::Nothing && post == pre
        },
        Key::Esc => left_command_mode(pre, post, r),
        Key::Enter => {
            &&& post.command.text@ == Seq::<char>::empty()
            &&& post.command.history.deep_view() == pre.command.history.deep_view().push(pre.command.text@)
            &&& exists|ck: Option<CommandKey>, mid: Editor, mid2: Editor| {
                &&& #[trigger] command_handled(mid, mid2, ck, r)
                &&& expected_command(pre.command.text@, ck)
                &&& mid.buffers@ == pre.buffers@
                &&& mid.buf_ptr == pre.buf_ptr
                &&& mid.message == pre.message
                &&& mid.should_quit == pre.should_quit
                &&& mid.size == pre.size
                &&& Editor::others_same(mid2, post)
                &&& post.should_quit == mid2.should_quit
                &&& post.size == mid2.size
                &&& post.message == mid2.message
                &&& (mid2.has_active() ==> mode_changed(
                    mid2.active(),
                    post.active(),
                    Mode::Normal,
                ))
                &&& (!mid2.has_active() ==> post.buffers@ == mid2.buffers@)
            }
        },
        Key::Backspace => if pre.command.text@.len() > 0 {
            &&& r == KeyAction::Nothing
            &&& post.command.text@ == pre.command.text@.drop_last()
            &&& post.command.history == pre.command.history
            &&& post.buffers@ == pre.buffers@
            &&& post.buf_ptr == pre.buf_ptr
            &&& post.message == pre.message
            &&& post.should_quit == pre.should_quit
        } else {
            left_command_mode(pre, post, r)
        },
        _ => r == KeyAction::Nothing && post == pre,
    }
}

impl Editor {
    /// Cycles to the next buffer.
    pub fn next_buf(&mut self)
        requires
            old(self).wf(),
        ensures
            final (self).wf(),
            final (self).buffers@ == old(self).buffers@,
            final (self).command == old(self).command,
            final (self).message == old(self).message,
            final (self).should_quit == old(self).should_quit,
            final (self).size == old(self).size,
            final (self).buf_ptr == (if old(self).buffers.len() > 0 {
                ((old(self).buf_ptr + 1) % (old(self).buffers.len() as int))
            } else {
                old(self).buf_ptr as int
            }),
    {
        let max = self.buffers.len();
        if max > 0 {
            self.buf_ptr = (self.buf_ptr + 1) % max;
        }
    }

    /// Cycles to the previous buffer.
    pub fn prev_buf(&mut self)
        requires
            old(self).wf(),
        ensures
            final (self).wf(),
            final (self).buffers@ == old(self).buffers@,
            final (self).command == old(self).command,
            final (self).message == old(self).message,
            final (self).should_quit == old(self).should_quit,
            final (self).size == old(self).size,
            final (self).buf_ptr == (if old(self).buffers.len() == 0 {
                old(self).buf_ptr as int
            } else if old(self).buf_ptr > 0 {
                old(self).buf_ptr - 1
            } else {
                old(self).buffers.len() - 1
            }),
    {
        if self.buffers.len() == 0 {
            return ;
        }
        if self.buf_ptr > 0 {
            self.buf_ptr = self.buf_ptr - 1;
        } else {
            self.buf_ptr = self.buffers.len() - 1;
        }
    }

    /// Closes the active buffer; closing the last one quits instead.
    pub fn close_buffer(&mut self)
        requires
            old(self).wf(),
        ensures
            final (self).wf(),
            final (self).command == old(self).command,
            final (self).message == old(self).message,
            final (self).size == old(self).size,
            if old(self).buffers.len() <= 1 {
                &&& final (self).buffers@ == old(self).buffers@
                &&& final (self).buf_ptr == old(self).buf_ptr
                &&& final (self).should_quit == true
            } else {
                &&& final (self).buffers@ == old(self).buffers@.remove(old(self).buf_ptr as int)
                &&& final (self).buf_ptr == (if old(self).buf_ptr > 0 {
                    old(self).buf_ptr - 1
                } else {
                    0int
                })
                &&& final (self).should_quit == old(self).should_quit
            },
    {
        if self.buffers.len() <= 1 {
            self.should_quit = true;
            return ;
        }
        self.buffers.remove(self.buf_ptr);
        if self.buf_ptr > 0 {
            self.buf_ptr = self.buf_ptr - 1;
        }
    }

    /// Records (or clears) the status message.
    pub fn set_message(&mut self, new_mes: Option<String>)
        ensures
            final (self).message == new_mes,
            final (self).buffers@ == old(self).buffers@,
            final (self).buf_ptr == old(self).buf_ptr,
            final (self).command == old(self).command,
            final (self).should_quit == old(self).should_quit,
            final (self).size == old(self).size,
            final (self).wf() == old(self).wf(),
    {
        self.message = new_mes;
    }

    /// What the active buffer would persist: its path and its text, or
    /// nothing when it is not a file buffer.
    pub fn save(&self) -> (r: Option<(String, String)>)
        requires
            self.wf(),
        ensures
            match r {
                Some(p) => {
                    &&& self.has_active()
                    &&& self.active().buffer_type == BufferType::File
                    &&& self.active().file == Some(p.0)
                    &&& p.1@ == self.active().text()
                },
                None => !self.has_active() || self.active().buffer_type != BufferType::File
                    || self.active().file is None,
            },
    {
        if self.buf_ptr < self.buffers.len() {
            self.buffers[self.buf_ptr].save_content()
        } else {
            None
        }
    }

    /// Performs a confirmed command on the editor and reports the action the
    /// caller still has to carry out.
    pub fn handle_command(&mut self, command: Option<CommandKey>) -> (r: KeyAction)
        requires
            old(self).wf(),
        ensures
            final (self).wf(),
            command_handled(*old(self), *final (self), command, r),
    {
        match command {
            Some(command) => {
                match command {
                    CommandKey::Save => KeyAction::Save,
                    CommandKey::Quit => {
                        self.close_buffer();
                        KeyAction::Nothing
                    },
                    CommandKey::Line(number) => {
                        self.go_to_line(number);
                        KeyAction::Nothing
                    },
                    CommandKey::SaveAndQuit => {
                        self.should_quit = true;
                        KeyAction::SaveAndQuit
                    },
                    CommandKey::History => KeyAction::Nothing,
                    CommandKey::Logger => KeyAction::QueryLogger,
                    CommandKey::Send(message) => KeyAction::SendLog(message),
                    CommandKey::NextBuf => {
                        self.next_buf();
                        let mut m = String::from_str("buf: ");
                        let digits = crate::strutil::usize_to_string(self.buf_ptr);
                        m.append(digits.as_str());
                        KeyAction::SendLog(m)
                    },
                    CommandKey::PrevBuf => {
                        self.prev_buf();
                        let mut m = String::from_str("buf: ");
                        let digits = crate::strutil::usize_to_string(self.buf_ptr);
                        m.append(digits.as_str());
                        KeyAction::SendLog(m)
                    },
                    CommandKey::NewBuf => KeyAction::NewBuf,
                    CommandKey::BufCount => {
                        let mut m = crate::strutil::usize_to_string(self.buffers.len());
                        m.append(" open buffers");
                        self.set_message(Some(m));
                        KeyAction::Nothing
                    },
                }
            },
            None => KeyAction::Nothing,
        }
    }

    /// Handles one key typed on the `:` line: printable characters extend
    /// the command, Backspace shortens it (leaving Command mode when it is
    /// already empty), Esc and Ctrl-C leave Command mode, and Enter confirms
    /// the line, performs the command, and returns to Normal mode.
    pub fn command_line_key(&mut self, key: Key) -> (r: KeyAction)
        requires
            old(self).wf(),
        ensures
            final (self).wf(),
            final (self).size == old(self).size,
            command_key_rel(*old(self), *final (self), key, r),
    {
        match key {
            Key::Char(c) => {
                self.command.text.push(c);
                KeyAction::Nothing
            },
            Key::Ctrl(c) => {
                if c == 'c' {
                    self.change_mode(Mode::Normal);
                }
                KeyAction::Nothing
            },
            Key::Esc => {
                self.change_mode(Mode::Normal);
                KeyAction::Nothing
            },
            Key::Enter => {
                let command = self.command.confirm();
                let ghost mid = *self;
                let act = self.handle_command(command);
                let ghost mid2 = *self;
                self.change_mode(Mode::Normal);
                proof {
                    assert(command_handled(mid, mid2, command, act));
                }
                act
            },
            Key::Backspace => {
                if self.command.text.as_str().unicode_len() > 0 {
                    let n = self.command.text.as_str().unicode_len();
                    let shorter = self.command.text.as_str().substring_char(0, n - 1).to_owned();
                    proof {
                        assert(old(self).command.text@.subrange(
                            0,
                            old(self).command.text@.len() - 1,
                        ) =~= old(self).command.text@.drop_last());
                    }
                    self.command.text = shorter;
                } else {
                    self.change_mode(Mode::Normal);
                }
                KeyAction::Nothing
            },
            _ => KeyAction::Nothing,
        }
    }
}

/// The editor after a key left Command mode for Normal mode: nothing is
/// asked of the caller and the active buffer reclamps into Normal mode.
pub open spec fn left_command_mode(pre: Editor, post: Editor, r: KeyAction) -> bool {
    &&& r == KeyAction::Nothing
    &&& Editor::others_same(pre, post)
    &&& post.should_quit == pre.should_quit
    &&& post.message == pre.message
    &&& post.command == pre.command
    &&& (pre.has_active() ==> mode_changed(pre.active(), post.active(), Mode::Normal))
    &&& (!pre.has_active() ==> post.buffers@ == pre.buffers@)
}

/// The text of the line the cursor hovers over, without its terminator.
pub open spec fn hover_line(b: Buffer) -> Seq<char> {
    let s = b.text();
    let k = b.abs_line();
    s.subrange(
        crate::text::line_start(s, k),
        crate::text::line_start(s, k) + crate::text::line_excl_len(s, k),
    )
}

/// The full key dispatch: what one key does to the editor, by the active
/// buffer's kind and mode, and what it asks of the caller.
pub open spec fn key_dispatched(pre: Editor, post: Editor, key: Key, r: KeyAction) -> bool {
    if !pre.has_active() {
        &&& r == KeyAction::Nothing
        &&& post == pre
    } else {
        let b = pre.active();
        match b.buffer_type {
            BufferType::Empty => r == KeyAction::Nothing && post == pre,
            BufferType::Directory => match b.mode {
                Mode::Command => command_key_rel(pre, post, key, r),
                Mode::Normal => match key {
                    Key::Enter => {
                        &&& Editor::others_same(pre, post)
                        &&& post.command == pre.command
                        &&& post.message == pre.message
                        &&& post.should_quit == pre.should_quit
                        &&& post.size == pre.size
                        &&& ({
                            let b1 = post.active();
                            &&& b1.lines == b.lines
                            &&& b1.buffer_type == b.buffer_type
                            &&& b1.cursor.current.0 == 0
                            &&& b1.cursor.current.1 == 0
                            &&& b1.ptr_y == 0
                            &&& b1.mode == Mode::Normal
                        })
                        &&& match r {
                            KeyAction::OpenHover(name) => name@ == hover_line(b),
                            _ => false,
                        }
                    },
                    Key::Ctrl(c) => post == pre && r == (if c == 'c' {
                        KeyAction::ClearMotion
                    } else {
                        KeyAction::SendMotion(c)
                    }),
                    Key::Char(c) => post == pre && r == KeyAction::SendMotion(c),
                    _ => post == pre && r == KeyAction::Nothing,
                },
                _ => post == pre && r == KeyAction::Nothing,
            },
            BufferType::File => match b.mode {
                Mode::Insert => r == KeyAction::Nothing && inserted_key(pre, post, key),
                Mode::Command => command_key_rel(pre, post, key, r),
                Mode::Normal => match key {
                    Key::Ctrl(c) => post == pre && r == (if c == 's' {
                        KeyAction::Save
                    } else if c == 'c' {
                        KeyAction::ClearMotion
                    } else {
                        KeyAction::SendMotion(c)
                    }),
                    Key::Char(c) => post == pre && r == KeyAction::SendMotion(c),
                    _ => post == pre && r == KeyAction::Nothing,
                },
                Mode::Visual { .. } => post == pre && r == KeyAction::Nothing,
            },
        }
    }
}

impl Editor {
    /// Dispatches one key by the active buffer's kind (see `key_dispatched`):
    /// in Normal mode printable keys are forwarded to the motion parser,
    /// Ctrl-C cancels a pending motion, Ctrl-S asks for a save, and Enter on
    /// a directory listing asks the caller to open the hovered entry.
    pub fn key_press(&mut self, key: Key) -> (r: KeyAction)
        requires
            old(self).wf(),
        ensures
            final (self).wf(),
            key_dispatched(*old(self), *final (self), key, r),
    {
        if self.buffers.len() == 0 {
            return KeyAction::Nothing;
        }
        let bt = self.buffers[self.buf_ptr].buffer_type;
        match bt {
            BufferType::Directory => self.directory_key_press(key),
            BufferType::File => self.file_key_press(key),
            BufferType::Empty => KeyAction::Nothing,
        }
    }

    /// Key handling on a directory listing.
    fn directory_key_press(&mut self, key: Key) -> (r: KeyAction)
        requires
            old(self).wf(),
            old(self).has_active(),
            old(self).active().buffer_type == BufferType::Directory,
        ensures
            final (self).wf(),
            key_dispatched(*old(self), *final (self), key, r),
    {
        let md = self.buffers[self.buf_ptr].mode;
        match md {
            Mode::Command => self.command_line_key(key),
            Mode::Normal => {
                match key {
                    Key::Enter => {
                        let ghost pre = self.buffers@;
                        let mut b = self.take_active();
                        let file_name = b.get_hover_file();
                        self.put_active(b);
                        proof {
                            lemma_update_active(pre, self.buf_ptr as int, b);
                        }
                        KeyAction::OpenHover(file_name)
                    },
                    Key::Ctrl(c) => {
                        if c == 'c' {
                            KeyAction::ClearMotion
                        } else {
                            KeyAction::SendMotion(c)
                        }
                    },
                    Key::Char(c) => KeyAction::SendMotion(c),
                    _ => KeyAction::Nothing,
                }
            },
            _ => KeyAction::Nothing,
        }
    }

    /// Key handling on a file buffer.
    fn file_key_press(&mut self, key: Key) -> (r: KeyAction)
        requires
            old(self).wf(),
            old(self).has_active(),
            old(self).active().buffer_type == BufferType::File,
        ensures
            final (self).wf(),
            key_dispatched(*old(self), *final (self), key, r),
    {
        let md = self.buffers[self.buf_ptr].mode;
        match md {
            Mode::Insert => {
                self.insert_key(key);
                KeyAction::Nothing
            },
            Mode::Command => self.command_line_key(key),
            Mode::Normal => {
                match key {
                    Key::Ctrl(c) => {
                        if c == 's' {
                            KeyAction::Save
                        } else if c == 'c' {
                            KeyAction::ClearMotion
                        } else {
                            KeyAction::SendMotion(c)
                        }
                    },
                    Key::Char(c) => KeyAction::SendMotion(c),
                    _ => KeyAction::Nothing,
                }
            },
            Mode::Visual { .. } => KeyAction::Nothing,
        }
    }

    /// Loads what was found at a path into the active buffer, replacing its
    /// content in place (used to follow a directory-listing entry).
    pub fn open_path(&mut self, path: &String, content: PathContent)
        requires
            old(self).wf(),
        ensures
            final (self).wf(),
            Editor::others_same(*old(self), *final (self)),
            final (self).command == old(self).command,
            final (self).message == old(self).message,
            final (self).should_quit == old(self).should_quit,
            final (self).size == old(self).size,
            !old(self).has_active() ==> final (self).buffers@ == old(self).buffers@,
            old(self).has_active() ==> opened_with(final (self).active(), path@, content),
    {
        if self.buf_ptr < self.buffers.len() {
            let ghost pre = self.buffers@;
            let mut b = self.take_active();
            b.open_with(path, content);
            self.put_active(b);
            proof {
                lemma_update_active(pre, self.buf_ptr as int, b);
            }
        }
    }

    /// Opens a new buffer on what was found at a path and makes it active.
    pub fn new_buffer(&mut self, path: &String, content: PathContent)
        requires
            old(self).wf(),
        ensures
            final (self).wf(),
            final (self).buffers.len() == old(self).buffers.len() + 1,
            forall|i: int|
                0 <= i < old(self).buffers.len() ==> final (self).buffers@[i] == old(
                    self,
                ).buffers@[i],
            final (self).buf_ptr == ((old(self).buf_ptr + 1) % (final (
            self).buffers.len() as int)),
            final (self).command == old(self).command,
            final (self).should_quit == old(self).should_quit,
            final (self).size == old(self).size,
            opened_with(final (self).buffers@.last(), path@, content),
            final (self).buffers@.last().size == old(self).size,
    {
        let mut b = Buffer::new(self.size);
        b.open_with(path, content);
        self.buffers.push(b);
        self.next_buf();
    }

    /// Records a new window size on the editor and every buffer.
    pub fn resize(&mut self, new_size: (u16, u16))
        requires
            old(self).wf(),
        ensures
            final (self).wf(),
            final (self).size == new_size,
            final (self).buf_ptr == old(self).buf_ptr,
            final (self).command == old(self).command,
            final (self).message == old(self).message,
            final (self).should_quit == old(self).should_quit,
            final (self).buffers.len() == old(self).buffers.len(),
            forall|i: int|
                0 <= i < old(self).buffers.len() ==> resized(
                    old(self).buffers@[i],
                    #[trigger] final (self).buffers@[i],
                    new_size,
                ),
    {
        self.size = new_size;
        let mut i: usize = 0;
        while i < self.buffers.len()
            invariant
                i <= self.buffers.len(),
                self.buffers.len() == old(self).buffers.len(),
                self.buf_ptr == old(self).buf_ptr,
                self.command == old(self).command,
                self.message == old(self).message,
                self.should_quit == old(self).should_quit,
                self.size == new_size,
                forall|j: int|
                    0 <= j < i ==> resized(
                        old(self).buffers@[j],
                        #[trigger] self.buffers@[j],
                        new_size,
                    ),
                forall|j: int|
                    i <= j < self.buffers.len() ==> self.buffers@[j] == old(self).buffers@[j],
            decreases self.buffers.len() - i,
        {
            let ghost pre = self.buffers@;
            let mut b = self.buffers.remove(i);
            b.resize(new_size);
            self.buffers.insert(i, b);
            proof {
                assert(self.buffers@ =~= pre.update(i as int, b));
            }
            i += 1;
        }
    }
}

/// A buffer whose recorded size was replaced and nothing else.
pub open spec fn resized(pre: Buffer, post: Buffer, new_size: (u16, u16)) -> bool {
    &&& post.size == new_size
    &&& post.lines == pre.lines
    &&& post.cursor == pre.cursor
    &&& post.mode == pre.mode
    &&& post.buffer_type == pre.buffer_type
    &&& post.ptr_y == pre.ptr_y
    &&& post.ptr_x == pre.ptr_x
    &&& post.file == pre.file
    &&& post.parent_dir == pre.parent_dir
    &&& post.wf() == pre.wf()
}

/// A buffer freshly loaded from what was found at a path (see
/// `Buffer::open_with`): cursor, viewport and mode reset, content as found.
pub open spec fn opened_with(b: Buffer, path: Seq<char>, content: PathContent) -> bool {
    &&& b.wf()
    &&& b.cursor.current.0 == 0
    &&& b.cursor.current.1 == 0
    &&& b.cursor.possible.0 == 0
    &&& b.cursor.possible.1 == 0
    &&& b.ptr_y == 0
    &&& b.ptr_x == 0
    &&& b.mode == Mode::Normal
    &&& match content {
        PathContent::Missing => {
            &&& b.buffer_type == BufferType::Empty
            &&& b.text() == Seq::<char>::empty()
            &&& b.file is None
        },
        PathContent::FileText(t) => {
            &&& b.buffer_type == BufferType::File
            &&& b.text() == t@
            &&& (b.file matches Some(f) && f@ == path)
        },
        PathContent::DirEntries(es) => {
            &&& b.buffer_type == BufferType::Directory
            &&& b.text() == crate::buffer::dir_listing_text(es.deep_view())
            &&& b.file is None
            &&& (b.parent_dir matches Some(d) && d@ == path)
        },
    }
}

/// The display text of a token sequence: all tokens run together.
pub fn make_motion_string(input: &Vec<String>) -> (s: String)
    ensures
        s@ == StateMachine::concat_tokens(input.deep_view()),
{
    let mut s = String::new();
    let mut i: usize = 0;
    proof {
        assert(s@ =~= StateMachine::concat_tokens(input.deep_view().take(0)));
    }
    while i < input.len()
        invariant
            i <= input.len(),
            s@ == StateMachine::concat_tokens(input.deep_view().take(i as int)),
        decreases input.len() - i,
    {
        s.append(input[i].as_str());
        i += 1;
        proof {
            assert(input.deep_view().take(i as int).drop_last() =~= input.deep_view().take(i - 1));
            assert(input.deep_view().take(i as int).last() == input.deep_view()[i - 1]);
        }
    }
    proof {
        assert(input.deep_view().take(input@.len() as int) =~= input.deep_view());
    }
    s
}

/// One dispatch step, as `motion_func` leaves the editor: a token of more
/// than one character names no motion; `:` without a buffer still clears the
/// message and the command line; anything else acts on the active buffer.
pub open spec fn motion_step(pre: Editor, post: Editor, key: Seq<char>) -> bool {
    &&& post.wf()
    &&& post.size == pre.size
    &&& post.should_quit == pre.should_quit
    &&& if key.len() != 1 {
        post == pre
    } else if !pre.has_active() {
        if key[0] == ':' {
            &&& post.buffers@ == pre.buffers@
            &&& post.buf_ptr == pre.buf_ptr
            &&& post.message is None
            &&& post.command.text@ == Seq::<char>::empty()
            &&& post.command.history == pre.command.history
        } else {
            post == pre
        }
    } else {
        motion_applied(pre, post, key[0])
    }
}

/// The repeat loop: `n` dispatch steps of the same key, stopping early as
/// soon as a step leaves the active buffer in a mode other than Normal.
pub open spec fn motions_repeated(pre: Editor, post: Editor, key: Seq<char>, n: int) -> bool
    decreases n,
{
    if n <= 0 {
        post == pre
    } else {
        exists|mid: Editor|
            {
                &&& #[trigger] motion_step(pre, mid, key)
                &&& if n == 1 || !mid.has_active() || mid.active().mode != Mode::Normal {
                    post == mid
                } else {
                    motions_repeated(mid, post, key, n - 1)
                }
            }
    }
}

/// `a * b`, saturating at the largest machine value.
pub open spec fn sat_mul(a: int, b: int) -> int {
    if a * b > usize::MAX as int {
        usize::MAX as int
    } else {
        a * b
    }
}

/// The repeat count of a token sequence: the saturating product of the
/// numeric tokens before the terminal one, starting from `acc`.
pub open spec fn count_from(toks: Seq<Seq<char>>, i: int, acc: int) -> int
    decreases toks.len() - i,
{
    if i < 0 || i >= toks.len() - 1 {
        acc
    } else if crate::command::all_digits(toks[i]) && crate::command::digits_value(toks[i])
        <= usize::MAX as int {
        count_from(toks, i + 1, sat_mul(acc, crate::command::digits_value(toks[i])))
    } else {
        count_from(toks, i + 1, acc)
    }
}

impl Editor {
    /// Runs one motion key, then the (behaviorless) operator, repeatedly;
    /// stops early when a step leaves Normal mode.
    fn apply_repeated(&mut self, m: &String, f: &String, n: usize)
        requires
            old(self).wf(),
        ensures
            final (self).wf(),
            motions_repeated(*old(self), *final (self), m@, n as int),
        decreases n,
    {
        if n == 0 {
            return ;
        }
        self.motion_func(m);
        let args = String::new();
        self.action_func(f, &args);
        let ghost mid = *self;
        let cont: bool = if self.buf_ptr < self.buffers.len() {
            matches!(self.buffers[self.buf_ptr].mode, Mode::Normal)
        } else {
            false
        };
        if n == 1 || !cont {
            proof {
                assert(motion_step(*old(self), mid, m@));
            }
            return ;
        }
        self.apply_repeated(m, f, n - 1);
        proof {
            assert(motion_step(*old(self), mid, m@));
        }
    }

    /// Consumes one completed token sequence: a single token is run as a
    /// motion at once; otherwise the numeric tokens multiply into a repeat
    /// count (saturating) and the terminal token is run that many times,
    /// stopping early when a step leaves Normal mode.
    pub fn parse(&mut self, motion: Vec<String>) -> (r: Result<u32, &'static str>)
        requires
            old(self).wf(),
            motion@.len() > 0,
        ensures
            final (self).wf(),
            r is Ok,
            motion@.len() == 1 ==> motion_step(*old(self), *final (self), motion.deep_view()[0]),
            motion@.len() > 1 ==> motions_repeated(
                *old(self),
                *final (self),
                motion.deep_view().last(),
                count_from(motion.deep_view(), 0, 1),
            ),
    {
        if motion.len() == 1 {
            self.motion_func(&motion[0]);
            return Ok(0);
        }
        let mut number: usize = 1;
        let mut m = String::new();
        let mut f = String::new();
        let mut i: usize = 0;
        while i < motion.len()
            invariant
                old(self).wf(),
                *self == *old(self),
                i <= motion@.len(),
                motion@.len() > 1,
                count_from(motion.deep_view(), 0, 1) == count_from(
                    motion.deep_view(),
                    i as int,
                    number as int,
                ),
                i as int >= motion@.len() ==> m@ == motion.deep_view().last(),
            decreases motion@.len() - i,
        {
            if i == motion.len() - 1 {
                m = motion[i].clone();
            } else {
                match crate::command::parse_usize(motion[i].as_str()) {
                    Some(v) => {
                        let stepped = match number.checked_mul(v) {
                            Some(x) => x,
                            None => usize::MAX,
                        };
                        proof {
                            assert(stepped as int == sat_mul(number as int, v as int));
                        }
                        number = stepped;
                    },
                    None => {
                        f = motion[i].clone();
                    },
                }
            }
            i += 1;
        }
        self.apply_repeated(&m, &f, number);
        Ok(0)
    }
}

} // verus!
