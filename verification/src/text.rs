//! The text store behind a buffer: a `ropey::Rope` held behind a small set of
//! trusted wrappers, plus verified line arithmetic over the rope's contents.
//! A line break is a `'\n'` character; line `k` runs from `line_start(s, k)`
//! to `line_start(s, k + 1)`, the latter one past a terminating `'\n'`.

use ropey::Rope as RopeyRope;
use vstd::prelude::*;

verus! {

#[verifier::external_type_specification]
#[verifier::external_body]
pub struct ExRope(RopeyRope);

/// The characters the rope holds, in order.
pub uninterp spec fn rope_text(r: ropey::Rope) -> Seq<char>;

/// Relies on `ropey::Rope::new`: an empty rope.
#[verifier::external_body]
pub(crate) fn rope_new() -> (r: ropey::Rope)
    ensures
        rope_text(r) == Seq::<char>::empty(),
{
    ropey::Rope::new()
}

/// Relies on `ropey::Rope::from_str`: the rope holds exactly the given text.
#[verifier::external_body]
pub(crate) fn rope_from_str(s: &str) -> (r: ropey::Rope)
    ensures
        rope_text(r) == s@,
{
    ropey::Rope::from_str(s)
}

/// Relies on `ropey::Rope::len_chars`: the total number of characters.
#[verifier::external_body]
pub(crate) fn rope_len_chars(r: &ropey::Rope) -> (n: usize)
    ensures
        n == rope_text(*r).len(),
{
    r.len_chars()
}

/// Relies on `ropey::Rope::len_lines`: one more than the number of line
/// breaks (with default features off, a line break is `'\n'` alone).
#[verifier::external_body]
pub(crate) fn rope_len_lines(r: &ropey::Rope) -> (n: usize)
    ensures
        n == line_count(rope_text(*r)),
{
    r.len_lines()
}

/// Relies on `ropey::Rope::line_to_char`: the char index where the given
/// line starts; one past the end for `line == len_lines`.
#[verifier::external_body]
pub(crate) fn rope_line_to_char(r: &ropey::Rope, line: usize) -> (n: usize)
    requires
        line <= line_count(rope_text(*r)),
    ensures
        n == line_start(rope_text(*r), line as int),
{
    r.line_to_char(line)
}

/// Relies on `ropey::Rope::char_to_line`: the index of the line holding the
/// given char; the last line for `i == len_chars`.
#[verifier::external_body]
pub(crate) fn rope_char_to_line(r: &ropey::Rope, i: usize) -> (n: usize)
    requires
        i <= rope_text(*r).len(),
    ensures
        n == char_line(rope_text(*r), i as int),
{
    r.char_to_line(i)
}

/// Relies on `ropey::Rope::char`: the character at the given index.
#[verifier::external_body]
pub(crate) fn rope_char(r: &ropey::Rope, i: usize) -> (c: char)
    requires
        i < rope_text(*r).len(),
    ensures
        c == rope_text(*r)[i as int],
{
    r.char(i)
}

/// Relies on `ropey::Rope::insert_char`: inserts one character at the given
/// char index.
#[verifier::external_body]
pub(crate) fn rope_insert_char(r: &mut ropey::Rope, i: usize, c: char)
    requires
        i <= rope_text(*old(r)).len(),
    ensures
        rope_text(*final (r)) == rope_text(*old(r)).take(i as int) + seq![c] + rope_text(
            *old(r),
        ).skip(i as int),
{
    r.insert_char(i, c)
}

/// Relies on `ropey::Rope::remove`: removes the character at the given index.
#[verifier::external_body]
pub(crate) fn rope_remove_char(r: &mut ropey::Rope, i: usize)
    requires
        i < rope_text(*old(r)).len(),
    ensures
        rope_text(*final (r)) == rope_text(*old(r)).take(i as int) + rope_text(*old(r)).skip(
            i + 1,
        ),
{
    r.remove(i..i + 1)
}

/// Relies on `ropey::Rope`'s `Display` impl: writes every chunk in order.
#[verifier::external_body]
pub(crate) fn rope_to_string(r: &ropey::Rope) -> (s: String)
    ensures
        s@ == rope_text(*r),
{
    r.to_string()
}

/// The number of `'\n'` characters in `s`.
pub open spec fn newline_count(s: Seq<char>) -> int
    decreases s.len(),
{
    if s.len() == 0 {
        0
    } else {
        (if s[0] == '\n' {
            1int
        } else {
            0int
        }) + newline_count(s.skip(1))
    }
}

/// The number of lines: one more than the number of line breaks.
pub open spec fn line_count(s: Seq<char>) -> int {
    newline_count(s) + 1
}

/// The char index where line `k` starts; `s.len()` for `k == line_count(s)`.
pub open spec fn line_start(s: Seq<char>, k: int) -> int
    decreases s.len(),
{
    if k <= 0 {
        0
    } else if s.len() == 0 {
        0
    } else if s[0] == '\n' {
        1 + line_start(s.skip(1), k - 1)
    } else {
        1 + line_start(s.skip(1), k)
    }
}

/// The index of the line holding char position `i`.
pub open spec fn char_line(s: Seq<char>, i: int) -> int {
    newline_count(s.take(i))
}

/// The number of lines the cursor can stand on: a terminating `'\n'` ends
/// the last line rather than opening a new one, and an empty text still has
/// one (empty) line.
pub open spec fn addressable_lines(s: Seq<char>) -> int {
    if s.len() == 0 {
        1
    } else if s.last() == '\n' {
        newline_count(s)
    } else {
        newline_count(s) + 1
    }
}

/// The length of line `k` including a terminating `'\n'`, if any.
pub open spec fn line_raw_len(s: Seq<char>, k: int) -> int {
    line_start(s, k + 1) - line_start(s, k)
}

/// The length of line `k` excluding its terminating `'\n'`.
pub open spec fn line_excl_len(s: Seq<char>, k: int) -> int {
    if k + 1 < line_count(s) {
        line_raw_len(s, k) - 1
    } else {
        line_raw_len(s, k)
    }
}

/// Line starts lie within the text.
pub proof fn lemma_line_start_bounds(s: Seq<char>, k: int)
    ensures
        0 <= line_start(s, k) <= s.len(),
    decreases s.len(),
{
    if k <= 0 {
    } else if s.len() == 0 {
    } else if s[0] == '\n' {
        lemma_line_start_bounds(s.skip(1), k - 1);
    } else {
        lemma_line_start_bounds(s.skip(1), k);
    }
}

/// Line starts are ordered as the lines are.
pub proof fn lemma_line_start_mono(s: Seq<char>, k1: int, k2: int)
    requires
        k1 <= k2,
    ensures
        line_start(s, k1) <= line_start(s, k2),
    decreases s.len(),
{
    lemma_line_start_bounds(s, k2);
    if k1 <= 0 {
    } else if s.len() == 0 {
    } else if s[0] == '\n' {
        lemma_line_start_mono(s.skip(1), k1 - 1, k2 - 1);
    } else {
        lemma_line_start_mono(s.skip(1), k1, k2);
    }
}

/// There are never fewer than zero line breaks.
pub proof fn lemma_newline_count_nonneg(s: Seq<char>)
    ensures
        newline_count(s) >= 0,
    decreases s.len(),
{
    if s.len() > 0 {
        lemma_newline_count_nonneg(s.skip(1));
    }
}

/// Line breaks split across any cut point.
pub proof fn lemma_newline_count_split(s: Seq<char>, i: int)
    requires
        0 <= i <= s.len(),
    ensures
        newline_count(s) == newline_count(s.take(i)) + newline_count(s.skip(i)),
    decreases i,
{
    if i == 0 {
        assert(s.take(0) =~= Seq::<char>::empty());
        assert(s.skip(0) =~= s);
    } else {
        lemma_newline_count_split(s.skip(1), i - 1);
        assert(s.take(i).skip(1) =~= s.skip(1).take(i - 1));
        assert(s.skip(i) =~= s.skip(1).skip(i - 1));
        assert(s.take(i)[0] == s[0]);
    }
}

/// Every line before the last ends with a `'\n'` and is at least one
/// character long.
pub proof fn lemma_line_end_newline(s: Seq<char>, k: int)
    requires
        0 <= k < newline_count(s),
    ensures
        line_start(s, k + 1) >= line_start(s, k) + 1,
        s[line_start(s, k + 1) - 1] == '\n',
    decreases s.len(),
{
    lemma_newline_count_nonneg(s.skip(1));
    if s.len() == 0 {
    } else if s[0] == '\n' {
        if k == 0 {
            lemma_line_start_bounds(s.skip(1), 0);
            assert(line_start(s, 1) == 1 + line_start(s.skip(1), 0));
            assert(line_start(s.skip(1), 0) == 0);
        } else {
            lemma_line_end_newline(s.skip(1), k - 1);
            lemma_line_start_bounds(s.skip(1), k);
            assert(line_start(s, k + 1) == 1 + line_start(s.skip(1), k));
            assert(s[1 + line_start(s.skip(1), k) - 1] == s.skip(1)[line_start(s.skip(1), k) - 1]);
        }
    } else {
        lemma_line_end_newline(s.skip(1), k);
        lemma_line_start_bounds(s.skip(1), k + 1);
        lemma_line_start_bounds(s.skip(1), k);
        assert(line_start(s, k + 1) == 1 + line_start(s.skip(1), k + 1));
        assert(s[1 + line_start(s.skip(1), k + 1) - 1] == s.skip(1)[line_start(s.skip(1), k + 1)
            - 1]);
    }
}

/// The line holding position `i` starts at or before `i` and, unless `i` is
/// one past the end, ends after it.
pub proof fn lemma_char_line(s: Seq<char>, i: int)
    requires
        0 <= i <= s.len(),
    ensures
        0 <= char_line(s, i) <= newline_count(s),
        line_start(s, char_line(s, i)) <= i,
        i < s.len() ==> i < line_start(s, char_line(s, i) + 1),
    decreases s.len(),
{
    lemma_newline_count_nonneg(s.take(i));
    lemma_newline_count_split(s, i);
    lemma_newline_count_nonneg(s.skip(i));
    if i == 0 {
        if s.len() > 0 {
            assert(s.take(0) =~= Seq::<char>::empty());
            lemma_line_start_bounds(s.skip(1), if s[0] == '\n' {
                0int
            } else {
                1int
            });
        }
    } else {
        lemma_char_line(s.skip(1), i - 1);
        assert(s.take(i)[0] == s[0]);
        assert(s.take(i).skip(1) =~= s.skip(1).take(i - 1));
    }
}

/// A position strictly inside the text lies on an addressable line.
pub proof fn lemma_char_line_addressable(s: Seq<char>, i: int)
    requires
        0 <= i < s.len(),
    ensures
        char_line(s, i) < addressable_lines(s),
{
    lemma_char_line(s, i);
    if s.last() == '\n' {
        lemma_newline_count_split(s, s.len() - 1);
        lemma_newline_count_last(s);
        lemma_newline_count_split(s.take(s.len() - 1), i);
        assert(s.take(s.len() - 1).take(i) =~= s.take(i));
        lemma_newline_count_nonneg(s.take(s.len() - 1).skip(i));
    }
}

/// A text ending in `'\n'` has one more line break than its front.
pub proof fn lemma_newline_count_last(s: Seq<char>)
    requires
        s.len() > 0,
        s.last() == '\n',
    ensures
        newline_count(s) == newline_count(s.take(s.len() - 1)) + 1,
{
    lemma_newline_count_split(s, s.len() - 1);
    let one = s.skip(s.len() - 1);
    assert(one.len() == 1);
    assert(one[0] == s.last());
    assert(one.skip(1) =~= Seq::<char>::empty());
    assert(newline_count(one.skip(1)) == 0);
    assert(newline_count(one) == 1);
}

/// The first line of any text starts at zero.
pub proof fn lemma_line_start_zero(s: Seq<char>)
    ensures
        line_start(s, 0) == 0,
{
}

/// The one-past-the-last line starts one past the end of the text.
pub proof fn lemma_line_start_full(s: Seq<char>)
    ensures
        line_start(s, line_count(s)) == s.len(),
    decreases s.len(),
{
    lemma_newline_count_nonneg(s);
    if s.len() > 0 {
        lemma_line_start_full(s.skip(1));
        lemma_newline_count_nonneg(s.skip(1));
    }
}

/// Addressable lines stay within the line count, and there is always one.
pub proof fn lemma_addressable_bounds(s: Seq<char>)
    ensures
        1 <= addressable_lines(s) <= line_count(s),
    decreases s.len(),
{
    lemma_newline_count_nonneg(s);
    if s.len() > 0 && s.last() == '\n' {
        lemma_newline_count_last(s);
        lemma_newline_count_nonneg(s.take(s.len() - 1));
    }
}

/// A text has no more line breaks than characters.
pub proof fn lemma_newline_count_le_len(s: Seq<char>)
    ensures
        newline_count(s) <= s.len(),
    decreases s.len(),
{
    if s.len() > 0 {
        lemma_newline_count_le_len(s.skip(1));
    }
}

/// Line lengths are never negative, with or without the terminator.
pub proof fn lemma_line_excl_nonneg(s: Seq<char>, k: int)
    requires
        0 <= k < line_count(s),
    ensures
        0 <= line_excl_len(s, k) <= line_raw_len(s, k),
{
    lemma_line_start_mono(s, k, k + 1);
    if k + 1 < line_count(s) {
        lemma_line_end_newline(s, k);
    }
}

/// A column within line `k` stays within the text.
pub proof fn lemma_col_in_line(s: Seq<char>, k: int, col: int)
    requires
        0 <= k < line_count(s),
        0 <= col <= line_excl_len(s, k),
    ensures
        line_start(s, k) + col <= line_start(s, k + 1) <= s.len(),
        line_start(s, k) >= 0,
{
    lemma_line_excl_nonneg(s, k);
    lemma_line_start_bounds(s, k);
    lemma_line_start_bounds(s, k + 1);
}

/// The length of line `k`, excluding its terminating `'\n'`.
pub(crate) fn line_len_excl(r: &ropey::Rope, k: usize) -> (n: usize)
    requires
        k < line_count(rope_text(*r)),
    ensures
        n == line_excl_len(rope_text(*r), k as int),
        n >= 0,
{
    let lines = rope_len_lines(r);
    let start = rope_line_to_char(r, k);
    let next = rope_line_to_char(r, k + 1);
    proof {
        lemma_line_start_mono(rope_text(*r), k as int, k + 1);
    }
    let raw = next - start;
    if k + 1 < lines {
        proof {
            lemma_line_end_newline(rope_text(*r), k as int);
        }
        raw - 1
    } else {
        raw
    }
}

/// The number of lines the cursor can stand on in this rope.
pub(crate) fn rope_addressable_lines(r: &ropey::Rope) -> (n: usize)
    ensures
        n == addressable_lines(rope_text(*r)),
        1 <= n <= line_count(rope_text(*r)),
{
    proof {
        lemma_addressable_bounds(rope_text(*r));
    }
    let len = rope_len_chars(r);
    if len == 0 {
        1
    } else {
        let lines = rope_len_lines(r);
        if rope_char(r, len - 1) == '\n' {
            lines - 1
        } else {
            lines
        }
    }
}

} // verus!
