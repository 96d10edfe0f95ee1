//! Laws the library states about itself: cursor saturation under repeated
//! right-moves, the open/save round trip, and the line structure of a
//! synthesized directory listing.

use crate::buffer::{
    bound_for_mode, dir_entries_text, dir_listing_text, Buffer, PathContent,
};
use crate::editor::{moved_right, opened_with};
use crate::text::{
    addressable_lines, lemma_newline_count_last, lemma_newline_count_nonneg,
    lemma_newline_count_split, line_count, line_excl_len, line_start, newline_count,
};
use vstd::prelude::*;

verus! {

/// Repeated right-moves saturate: one `move_right` never carries the cursor
/// past the mode's bound for its line, so however many follow, a Normal-mode
/// cursor stays at or before the last character and an Insert-mode cursor at
/// or before the append position.
pub proof fn lemma_move_right_saturates(pre: Buffer, post: Buffer)
    requires
        moved_right(pre, post),
    ensures
        post.cursor.current.0 <= bound_for_mode(pre.mode, pre.text(), pre.abs_line()),
{
}

/// Opening a file's text and saving the unmodified buffer reproduces the
/// text exactly: the buffer loaded from `t` holds `t`, and what `save`
/// yields of such a buffer is its text.
pub proof fn lemma_open_save_round_trip(b: Buffer, path: Seq<char>, t: String, saved: Seq<char>)
    requires
        opened_with(b, path, PathContent::FileText(t)),
        saved == b.text(),
    ensures
        saved == t@,
{
}

/// Line breaks add up over concatenation.
proof fn lemma_newline_count_concat(a: Seq<char>, b: Seq<char>)
    ensures
        newline_count(a + b) == newline_count(a) + newline_count(b),
{
    lemma_newline_count_split(a + b, a.len() as int);
    assert((a + b).take(a.len() as int) =~= a);
    assert((a + b).skip(a.len() as int) =~= b);
}

/// A line start within a prefix is unmoved by what follows.
proof fn lemma_line_start_prefix(s: Seq<char>, u: Seq<char>, k: int)
    requires
        0 <= k <= newline_count(s),
    ensures
        line_start(s + u, k) == line_start(s, k),
    decreases s.len(),
{
    if k == 0 {
    } else {
        lemma_newline_count_nonneg(s.skip(1));
        assert(s.len() > 0);
        assert((s + u)[0] == s[0]);
        assert((s + u).skip(1) =~= s.skip(1) + u);
        if s[0] == '\n' {
            lemma_line_start_prefix(s.skip(1), u, k - 1);
        } else {
            lemma_line_start_prefix(s.skip(1), u, k);
        }
    }
}

/// Past a prefix that ends in a line break, line starts continue in the
/// suffix, shifted by the prefix's length.
proof fn lemma_line_start_concat(s: Seq<char>, u: Seq<char>, j: int)
    requires
        s.len() > 0,
        s.last() == '\n',
        0 <= j,
    ensures
        line_start(s + u, newline_count(s) + j) == s.len() + line_start(u, j),
    decreases s.len(),
{
    lemma_newline_count_last(s);
    lemma_newline_count_nonneg(s.take(s.len() - 1));
    assert((s + u)[0] == s[0]);
    assert((s + u).skip(1) =~= s.skip(1) + u);
    if s.len() == 1 {
        assert(s[0] == '\n');
        assert(s.skip(1) + u =~= u);
        assert(newline_count(s) == 1);
    } else {
        assert(s.skip(1).len() > 0);
        assert(s.skip(1).last() == s.last());
        lemma_line_start_concat(s.skip(1), u, j);
        lemma_newline_count_last(s.skip(1));
        lemma_newline_count_nonneg(s.skip(1).take(s.skip(1).len() - 1));
    }
}

/// A text free of line breaks has none.
proof fn lemma_no_newlines(t: Seq<char>)
    requires
        forall|i: int| 0 <= i < t.len() ==> t[i] != '\n',
    ensures
        newline_count(t) == 0,
    decreases t.len(),
{
    if t.len() > 0 {
        lemma_no_newlines(t.skip(1));
    }
}

/// The character positions taken by the first `i` entries of a listing:
/// each entry's characters plus its line break.
pub open spec fn entries_prefix_len(es: Seq<Seq<char>>, i: int) -> int
    decreases i,
{
    if i <= 0 {
        0
    } else {
        entries_prefix_len(es, i - 1) + es[i - 1].len() + 1
    }
}

/// No entry holds a line break.
pub open spec fn entries_wf(es: Seq<Seq<char>>) -> bool {
    forall|i: int, j: int|
        #![trigger es[i][j]]
        0 <= i < es.len() && 0 <= j < es[i].len() ==> es[i][j] != '\n'
}

/// Prefix lengths do not depend on entries at or past the cut.
proof fn lemma_prefix_len_same(es1: Seq<Seq<char>>, es2: Seq<Seq<char>>, i: int)
    requires
        0 <= i <= es1.len(),
        i <= es2.len(),
        forall|j: int| 0 <= j < i ==> es1[j] == es2[j],
    ensures
        entries_prefix_len(es1, i) == entries_prefix_len(es2, i),
    decreases i,
{
    if i > 0 {
        lemma_prefix_len_same(es1, es2, i - 1);
    }
}

/// The shape of the entry block of a directory listing: one line per entry,
/// in order, each line holding exactly that entry.
#[verifier::rlimit(100)]
proof fn lemma_entries_lines(es: Seq<Seq<char>>)
    requires
        entries_wf(es),
    ensures
        dir_entries_text(es).len() == entries_prefix_len(es, es.len() as int),
        newline_count(dir_entries_text(es)) == es.len(),
        forall|i: int|
            0 <= i <= es.len() ==> line_start(dir_entries_text(es), i)
                == #[trigger] entries_prefix_len(es, i),
        forall|i: int|
            0 <= i < es.len() ==> dir_entries_text(es).subrange(
                entries_prefix_len(es, i),
                entries_prefix_len(es, i) + (#[trigger] es[i]).len(),
            ) == es[i],
        forall|i: int|
            0 <= i < es.len() ==> dir_entries_text(es)[entries_prefix_len(es, i)
                + (#[trigger] es[i]).len()] == '\n',
    decreases es.len(),
{
    let e_all = dir_entries_text(es);
    if es.len() == 0 {
        assert(line_start(e_all, 0) == 0);
    } else {
        let es0 = es.drop_last();
        let e = es.last();
        let e0 = dir_entries_text(es0);
        let tail = e.push('\n');
        assert(e_all == e0 + tail);
        assert(entries_wf(es0)) by {
            assert forall|i: int, j: int|
                #![trigger es0[i][j]]
                0 <= i < es0.len() && 0 <= j < es0[i].len() implies es0[i][j] != '\n' by {
                assert(es0[i] == es[i]);
                assert(es[i][j] != '\n');
            }
        }
        lemma_entries_lines(es0);
        // the new entry holds no break, its terminator is one
        assert(forall|j: int| 0 <= j < e.len() ==> #[trigger] e[j] != '\n');
        assert(tail.take(e.len() as int) =~= e);
        lemma_no_newlines(e);
        lemma_newline_count_last(tail);
        assert(newline_count(tail) == 1);
        lemma_newline_count_concat(e0, tail);
        // prefix lengths agree between es and its front
        assert(forall|i: int|
            0 <= i <= es0.len() ==> entries_prefix_len(es, i) == #[trigger] entries_prefix_len(
                es0,
                i,
            )) by {
            assert forall|i: int| 0 <= i <= es0.len() implies entries_prefix_len(es, i)
                == #[trigger] entries_prefix_len(es0, i) by {
                lemma_prefix_len_same(es, es0, i);
            }
        }
        assert(e_all.len() == entries_prefix_len(es, es.len() as int));
        // line starts within the old block are unmoved
        assert forall|i: int| 0 <= i <= es0.len() implies line_start(e_all, i)
            == #[trigger] entries_prefix_len(es, i) by {
            lemma_line_start_prefix(e0, tail, i);
            lemma_prefix_len_same(es, es0, i);
            assert(line_start(e0, i) == entries_prefix_len(es0, i));
        }
        // the one-past-the-end line start of the whole block
        if es0.len() == 0 {
            assert(e0 =~= Seq::<char>::empty());
            assert(e0 + tail =~= tail);
            assert(line_start(e_all, es.len() as int) == line_start(tail, 1));
            lemma_line_start_concat(tail, Seq::empty(), 0);
            assert(tail + Seq::<char>::empty() =~= tail);
        } else {
            assert(e0.len() > 0);
            assert(e0.last() == '\n') by {
                let es00 = es0.drop_last();
                assert(e0 == dir_entries_text(es00) + es0.last().push('\n'));
                assert(e0.last() == es0.last().push('\n').last());
            }
            lemma_line_start_concat(e0, tail, 1);
            lemma_line_start_concat(tail, Seq::empty(), 0);
            assert(tail + Seq::<char>::empty() =~= tail);
            assert(line_start(tail, 1) == tail.len());
        }
        // contents of the old lines are unmoved
        assert forall|i: int| 0 <= i < es0.len() implies e_all.subrange(
            entries_prefix_len(es, i),
            entries_prefix_len(es, i) + (#[trigger] es[i]).len(),
        ) == es[i] && e_all[entries_prefix_len(es, i) + es[i].len()] == '\n' by {
            assert(es[i] == es0[i]);
            lemma_prefix_len_same(es, es0, i);
            lemma_prefix_len_mono_nonneg(es0, i);
            assert(entries_prefix_len(es0, i) + es0[i].len() + 1 == entries_prefix_len(
                es0,
                i + 1,
            ));
            assert(entries_prefix_len(es0, i + 1) <= e0.len()) by {
                lemma_prefix_len_mono(es0, i + 1, es0.len() as int);
            }
            assert(e_all =~= e0 + tail);
            assert(e_all.subrange(
                entries_prefix_len(es, i),
                entries_prefix_len(es, i) + es[i].len(),
            ) =~= e0.subrange(entries_prefix_len(es0, i), entries_prefix_len(es0, i) + es0[i].len()));
            assert(e_all[entries_prefix_len(es, i) + es[i].len()] == e0[entries_prefix_len(es0, i)
                + es0[i].len()]);
        }
        // the new last line holds exactly the new entry
        assert(entries_prefix_len(es, es0.len() as int) == e0.len());
        assert(e_all.subrange(e0.len() as int, e0.len() as int + e.len() as int) =~= e);
        assert(e_all[e0.len() as int + e.len() as int] == tail[e.len() as int]);
        assert(tail[e.len() as int] == '\n');
    }
}

/// Prefix lengths grow with the cut.
proof fn lemma_prefix_len_mono(es: Seq<Seq<char>>, i: int, j: int)
    requires
        0 <= i <= j,
    ensures
        entries_prefix_len(es, i) <= entries_prefix_len(es, j),
    decreases j - i,
{
    if i < j {
        lemma_prefix_len_mono(es, i, j - 1);
    }
}

/// The header of every directory listing: a `.` line and a `..` line.
pub open spec fn listing_header() -> Seq<char> {
    seq!['.', '\n', '.', '.', '\n']
}

/// The line starts of the listing header.
proof fn lemma_header_lines()
    ensures
        newline_count(listing_header()) == 2,
        listing_header().last() == '\n',
        line_start(listing_header(), 0) == 0,
        line_start(listing_header(), 1) == 2,
        line_start(listing_header(), 2) == 5,
{
    let h = listing_header();
    let h1 = h.skip(1);
    let h2 = h1.skip(1);
    let h3 = h2.skip(1);
    let h4 = h3.skip(1);
    let h5 = h4.skip(1);
    assert(h1 =~= seq!['\n', '.', '.', '\n']);
    assert(h2 =~= seq!['.', '.', '\n']);
    assert(h3 =~= seq!['.', '\n']);
    assert(h4 =~= seq!['\n']);
    assert(h5 =~= Seq::<char>::empty());
    assert(newline_count(h4) == 1 + newline_count(h5));
    assert(newline_count(h3) == newline_count(h4));
    assert(newline_count(h2) == newline_count(h3));
    assert(newline_count(h1) == 1 + newline_count(h2));
    assert(newline_count(h) == newline_count(h1));
    assert(line_start(h, 1) == 1 + line_start(h1, 1));
    assert(line_start(h1, 1) == 1 + line_start(h2, 0));
    assert(line_start(h, 2) == 1 + line_start(h1, 2));
    assert(line_start(h1, 2) == 1 + line_start(h2, 1));
    assert(line_start(h2, 1) == 1 + line_start(h3, 1));
    assert(line_start(h3, 1) == 1 + line_start(h4, 1));
    assert(line_start(h4, 1) == 1 + line_start(h5, 0));
}

/// The line structure of a synthesized directory listing: it always begins
/// with the line `.` and then the line `..`, and is followed by one line per
/// entry, in order, each holding exactly that entry — so every entry appears
/// exactly once, on its own line.
#[verifier::rlimit(100)]
pub proof fn lemma_directory_listing_lines(es: Seq<Seq<char>>)
    requires
        entries_wf(es),
    ensures
        ({
            let l = dir_listing_text(es);
            &&& addressable_lines(l) == es.len() + 2
            &&& line_excl_len(l, 0) == 1
            &&& l.subrange(line_start(l, 0), line_start(l, 0) + 1) == seq!['.']
            &&& line_excl_len(l, 1) == 2
            &&& l.subrange(line_start(l, 1), line_start(l, 1) + 2) == seq!['.', '.']
            &&& forall|i: int|
                0 <= i < es.len() ==> line_excl_len(l, i + 2) == (#[trigger] es[i]).len()
                    && l.subrange(line_start(l, i + 2), line_start(l, i + 2) + es[i].len())
                    == es[i]
        }),
{
    let h = listing_header();
    let e_all = dir_entries_text(es);
    let l = dir_listing_text(es);
    assert(l == h + e_all);
    lemma_header_lines();
    lemma_entries_lines(es);
    lemma_newline_count_concat(h, e_all);
    assert(newline_count(l) == es.len() + 2);
    // the listing ends with a line break, so its last line is empty and the
    // addressable lines are exactly the header plus the entries
    if es.len() == 0 {
        assert(e_all =~= Seq::<char>::empty());
        assert(h + e_all =~= h);
        assert(l.last() == '\n');
    } else {
        assert(e_all.len() == entries_prefix_len(es, es.len() as int));
        assert(entries_prefix_len(es, es.len() as int) == entries_prefix_len(
            es,
            es.len() - 1,
        ) + es.last().len() + 1);
        lemma_prefix_len_mono_nonneg(es, es.len() as int);
        assert(e_all.len() > 0);
        assert(l.last() == e_all.last());
        assert(e_all[entries_prefix_len(es, es.len() - 1) + es[es.len() - 1].len()] == '\n');
        assert(e_all.last() == '\n');
    }
    assert(addressable_lines(l) == es.len() + 2);
    // header lines
    assert forall|k: int| 0 <= k <= 2 implies line_start(l, k) == line_start(h, k) by {
        lemma_line_start_prefix(h, e_all, k);
    }
    assert(line_start(l, 3) == h.len() + line_start(e_all, 1) || es.len() == 0) by {
        if es.len() > 0 {
            lemma_line_start_concat(h, e_all, 1);
        }
    }
    // line lengths of the header
    assert(line_count(l) == es.len() + 3);
    assert(line_excl_len(l, 0) == 1);
    assert(l.subrange(0, 1) =~= seq!['.']);
    assert(line_excl_len(l, 1) == 2);
    assert(l.subrange(2, 4) =~= seq!['.', '.']);
    // entry lines
    assert forall|i: int| 0 <= i < es.len() implies line_excl_len(l, i + 2) == (
    #[trigger] es[i]).len() && l.subrange(line_start(l, i + 2), line_start(l, i + 2) + es[i].len())
        == es[i] by {
        lemma_line_start_concat(h, e_all, i);
        lemma_line_start_concat(h, e_all, i + 1);
        assert(line_start(l, i + 2) == h.len() + entries_prefix_len(es, i));
        assert(line_start(l, i + 3) == h.len() + entries_prefix_len(es, i + 1));
        assert(entries_prefix_len(es, i + 1) == entries_prefix_len(es, i) + es[i].len() + 1);
        assert(i + 3 < line_count(l));
        assert(line_excl_len(l, i + 2) == es[i].len());
        lemma_prefix_len_mono(es, i + 1, es.len() as int);
        lemma_prefix_len_mono_nonneg(es, i);
        assert(entries_prefix_len(es, i) + es[i].len() < entries_prefix_len(es, i + 1));
        assert(e_all.len() == entries_prefix_len(es, es.len() as int));
        assert(l =~= listing_header() + e_all);
        assert(l.subrange(line_start(l, i + 2), line_start(l, i + 2) + es[i].len())
            =~= e_all.subrange(entries_prefix_len(es, i), entries_prefix_len(es, i) + es[i].len()));
    }
}

/// Prefix lengths are never negative.
proof fn lemma_prefix_len_mono_nonneg(es: Seq<Seq<char>>, i: int)
    ensures
        entries_prefix_len(es, i) >= 0,
    decreases i,
{
    if i > 0 {
        lemma_prefix_len_mono_nonneg(es, i - 1);
    }
}

} // verus!
