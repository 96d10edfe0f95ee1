//! Word-boundary classification: characters fall into one of three classes
//! (space, punctuation, other), and word motions are located by scanning a
//! text for class transitions (forward) or for the start of the enclosing
//! run of non-space characters (backward).

use vstd::prelude::*;
use vstd::string::StrSliceExecFns;

verus! {

/// The three character classes used by word motions.
#[derive(PartialEq, Eq, Clone, Copy, Debug, Structural)]
pub enum CharKind {
    Space,
    Punct,
    Other,
}

/// Whitespace, per Unicode's White_Space property.
pub open spec fn is_space_char(c: char) -> bool {
    let u = c as u32;
    ||| (9 <= u && u <= 13)
    ||| u == 32
    ||| u == 0x85
    ||| u == 0xA0
    ||| u == 0x1680
    ||| (0x2000 <= u && u <= 0x200A)
    ||| u == 0x2028
    ||| u == 0x2029
    ||| u == 0x202F
    ||| u == 0x205F
    ||| u == 0x3000
}

/// ASCII punctuation: `!../`, `:..@`, `[..`` ` ``, `{..~`.
pub open spec fn is_punct_char(c: char) -> bool {
    let u = c as u32;
    ||| (33 <= u && u <= 47)
    ||| (58 <= u && u <= 64)
    ||| (91 <= u && u <= 96)
    ||| (123 <= u && u <= 126)
}

/// The class of a character: space wins over punctuation, the rest is Other.
pub open spec fn kind_of(c: char) -> CharKind {
    if is_space_char(c) {
        CharKind::Space
    } else if is_punct_char(c) {
        CharKind::Punct
    } else {
        CharKind::Other
    }
}

impl CharKind {
    /// Classifies one character.
    pub fn new(c: char) -> (k: CharKind)
        ensures
            k == kind_of(c),
    {
        let u = c as u32;
        if (9 <= u && u <= 13) || u == 32 || u == 0x85 || u == 0xA0 || u == 0x1680 || (0x2000 <= u
            && u <= 0x200A) || u == 0x2028 || u == 0x2029 || u == 0x202F || u == 0x205F || u
            == 0x3000 {
            CharKind::Space
        } else if (33 <= u && u <= 47) || (58 <= u && u <= 64) || (91 <= u && u <= 96) || (123 <= u
            && u <= 126) {
            CharKind::Punct
        } else {
            CharKind::Other
        }
    }
}

/// Position `i` starts a word: its class differs from the class before it
/// and is not space.
pub open spec fn word_start_at(s: Seq<char>, i: int) -> bool {
    &&& kind_of(s[i]) != CharKind::Space
    &&& kind_of(s[i]) != kind_of(s[i - 1])
}

/// Position `i` ends a word: it is not space and the class changes at `i + 1`.
pub open spec fn word_end_at(s: Seq<char>, i: int) -> bool {
    &&& kind_of(s[i]) != CharKind::Space
    &&& kind_of(s[i + 1]) != kind_of(s[i])
}

/// Every character in `[a, b)` is space.
pub open spec fn all_space_range(s: Seq<char>, a: int, b: int) -> bool {
    forall|t: int| a <= t < b ==> is_space_char(s[t])
}

/// The first position after `start_col` where a word starts, scanning forward.
#[verifier::loop_isolation(false)]
pub fn find_word_start_forward(line: &String, start_col: usize) -> (r: Option<usize>)
    ensures
        match r {
            Some(col) => {
                &&& start_col < col < line@.len()
                &&& word_start_at(line@, col as int)
                &&& forall|j: int| start_col < j < col ==> !word_start_at(line@, j)
            },
            None => forall|j: int| start_col < j < line@.len() ==> !word_start_at(line@, j),
        },
{
    let s = line.as_str();
    let n = s.unicode_len();
    if start_col >= n {
        return None;
    }
    let mut col: usize = start_col + 1;
    while col < n
        invariant
            start_col < col <= n,
            n == line@.len(),
            s@ == line@,
            forall|j: int| start_col < j < col ==> !word_start_at(line@, j),
        decreases n - col,
    {
        let prev = CharKind::new(s.get_char(col - 1));
        let cur = CharKind::new(s.get_char(col));
        if cur != CharKind::Space && prev != cur {
            return Some(col);
        }
        col += 1;
    }
    None
}

/// The first position after `start_col` where a word ends, scanning forward.
#[verifier::loop_isolation(false)]
pub fn find_word_end_forward(line: &String, start_col: usize) -> (r: Option<usize>)
    ensures
        match r {
            Some(col) => {
                &&& start_col < col
                &&& col + 1 < line@.len()
                &&& word_end_at(line@, col as int)
                &&& forall|j: int| start_col < j < col ==> !word_end_at(line@, j)
            },
            None => forall|j: int| start_col < j && j + 1 < line@.len() ==> !word_end_at(
                line@,
                j,
            ),
        },
{
    let s = line.as_str();
    let n = s.unicode_len();
    if n == 0 || start_col >= n - 1 {
        return None;
    }
    let mut col: usize = start_col + 1;
    while col < n - 1
        invariant
            start_col < col <= n,
            forall|j: int| start_col < j < col ==> !word_end_at(line@, j),
        decreases n - col,
    {
        let cur = CharKind::new(s.get_char(col));
        let next = CharKind::new(s.get_char(col + 1));
        if cur != CharKind::Space && next != cur {
            return Some(col);
        }
        col += 1;
    }
    None
}

/// The last non-space position strictly before `fc`, if any.
#[verifier::loop_isolation(false)]
fn last_nonspace_before(s: &str, fc: usize) -> (r: Option<usize>)
    requires
        fc <= s@.len(),
    ensures
        match r {
            Some(j) => {
                &&& j < fc
                &&& !is_space_char(s@[j as int])
                &&& all_space_range(s@, j + 1, fc as int)
            },
            None => all_space_range(s@, 0, fc as int),
        },
{
    let mut j: usize = fc;
    while j > 0
        invariant
            j <= fc,
            all_space_range(s@, j as int, fc as int),
        decreases j,
    {
        if CharKind::new(s.get_char(j - 1)) != CharKind::Space {
            return Some(j - 1);
        }
        j -= 1;
    }
    None
}

/// The start of the run of non-space characters containing position `j`.
#[verifier::loop_isolation(false)]
fn run_start(s: &str, j: usize) -> (p: usize)
    requires
        j < s@.len(),
        !is_space_char(s@[j as int]),
    ensures
        p <= j,
        forall|t: int| p <= t <= j ==> !is_space_char(s@[t]),
        p == 0 || is_space_char(s@[p - 1]),
{
    let mut p: usize = j;
    while p > 0
        invariant
            p <= j,
            forall|t: int| p <= t <= j ==> !is_space_char(s@[t]),
        decreases p,
    {
        if CharKind::new(s.get_char(p - 1)) == CharKind::Space {
            return p;
        }
        p -= 1;
    }
    p
}

/// The start of the run of non-space characters nearest before `start_col`,
/// scanning backward. Positions at or past `start_col` are not examined.
pub fn find_word_start_backward(line: &String, start_col: usize) -> (r: Option<usize>)
    ensures
        ({
            let fc = if start_col <= line@.len() {
                start_col as int
            } else {
                line@.len() as int
            };
            match r {
                Some(p) => {
                    &&& 0 <= p < fc
                    &&& !is_space_char(line@[p as int])
                    &&& (p == 0 || is_space_char(line@[p - 1]))
                    &&& forall|t1: int, t2: int|
                        #![trigger line@[t1], line@[t2]]
                        p <= t1 <= t2 < fc && is_space_char(line@[t1]) ==> is_space_char(
                            line@[t2],
                        )
                },
                None => all_space_range(line@, 0, fc),
            }
        }),
{
    let s = line.as_str();
    let n = s.unicode_len();
    let fc = if start_col < n {
        start_col
    } else {
        n
    };
    match last_nonspace_before(s, fc) {
        None => None,
        Some(j) => {
            let p = run_start(s, j);
            Some(p)
        },
    }
}

/// The first position at or after `start_col` holding `target`.
#[verifier::loop_isolation(false)]
pub fn find_next_occur_forward(line: &String, start_col: usize, target: char) -> (r: Option<usize>)
    ensures
        match r {
            Some(col) => {
                &&& start_col <= col < line@.len()
                &&& line@[col as int] == target
                &&& forall|j: int| start_col <= j < col ==> line@[j] != target
            },
            None => forall|j: int| start_col <= j < line@.len() ==> line@[j] != target,
        },
{
    let s = line.as_str();
    let n = s.unicode_len();
    let mut col: usize = start_col;
    while col < n
        invariant
            start_col <= col,
            n == line@.len(),
            s@ == line@,
            forall|j: int| start_col <= j < col ==> line@[j] != target,
        decreases n - col,
    {
        if s.get_char(col) == target {
            return Some(col);
        }
        col += 1;
    }
    None
}

/// Scans backward from `start_col` and returns how far back the nearest
/// occurrence of `target` lies: `Some(d)` names the character at
/// `start_col - 1 - d` (with `start_col` first clamped to the text length).
#[verifier::loop_isolation(false)]
pub fn find_next_occur_backward(line: &String, start_col: usize, target: char) -> (r: Option<
    usize,
>)
    ensures
        ({
            let fc = if start_col <= line@.len() {
                start_col as int
            } else {
                line@.len() as int
            };
            match r {
                Some(d) => {
                    &&& 0 <= d < fc
                    &&& line@[fc - 1 - d] == target
                    &&& forall|t: int| fc - 1 - d < t < fc ==> line@[t] != target
                },
                None => forall|t: int| 0 <= t < fc ==> line@[t] != target,
            }
        }),
{
    let s = line.as_str();
    let n = s.unicode_len();
    let fc = if start_col < n {
        start_col
    } else {
        n
    };
    let mut t: usize = fc;
    while t > 0
        invariant
            t <= fc <= n,
            n == line@.len(),
            s@ == line@,
            forall|u: int| t <= u < fc ==> line@[u] != target,
        decreases t,
    {
        if s.get_char(t - 1) == target {
            return Some(fc - t);
        }
        t -= 1;
    }
    None
}

} // verus!
