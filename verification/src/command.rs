//! The `:` command line: typed text is confirmed into a command key. A bare
//! decimal number is a goto-line command; otherwise the first space-separated
//! word selects the command, and for `send` the rest of the line is the
//! payload. Unrecognized input yields no command but is still recorded in the
//! history.

use crate::statemachine::is_count_digit;
use vstd::prelude::*;
use vstd::string::StrSliceExecFns;
use vstd::string::StringExecFns;

verus! {

/// A confirmed command.
#[derive(Debug, PartialEq, Eq, Clone)]
pub enum CommandKey {
    Save,
    Quit,
    Line(usize),
    SaveAndQuit,
    Logger,
    Send(String),
    History,
    NextBuf,
    PrevBuf,
    NewBuf,
    BufCount,
}

/// A non-empty, all-digit character sequence.
pub open spec fn all_digits(s: Seq<char>) -> bool {
    s.len() > 0 && forall|i: int| 0 <= i < s.len() ==> is_count_digit(#[trigger] s[i])
}

/// The value of a digit sequence read in decimal.
pub open spec fn digits_value(s: Seq<char>) -> int
    decreases s.len(),
{
    if s.len() == 0 {
        0
    } else {
        digits_value(s.drop_last()) * 10 + (s.last() as u32 - 48)
    }
}

/// The index of the first space, or the length if there is none.
pub open spec fn first_space_from(s: Seq<char>, i: int) -> int
    decreases s.len() - i,
{
    if i < 0 || i >= s.len() {
        s.len() as int
    } else if s[i] == ' ' {
        i
    } else {
        first_space_from(s, i + 1)
    }
}

/// The index of the first space in `s`, or its length.
pub open spec fn first_space(s: Seq<char>) -> int {
    first_space_from(s, 0)
}

/// The first space-separated word.
pub open spec fn first_token(s: Seq<char>) -> Seq<char> {
    s.take(first_space(s))
}

/// Everything after the first space; empty if there is no space.
pub open spec fn send_payload(s: Seq<char>) -> Seq<char> {
    if first_space(s) < s.len() {
        s.skip(first_space(s) + 1)
    } else {
        Seq::empty()
    }
}

/// What `confirm` yields for the typed text `cmd`.
pub open spec fn expected_command(cmd: Seq<char>, r: Option<CommandKey>) -> bool {
    let tok = first_token(cmd);
    if all_digits(cmd) && digits_value(cmd) <= usize::MAX as int {
        match r {
            Some(CommandKey::Line(n)) => n as int == digits_value(cmd),
            _ => false,
        }
    } else if tok == "wq"@ || tok == "x"@ {
        r == Some(CommandKey::SaveAndQuit)
    } else if tok == "q"@ {
        r == Some(CommandKey::Quit)
    } else if tok == "w"@ {
        r == Some(CommandKey::Save)
    } else if tok == "history"@ {
        r == Some(CommandKey::History)
    } else if tok == "logger"@ {
        r == Some(CommandKey::Logger)
    } else if tok == "send"@ {
        match r {
            Some(CommandKey::Send(m)) => m@ == send_payload(cmd),
            _ => false,
        }
    } else if tok == "bufn"@ {
        r == Some(CommandKey::NextBuf)
    } else if tok == "bufp"@ {
        r == Some(CommandKey::PrevBuf)
    } else if tok == "newbuf"@ {
        r == Some(CommandKey::NewBuf)
    } else if tok == "bufcount"@ {
        r == Some(CommandKey::BufCount)
    } else {
        r is None
    }
}

/// Digit sequences never read negative.
proof fn lemma_digits_value_nonneg(s: Seq<char>)
    requires
        forall|i: int| 0 <= i < s.len() ==> is_count_digit(#[trigger] s[i]),
    ensures
        digits_value(s) >= 0,
    decreases s.len(),
{
    if s.len() > 0 {
        lemma_digits_value_nonneg(s.drop_last());
    }
}

/// Reading more digits never shrinks the value.
proof fn lemma_digits_value_mono(s: Seq<char>, i: int)
    requires
        0 <= i <= s.len(),
        forall|k: int| 0 <= k < s.len() ==> is_count_digit(#[trigger] s[k]),
    ensures
        digits_value(s) >= digits_value(s.take(i)),
    decreases s.len() - i,
{
    if i == s.len() {
        assert(s.take(i) =~= s);
    } else {
        lemma_digits_value_mono(s, i + 1);
        assert(s.take(i + 1).drop_last() =~= s.take(i));
        assert(s.take(i + 1).last() == s[i]);
        lemma_digits_value_nonneg(s.take(i));
        assert(forall|k: int|
            0 <= k < s.take(i).len() ==> is_count_digit(#[trigger] s.take(i)[k]));
    }
}

/// Parses a non-empty all-digit string as decimal; `None` on any other
/// character or when the value does not fit.
#[verifier::loop_isolation(false)]
pub fn parse_usize(s: &str) -> (r: Option<usize>)
    ensures
        match r {
            Some(v) => all_digits(s@) && v as int == digits_value(s@),
            None => !(all_digits(s@) && digits_value(s@) <= usize::MAX as int),
        },
{
    let n = s.unicode_len();
    if n == 0 {
        return None;
    }
    let mut acc: usize = 0;
    let mut i: usize = 0;
    proof {
        assert(s@.take(0) =~= Seq::<char>::empty());
    }
    while i < n
        invariant
            i <= n,
            acc as int == digits_value(s@.take(i as int)),
            forall|k: int| 0 <= k < i ==> is_count_digit(#[trigger] s@[k]),
        decreases n - i,
    {
        let c = s.get_char(i);
        if !crate::statemachine::count_digit(c) {
            return None;
        }
        let d = (c as u32 - 48) as usize;
        proof {
            assert(s@.take(i + 1).drop_last() =~= s@.take(i as int));
            assert(s@.take(i + 1).last() == s@[i as int]);
        }
        if acc > (usize::MAX - d) / 10 {
            proof {
                assert(acc * 10 + d > usize::MAX) by (nonlinear_arith)
                    requires
                        acc > (usize::MAX - d) / 10,
                        d <= 9,
                ;
                if all_digits(s@) {
                    lemma_digits_value_mono(s@, i + 1);
                }
            }
            return None;
        }
        proof {
            assert(acc * 10 + d <= usize::MAX) by (nonlinear_arith)
                requires
                    acc <= (usize::MAX - d) / 10,
                    d <= 9,
            ;
        }
        acc = acc * 10 + d;
        i += 1;
    }
    proof {
        assert(s@.take(n as int) =~= s@);
    }
    Some(acc)
}

/// The index of the first space in `s`, or its length if there is none.
#[verifier::loop_isolation(false)]
pub fn find_first_space(s: &str) -> (r: usize)
    ensures
        r as int == first_space(s@),
        r <= s@.len(),
        r < s@.len() ==> s@[r as int] == ' ',
{
    let n = s.unicode_len();
    let mut i: usize = 0;
    while i < n
        invariant
            i <= n,
            first_space(s@) == first_space_from(s@, i as int),
        decreases n - i,
    {
        if s.get_char(i) == ' ' {
            return i;
        }
        i += 1;
    }
    i
}

/// The `:` line: the text being typed, the history of confirmed lines, and a
/// pointer into it.
pub struct Command {
    pub text: String,
    pub history: Vec<String>,
    pub ptr: usize,
}

impl Command {
    /// An empty command line with no history.
    pub fn new() -> (c: Command)
        ensures
            c.text@ == Seq::<char>::empty(),
            c.history.deep_view() == Seq::<Seq<char>>::empty(),
            c.ptr == 0,
    {
        let c = Command { text: String::new(), history: Vec::new(), ptr: 0 };
        proof {
            assert(c.history.deep_view() =~= Seq::<Seq<char>>::empty());
        }
        c
    }

    /// Clears the typed text.
    pub fn clear(&mut self)
        ensures
            final (self).text@ == Seq::<char>::empty(),
            final (self).history == old(self).history,
            final (self).ptr == old(self).ptr,
    {
        self.text.clear();
    }

    /// Confirms the typed line: clears it, records it in the history, and
    /// returns the command it names (see `expected_command`).
    pub fn confirm(&mut self) -> (r: Option<CommandKey>)
        ensures
            final (self).text@ == Seq::<char>::empty(),
            final (self).history.deep_view() == old(self).history.deep_view().push(
                old(self).text@,
            ),
            final (self).ptr == old(self).ptr,
            expected_command(old(self).text@, r),
    {
        let command = self.text.clone();
        self.text.clear();

        let ck: Option<CommandKey> = match parse_usize(command.as_str()) {
            Some(number) => Some(CommandKey::Line(number)),
            None => {
                let s = command.as_str();
                let n = s.unicode_len();
                let space = find_first_space(s);
                let tok = s.substring_char(0, space).to_owned();
                proof {
                    assert(s@.subrange(0, space as int) =~= first_token(s@));
                }
                if tok == String::from_str("wq") || tok == String::from_str("x") {
                    Some(CommandKey::SaveAndQuit)
                } else if tok == String::from_str("q") {
                    Some(CommandKey::Quit)
                } else if tok == String::from_str("w") {
                    Some(CommandKey::Save)
                } else if tok == String::from_str("history") {
                    Some(CommandKey::History)
                } else if tok == String::from_str("logger") {
                    Some(CommandKey::Logger)
                } else if tok == String::from_str("send") {
                    let payload = if space < n {
                        s.substring_char(space + 1, n).to_owned()
                    } else {
                        String::new()
                    };
                    proof {
                        if space < n {
                            assert(s@.subrange(space + 1, n as int) =~= send_payload(s@));
                        }
                    }
                    Some(CommandKey::Send(payload))
                } else if tok == String::from_str("bufn") {
                    Some(CommandKey::NextBuf)
                } else if tok == String::from_str("bufp") {
                    Some(CommandKey::PrevBuf)
                } else if tok == String::from_str("newbuf") {
                    Some(CommandKey::NewBuf)
                } else if tok == String::from_str("bufcount") {
                    Some(CommandKey::BufCount)
                } else {
                    None
                }
            },
        };
        let ghost pre_history = self.history.deep_view();
        self.history.push(command);
        proof {
            assert(self.history.deep_view() =~= pre_history.push(old(self).text@));
        }
        ck
    }
}

} // verus!
