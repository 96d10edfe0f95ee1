//! The key-stroke state machine: characters arrive one at a time and are
//! tokenized under a count/operator/motion grammar. Digits accumulate in a
//! queue; a non-digit flushes the queue as one count token and then stands as
//! a token of its own. Characters classified `Final` complete a motion,
//! characters classified `NeedsParameter` (operators) wait for exactly one
//! further non-digit character.

use std::collections::HashMap;
use vstd::prelude::*;

verus! {

broadcast use vstd::std_specs::hash::group_hash_axioms;

/// The parser's control states.
#[derive(PartialEq, Eq, Clone, Copy, Debug, Structural, Default)]
pub enum States {
    #[default]
    Start,
    Leader,
    NeedsParam,
    End,
}

/// How a classified character behaves: completes a motion at once, or waits
/// for one parameter character.
#[derive(PartialEq, Eq, Clone, Copy, Debug, Structural)]
pub enum FunctionType {
    NeedsParam,
    Final,
}

/// A count digit: `'0'` through `'9'`.
pub open spec fn is_count_digit(c: char) -> bool {
    48 <= c as u32 && c as u32 <= 57
}

/// Checks whether `c` is a count digit.
pub fn count_digit(c: char) -> (r: bool)
    ensures
        r == is_count_digit(c),
{
    let u = c as u32;
    48 <= u && u <= 57
}

/// The fixed classification table, keyed by character code.
pub open spec fn table_map() -> Map<u32, FunctionType> {
    Map::empty().insert(':' as u32, FunctionType::Final).insert(
        'j' as u32,
        FunctionType::Final,
    ).insert('k' as u32, FunctionType::Final).insert('h' as u32, FunctionType::Final).insert(
        'l' as u32,
        FunctionType::Final,
    ).insert('i' as u32, FunctionType::Final).insert('a' as u32, FunctionType::Final).insert(
        'w' as u32,
        FunctionType::Final,
    ).insert('b' as u32, FunctionType::Final).insert('e' as u32, FunctionType::Final).insert(
        '0' as u32,
        FunctionType::Final,
    ).insert('$' as u32, FunctionType::Final).insert('I' as u32, FunctionType::Final).insert(
        'A' as u32,
        FunctionType::Final,
    ).insert('o' as u32, FunctionType::Final).insert('d' as u32, FunctionType::NeedsParam).insert(
        'f' as u32,
        FunctionType::NeedsParam,
    ).insert('g' as u32, FunctionType::NeedsParam)
}

/// The literal token recorded when the leader character is pressed.
pub open spec fn leader_token() -> Seq<char> {
    seq!['<', 'l', 'e', 'a', 'd', 'e', 'r', '>']
}

/// A well-formed token: a non-empty run of digits, a single non-digit
/// character, or the leader token.
pub open spec fn token_wf(t: Seq<char>) -> bool {
    ||| (t.len() > 0 && forall|i: int| 0 <= i < t.len() ==> is_count_digit(t[i]))
    ||| (t.len() == 1 && !is_count_digit(t[0]))
    ||| t == leader_token()
}

/// Every token in the sequence is well-formed.
pub open spec fn tokens_wf(input: Seq<Seq<char>>) -> bool {
    forall|i: int| 0 <= i < input.len() ==> #[trigger] token_wf(input[i])
}

/// The queue flushed into the token sequence: appended as one token when
/// non-empty, dropped when empty.
pub open spec fn flush_spec(queue: Seq<char>, input: Seq<Seq<char>>) -> Seq<Seq<char>> {
    if queue.len() == 0 {
        input
    } else {
        input.push(queue)
    }
}

/// The queue after one character is pushed.
pub open spec fn queue_after_push(queue: Seq<char>, c: char) -> Seq<char> {
    if is_count_digit(c) {
        queue.push(c)
    } else {
        Seq::empty()
    }
}

/// The token sequence after one character is pushed.
pub open spec fn input_after_push(queue: Seq<char>, input: Seq<Seq<char>>, c: char) -> Seq<
    Seq<char>,
> {
    if is_count_digit(c) {
        input
    } else {
        flush_spec(queue, input).push(seq![c])
    }
}

/// The Start-state transition: digits are buffered, classified characters
/// become tokens (completing at once or awaiting a parameter), the leader
/// opens its state, and anything else is dropped.
pub open spec fn start_step(queue: Seq<char>, input: Seq<Seq<char>>, c: char) -> (
    States,
    Seq<char>,
    Seq<Seq<char>>,
) {
    if is_count_digit(c) {
        (States::Start, queue.push(c), input)
    } else if table_map().contains_key(c as u32) {
        let next = if table_map()[c as u32] == FunctionType::NeedsParam {
            States::NeedsParam
        } else {
            States::End
        };
        (next, Seq::empty(), flush_spec(queue, input).push(seq![c]))
    } else if c == ' ' {
        (States::Leader, Seq::empty(), flush_spec(queue, input).push(leader_token()))
    } else {
        (States::Start, queue, input)
    }
}

/// One transition of the parser: from state, queue and tokens under
/// character `c` to the next state, queue and tokens. The End state is
/// transient: a call there resets to Start first and then processes `c` as
/// the Start state would.
pub open spec fn recv_step(state: States, queue: Seq<char>, input: Seq<Seq<char>>, c: char) -> (
    States,
    Seq<char>,
    Seq<Seq<char>>,
) {
    match state {
        States::Start => start_step(queue, input, c),
        States::NeedsParam => {
            if is_count_digit(c) {
                (States::NeedsParam, queue.push(c), input)
            } else {
                (States::End, Seq::empty(), flush_spec(queue, input).push(seq![c]))
            }
        },
        States::Leader => (States::Leader, queue, input),
        States::End => start_step(queue, input, c),
    }
}

/// The key-stroke parser: control state, pending digit queue, accumulated
/// tokens, and the classification table.
pub struct StateMachine {
    pub state: States,
    pub queue: String,
    pub input: Vec<String>,
    pub map: HashMap<u32, FunctionType>,
}

impl StateMachine {
    /// Well-formed parser: the table holds the fixed classification, the
    /// queue holds only digits, and every accumulated token is well-formed.
    pub open spec fn wf(self) -> bool {
        &&& self.map@ == table_map()
        &&& forall|i: int| 0 <= i < self.queue@.len() ==> is_count_digit(self.queue@[i])
        &&& tokens_wf(self.input.deep_view())
    }

    /// A fresh parser: Start state, nothing buffered.
    pub fn new() -> (sm: StateMachine)
        ensures
            sm.wf(),
            sm.state == States::Start,
            sm.queue@ == Seq::<char>::empty(),
            sm.input.deep_view() == Seq::<Seq<char>>::empty(),
    {
        let mut map: HashMap<u32, FunctionType> = HashMap::new();
        map.insert(':' as u32, FunctionType::Final);
        map.insert('j' as u32, FunctionType::Final);
        map.insert('k' as u32, FunctionType::Final);
        map.insert('h' as u32, FunctionType::Final);
        map.insert('l' as u32, FunctionType::Final);
        map.insert('i' as u32, FunctionType::Final);
        map.insert('a' as u32, FunctionType::Final);
        map.insert('w' as u32, FunctionType::Final);
        map.insert('b' as u32, FunctionType::Final);
        map.insert('e' as u32, FunctionType::Final);
        map.insert('0' as u32, FunctionType::Final);
        map.insert('$' as u32, FunctionType::Final);
        map.insert('I' as u32, FunctionType::Final);
        map.insert('A' as u32, FunctionType::Final);
        map.insert('o' as u32, FunctionType::Final);
        map.insert('d' as u32, FunctionType::NeedsParam);
        map.insert('f' as u32, FunctionType::NeedsParam);
        map.insert('g' as u32, FunctionType::NeedsParam);
        let sm = StateMachine { state: States::Start, queue: String::new(), input: Vec::new(), map };
        proof {
            assert(sm.map@ =~= table_map());
            assert(sm.input.deep_view() =~= Seq::<Seq<char>>::empty());
        }
        sm
    }

    /// Buffers a digit in the queue; any other character flushes the queue
    /// and is appended as a token of its own.
    pub fn push(&mut self, c: char)
        requires
            old(self).wf(),
        ensures
            final (self).wf(),
            final (self).state == old(self).state,
            final (self).map@ == old(self).map@,
            final (self).queue@ == queue_after_push(old(self).queue@, c),
            final (self).input.deep_view() == input_after_push(
                old(self).queue@,
                old(self).input.deep_view(),
                c,
            ),
    {
        if count_digit(c) {
            self.queue.push(c);
        } else {
            if !self.queue.as_str().is_empty() {
                let q = self.queue.clone();
                self.input.push(q);
                self.queue.clear();
            }
            let t = crate::strutil::char_to_string(c);
            self.input.push(t);
            proof {
                assert(self.input.deep_view() =~= input_after_push(
                    old(self).queue@,
                    old(self).input.deep_view(),
                    c,
                ));
            }
        }
    }

    /// Flushes the queue, then appends `s` as one token.
    pub fn push_str(&mut self, s: &str)
        requires
            old(self).wf(),
            token_wf(s@),
        ensures
            final (self).wf(),
            final (self).state == old(self).state,
            final (self).map@ == old(self).map@,
            final (self).queue@ == Seq::<char>::empty(),
            final (self).input.deep_view() == flush_spec(
                old(self).queue@,
                old(self).input.deep_view(),
            ).push(s@),
    {
        if !self.queue.as_str().is_empty() {
            let q = self.queue.clone();
            self.input.push(q);
            self.queue.clear();
        }
        let t = s.to_owned();
        self.input.push(t);
        proof {
            assert(self.input.deep_view() =~= flush_spec(
                old(self).queue@,
                old(self).input.deep_view(),
            ).push(s@));
        }
    }

    /// Feeds one character to the parser and reports the state reached.
    /// The transition follows `recv_step`: see there for the grammar.
    pub fn recv(&mut self, c: char) -> (st: States)
        requires
            old(self).wf(),
        ensures
            final (self).wf(),
            final (self).map@ == old(self).map@,
            st == final (self).state,
            ({
                let step = recv_step(
                    old(self).state,
                    old(self).queue@,
                    old(self).input.deep_view(),
                    c,
                );
                &&& final (self).state == step.0
                &&& final (self).queue@ == step.1
                &&& final (self).input.deep_view() == step.2
            }),
    {
        // End is transient: re-enter Start before the character is read
        if matches!(self.state, States::End) {
            self.state = States::Start;
        }
        match self.state {
            States::Start | States::End => {
                if count_digit(c) {
                    self.push(c);
                    self.state = States::Start;
                } else {
                    let key = c as u32;
                    let looked = match self.map.get(&key) {
                        Some(t) => Some(*t),
                        None => None,
                    };
                    match looked {
                        Some(FunctionType::NeedsParam) => {
                            self.push(c);
                            self.state = States::NeedsParam;
                        },
                        Some(FunctionType::Final) => {
                            self.push(c);
                            self.state = States::End;
                        },
                        None => {
                            if c == ' ' {
                                proof {
                                    reveal_strlit("<leader>");
                                    assert("<leader>"@ =~= leader_token());
                                }
                                self.push_str("<leader>");
                                self.state = States::Leader;
                            }
                        },
                    }
                }
            },
            States::NeedsParam => {
                if count_digit(c) {
                    self.push(c);
                    self.state = States::NeedsParam;
                } else {
                    self.push(c);
                    self.state = States::End;
                }
            },
            States::Leader => {},
        }
        self.state
    }

    /// The tokens accumulated so far, not including a still-pending queue.
    pub fn fetch(&self) -> (r: Vec<String>)
        ensures
            r.deep_view() == self.input.deep_view(),
    {
        let mut r: Vec<String> = Vec::new();
        let mut i: usize = 0;
        while i < self.input.len()
            invariant
                i <= self.input.len(),
                r@ == self.input@.take(i as int),
            decreases self.input.len() - i,
        {
            let s = self.input[i].clone();
            r.push(s);
            i += 1;
            proof {
                assert(r@ =~= self.input@.take(i as int));
            }
        }
        proof {
            assert(r@ =~= self.input@);
        }
        r
    }

    /// The concatenation of all token text.
    pub open spec fn concat_tokens(ss: Seq<Seq<char>>) -> Seq<char>
        decreases ss.len(),
    {
        if ss.len() == 0 {
            Seq::empty()
        } else {
            Self::concat_tokens(ss.drop_last()) + ss.last()
        }
    }

    /// The display text of a not-yet-complete motion: all tokens followed by
    /// the pending queue.
    pub fn to_string(&self) -> (s: String)
        ensures
            s@ == Self::concat_tokens(self.input.deep_view()) + self.queue@,
    {
        let mut s = String::new();
        let mut i: usize = 0;
        proof {
            assert(s@ =~= Self::concat_tokens(self.input.deep_view().take(0)));
        }
        while i < self.input.len()
            invariant
                i <= self.input.len(),
                s@ == Self::concat_tokens(self.input.deep_view().take(i as int)),
            decreases self.input.len() - i,
        {
            s.append(self.input[i].as_str());
            i += 1;
            proof {
                assert(self.input.deep_view().take(i as int).drop_last() =~= self.input.deep_view()
                    .take(i - 1));
                assert(self.input.deep_view().take(i as int).last() == self.input.deep_view()[i
                    - 1]);
            }
        }
        proof {
            assert(self.input.deep_view().take(self.input@.len() as int) =~= self.input.deep_view());
        }
        s.append(self.queue.as_str());
        s
    }

    /// Clears state, tokens and queue; safe at any point and leaves the
    /// parser ready for fresh input.
    pub fn refresh(&mut self)
        requires
            old(self).wf(),
        ensures
            final (self).wf(),
            final (self).state == States::Start,
            final (self).queue@ == Seq::<char>::empty(),
            final (self).input.deep_view() == Seq::<Seq<char>>::empty(),
            final (self).map@ == old(self).map@,
    {
        self.state = States::Start;
        self.input.clear();
        self.queue.clear();
        proof {
            assert(self.input.deep_view() =~= Seq::<Seq<char>>::empty());
        }
    }
}

/// A completed motion leaves nothing pending: whenever one transition
/// reaches the End state, the digit queue is empty.
pub proof fn lemma_end_queue_empty(state: States, queue: Seq<char>, input: Seq<Seq<char>>, c: char)
    ensures
        recv_step(state, queue, input, c).0 == States::End ==> recv_step(
            state,
            queue,
            input,
            c,
        ).1 == Seq::<char>::empty(),
{
}

} // verus!
