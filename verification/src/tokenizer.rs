//! Splitting of a header value into the elements of a comma-separated list.
//!
//! The scanner is a five-state machine over the characters of the value. Its
//! meaning is given by [`tokens`]; [`CommaSeparatedIterator`] walks the same
//! machine one token at a time.

use vstd::prelude::*;
use vstd::string::*;

verus! {

/// State of the list scanner between two characters.
#[derive(Clone, Copy, Debug, PartialEq, Eq, Structural)]
pub enum CommaSeparatedIteratorState {
    /// Between elements: blanks are skipped.
    Default,
    /// Inside a quoted string.
    Quoted,
    /// Directly behind a backslash inside a quoted string.
    QuotedPair,
    /// Inside an unquoted element.
    Token,
    /// Behind the closing quote, before the next comma.
    PostambleForQuoted,
}

/// What one character does to the scanner.
pub struct Step {
    /// State after the character.
    pub state: CommaSeparatedIteratorState,
    /// Start of the pending element after the character.
    pub start: int,
    /// Bounds of the element that the character completes, if it completes one.
    pub emit: Option<(int, int)>,
}

/// The transition taken on character `c`, found at position `i`, in state
/// `state` with the pending element starting at `start`.
pub open spec fn step(state: CommaSeparatedIteratorState, start: int, i: int, c: char) -> Step {
    match state {
        CommaSeparatedIteratorState::Default => if c == '"' {
            Step { state: CommaSeparatedIteratorState::Quoted, start: i, emit: None }
        } else if c == ' ' || c == '\t' {
            Step { state: CommaSeparatedIteratorState::Default, start, emit: None }
        } else if c == ',' {
            Step { state: CommaSeparatedIteratorState::Default, start, emit: Some((i, i)) }
        } else {
            Step { state: CommaSeparatedIteratorState::Token, start: i, emit: None }
        },
        CommaSeparatedIteratorState::Quoted => if c == '"' {
            Step {
                state: CommaSeparatedIteratorState::PostambleForQuoted,
                start,
                emit: Some((start, i + 1)),
            }
        } else if c == '\\' {
            Step { state: CommaSeparatedIteratorState::QuotedPair, start, emit: None }
        } else {
            Step { state: CommaSeparatedIteratorState::Quoted, start, emit: None }
        },
        CommaSeparatedIteratorState::QuotedPair => Step {
            state: CommaSeparatedIteratorState::Quoted,
            start,
            emit: None,
        },
        CommaSeparatedIteratorState::Token => if c == ',' {
            Step { state: CommaSeparatedIteratorState::Default, start, emit: Some((start, i)) }
        } else {
            Step { state: CommaSeparatedIteratorState::Token, start, emit: None }
        },
        CommaSeparatedIteratorState::PostambleForQuoted => if c == ',' {
            Step { state: CommaSeparatedIteratorState::Default, start, emit: None }
        } else {
            Step { state: CommaSeparatedIteratorState::PostambleForQuoted, start, emit: None }
        },
    }
}

/// Whether an element is still pending in `state` when the input ends.
pub open spec fn pending(state: CommaSeparatedIteratorState) -> bool {
    state == CommaSeparatedIteratorState::Quoted || state
        == CommaSeparatedIteratorState::QuotedPair || state == CommaSeparatedIteratorState::Token
}

/// The elements that the scanner still yields when it stands before position
/// `i` of `s` in state `state`, with the pending element starting at `start`.
pub open spec fn scan(
    s: Seq<char>,
    i: int,
    state: CommaSeparatedIteratorState,
    start: int,
) -> Seq<Seq<char>>
    decreases s.len() - i,
{
    if i < 0 || i >= s.len() {
        if pending(state) {
            seq![s.subrange(start, s.len() as int)]
        } else {
            seq![]
        }
    } else {
        let st = step(state, start, i, s[i]);
        let rest = scan(s, i + 1, st.state, st.start);
        match st.emit {
            Some((a, b)) => seq![s.subrange(a, b)] + rest,
            None => rest,
        }
    }
}

/// The elements of the comma-separated list `s`, in order, quotes included.
pub open spec fn tokens(s: Seq<char>) -> Seq<Seq<char>> {
    scan(s, 0, CommaSeparatedIteratorState::Default, 0)
}

/// A single pass over the elements of a comma-separated header value.
pub struct CommaSeparatedIterator<'a> {
    /// The value being scanned.
    target: &'a str,
    /// Number of characters in `target`.
    len: usize,
    /// Position of the next character to read.
    pos: usize,
    /// Current scanner state.
    state: CommaSeparatedIteratorState,
    /// Start position of the last element found.
    s: usize,
}

impl<'a> CommaSeparatedIterator<'a> {
    /// The header value that is scanned.
    pub closed spec fn source(&self) -> Seq<char> {
        self.target@
    }

    /// The positions are within the value and the pending element starts
    /// before the read position.
    #[verifier::type_invariant]
    spec fn wf(&self) -> bool {
        &&& self.len == self.target@.len()
        &&& self.s <= self.pos <= self.len
    }

    /// The elements that are still to come.
    pub closed spec fn remaining(&self) -> Seq<Seq<char>> {
        scan(self.target@, self.pos as int, self.state, self.s as int)
    }

    /// Starts a scan of `target`.
    pub fn new(target: &'a str) -> (r: Self)
        ensures
            r.source() == target@,
            r.remaining() == tokens(target@),
    {
        Self {
            target,
            len: target.unicode_len(),
            pos: 0,
            state: CommaSeparatedIteratorState::Default,
            s: 0,
        }
    }

    /// Yields the next element, or `None` when the value is used up.
    pub fn next(&mut self) -> (r: Option<&'a str>)
        ensures
            final(self).source() == old(self).source(),
            match r {
                Some(t) => old(self).remaining().len() > 0 && t@ == old(self).remaining()[0]
                    && final(self).remaining() == old(self).remaining().drop_first(),
                None => old(self).remaining().len() == 0 && final(self).remaining().len() == 0,
            },
    {
        proof {
            use_type_invariant(&*self);
        }
        while self.pos < self.len
            invariant
                self.wf(),
                self.target == old(self).target,
                self.remaining() == old(self).remaining(),
            decreases self.len - self.pos,
        {
            let i: usize = self.pos;
            let c = self.target.get_char(i);
            let ghost before = *self;
            let ghost st = step(self.state, self.s as int, i as int, c);
            self.pos = i + 1;
            let mut found: Option<&'a str> = None;
            match self.state {
                CommaSeparatedIteratorState::Default => {
                    if c == '"' {
                        self.s = i;
                        self.state = CommaSeparatedIteratorState::Quoted;
                    } else if c == ' ' || c == '\t' {
                    } else if c == ',' {
                        found = Some(self.target.substring_char(i, i));
                    } else {
                        self.s = i;
                        self.state = CommaSeparatedIteratorState::Token;
                    }
                },
                CommaSeparatedIteratorState::Quoted => {
                    if c == '"' {
                        found = Some(self.target.substring_char(self.s, i + 1));
                        self.state = CommaSeparatedIteratorState::PostambleForQuoted;
                    } else if c == '\\' {
                        self.state = CommaSeparatedIteratorState::QuotedPair;
                    }
                },
                CommaSeparatedIteratorState::QuotedPair => {
                    self.state = CommaSeparatedIteratorState::Quoted;
                },
                CommaSeparatedIteratorState::Token => {
                    if c == ',' {
                        found = Some(self.target.substring_char(self.s, i));
                        self.state = CommaSeparatedIteratorState::Default;
                    }
                },
                CommaSeparatedIteratorState::PostambleForQuoted => {
                    if c == ',' {
                        self.state = CommaSeparatedIteratorState::Default;
                    }
                },
            }
            proof {
                assert(self.state == st.state && self.s == st.start);
                let rest = scan(self.target@, i + 1, st.state, st.start);
                assert(self.remaining() == rest);
                match st.emit {
                    Some((a, b)) => {
                        let tok = self.target@.subrange(a, b);
                        assert(before.remaining() == seq![tok] + rest);
                        assert((seq![tok] + rest).drop_first() =~= rest);
                        assert(found is Some && found->0@ == tok);
                    },
                    None => {
                        assert(found is None);
                    },
                }
            }
            if found.is_some() {
                return found;
            }
        }
        if self.state == CommaSeparatedIteratorState::Quoted || self.state
            == CommaSeparatedIteratorState::QuotedPair || self.state
            == CommaSeparatedIteratorState::Token {
            let rest = self.target.substring_char(self.s, self.len);
            proof {
                assert(self.remaining() == seq![self.target@.subrange(
                    self.s as int,
                    self.len as int,
                )]);
                assert(self.remaining().drop_first() =~= Seq::<Seq<char>>::empty());
            }
            self.state = CommaSeparatedIteratorState::Default;
            Some(rest)
        } else {
            None
        }
    }

    /// Runs the scan to its end and returns the elements that were left.
    pub fn collect(self) -> (r: Vec<&'a str>)
        ensures
            r@.len() == self.remaining().len(),
            forall|k: int| 0 <= k < r@.len() ==> (#[trigger] r@[k])@ == self.remaining()[k],
    {
        let mut it = self;
        let mut out: Vec<&'a str> = Vec::new();
        loop
            invariant
                out@.len() + it.remaining().len() == self.remaining().len(),
                forall|k: int| 0 <= k < out@.len() ==> (#[trigger] out@[k])@ == self.remaining()[k],
                forall|k: int|
                    0 <= k < it.remaining().len() ==> #[trigger] it.remaining()[k]
                        == self.remaining()[out@.len() + k],
            decreases it.remaining().len(),
        {
            match it.next() {
                Some(t) => {
                    out.push(t);
                },
                None => {
                    return out;
                },
            }
        }
    }
}

/// Whether `c` is one of the two characters that are skipped between elements.
pub open spec fn is_blank(c: char) -> bool {
    c == ' ' || c == '\t'
}

/// The first position at or behind `i` that holds no blank, or the length of
/// `s` where only blanks follow.
pub open spec fn skip_blanks(s: Seq<char>, i: int) -> int
    decreases s.len() - i,
{
    if i < 0 || i >= s.len() {
        s.len() as int
    } else if is_blank(s[i]) {
        skip_blanks(s, i + 1)
    } else {
        i
    }
}

/// Whether `s` holds neither a comma nor a double quote.
pub open spec fn plain(s: Seq<char>) -> bool {
    forall|k: int| 0 <= k < s.len() ==> s[k] != ',' && s[k] != '"'
}

proof fn lemma_scan_in_token(s: Seq<char>, i: int, start: int)
    requires
        plain(s),
        0 <= i <= s.len(),
    ensures
        scan(s, i, CommaSeparatedIteratorState::Token, start) == seq![
            s.subrange(start, s.len() as int),
        ],
    decreases s.len() - i,
{
    if i < s.len() {
        lemma_scan_in_token(s, i + 1, start);
    }
}

proof fn lemma_scan_between(s: Seq<char>, i: int, start: int)
    requires
        plain(s),
        0 <= i <= s.len(),
    ensures
        scan(s, i, CommaSeparatedIteratorState::Default, start) == if skip_blanks(s, i)
            < s.len() {
            seq![s.subrange(skip_blanks(s, i), s.len() as int)]
        } else {
            seq![]
        },
    decreases s.len() - i,
{
    if i < s.len() {
        if is_blank(s[i]) {
            lemma_scan_between(s, i + 1, start);
        } else {
            lemma_scan_in_token(s, i + 1, i);
        }
    }
}

/// A value without comma and without double quote is one element: the value
/// from its first character that is no blank on, trailing blanks included. A
/// value of blanks alone, or an empty one, has no element.
pub proof fn lemma_plain_value_is_one_token(s: Seq<char>)
    requires
        plain(s),
    ensures
        skip_blanks(s, 0) < s.len() ==> tokens(s) == seq![
            s.subrange(skip_blanks(s, 0), s.len() as int),
        ],
        skip_blanks(s, 0) >= s.len() ==> tokens(s) == Seq::<Seq<char>>::empty(),
        s.len() > 0 && !is_blank(s[0]) ==> tokens(s) == seq![s],
{
    lemma_scan_between(s, 0, 0);
    if s.len() > 0 && !is_blank(s[0]) {
        assert(s.subrange(0, s.len() as int) =~= s);
    }
}

} // verus!
