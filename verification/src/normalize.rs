//! Normalisation of a list element before it is parsed: surrounding white
//! space, one layer of quoting and one layer of brackets are taken off.

use vstd::prelude::*;
use vstd::string::*;

verus! {

/// Whether `char::is_whitespace` holds of `c`: whether Unicode marks it
/// `White_Space`.
pub uninterp spec fn white_space(c: char) -> bool;

/// `char::is_whitespace` of std. Its result is known here only by name.
pub assume_specification[ char::is_whitespace ](c: char) -> (r: bool)
    ensures
        r == white_space(c),
;

/// `String::push` of std appends the character to the end of the string.
pub assume_specification[ String::push ](s: &mut String, c: char)
    ensures
        final(s)@ == old(s)@.push(c),
;

/// The first position at or behind `i` that holds no white space, or the
/// length of `s` where only white space follows.
pub open spec fn trim_start(s: Seq<char>, i: int) -> int
    decreases s.len() - i,
{
    if i < 0 || i >= s.len() {
        s.len() as int
    } else if white_space(s[i]) {
        trim_start(s, i + 1)
    } else {
        i
    }
}

/// The end of the last run of characters before `j` that is no white space,
/// not going below `lo`.
pub open spec fn trim_end(s: Seq<char>, lo: int, j: int) -> int
    decreases j,
{
    if j <= 0 || j <= lo || j > s.len() {
        lo
    } else if white_space(s[j - 1]) {
        trim_end(s, lo, j - 1)
    } else {
        j
    }
}

/// `s` without its leading and trailing white space.
pub open spec fn trimmed(s: Seq<char>) -> Seq<char> {
    let lo = trim_start(s, 0);
    s.subrange(lo, trim_end(s, lo, s.len() as int))
}

/// Takes leading and trailing white space off `x`.
pub fn trim<'a>(x: &'a str) -> (r: &'a str)
    ensures
        r@ == trimmed(x@),
{
    let n: usize = x.unicode_len();
    let mut lo: usize = 0;
    while lo < n && x.get_char(lo).is_whitespace()
        invariant
            n == x@.len(),
            lo <= n,
            trim_start(x@, lo as int) == trim_start(x@, 0),
        decreases n - lo,
    {
        lo += 1;
    }
    let mut hi: usize = n;
    while hi > lo && x.get_char(hi - 1).is_whitespace()
        invariant
            n == x@.len(),
            lo <= hi <= n,
            trim_end(x@, lo as int, hi as int) == trim_end(x@, lo as int, n as int),
        decreases hi,
    {
        hi -= 1;
    }
    x.substring_char(lo, hi)
}

/// What is left of a quoted string from position `i` on, where `escaped` says
/// that the character before `i` was an unescaped backslash.
pub open spec fn unquote_from(s: Seq<char>, i: int, escaped: bool) -> Seq<char>
    decreases s.len() - i,
{
    if i < 0 || i >= s.len() {
        seq![]
    } else if escaped {
        seq![s[i]] + unquote_from(s, i + 1, false)
    } else if s[i] == '"' {
        seq![]
    } else if s[i] == '\\' {
        unquote_from(s, i + 1, true)
    } else {
        seq![s[i]] + unquote_from(s, i + 1, false)
    }
}

/// `s` without one layer of quoting. A value that does not begin with a double
/// quote is left as it is. Otherwise a backslash makes the next character
/// literal, and the first double quote that is not escaped ends the value.
pub open spec fn unquoted(s: Seq<char>) -> Seq<char> {
    if s.len() > 0 && s[0] == '"' {
        unquote_from(s, 1, false)
    } else {
        s
    }
}

/// Takes one layer of quoting off `x`.
pub fn maybe_quoted(x: &str) -> (r: String)
    ensures
        r@ == unquoted(x@),
{
    let n: usize = x.unicode_len();
    if n > 0 && x.get_char(0) == '"' {
        let mut s = String::new();
        let mut escaped = false;
        let mut i: usize = 1;
        while i < n
            invariant
                n == x@.len(),
                1 <= i <= n,
                x@[0] == '"',
                s@ + unquote_from(x@, i as int, escaped) == unquote_from(x@, 1, false),
            decreases n - i,
        {
            let c = x.get_char(i);
            let ghost before = s@;
            let ghost rest = unquote_from(x@, i + 1, false);
            if escaped {
                s.push(c);
                escaped = false;
                assert(before.push(c) + rest =~= before + (seq![c] + rest));
            } else if c == '"' {
                assert(unquote_from(x@, i as int, false) =~= Seq::<char>::empty());
                assert(s@ + Seq::<char>::empty() =~= s@);
                return s;
            } else if c == '\\' {
                escaped = true;
            } else {
                s.push(c);
                assert(before.push(c) + rest =~= before + (seq![c] + rest));
            }
            i += 1;
        }
        assert(s@ + Seq::<char>::empty() =~= s@);
        s
    } else {
        x.to_owned()
    }
}

/// Whether `s` begins with `[` and ends with `]`.
pub open spec fn bracketed(s: Seq<char>) -> bool {
    s.len() > 0 && s[0] == '[' && s[s.len() - 1] == ']'
}

/// `s` without one layer of brackets, where it has one.
pub open spec fn unbracketed(s: Seq<char>) -> Seq<char> {
    if bracketed(s) {
        s.subrange(1, s.len() - 1)
    } else {
        s
    }
}

/// Takes one layer of brackets off `x`, as an IPv6 literal may carry it.
pub fn maybe_bracketed<'a>(x: &'a str) -> (r: &'a str)
    requires
        x@.len() > 0,
    ensures
        r@ == unbracketed(x@),
{
    let n: usize = x.unicode_len();
    if x.get_char(0) == '[' && x.get_char(n - 1) == ']' {
        x.substring_char(1, n - 1)
    } else {
        x
    }
}

/// The text that is parsed for a header value: unquoted, then unbracketed. A
/// value of which unquoting leaves nothing has none.
pub open spec fn normalized(value: Seq<char>) -> Option<Seq<char>> {
    let u = unquoted(value);
    if u.len() == 0 {
        None
    } else {
        Some(unbracketed(u))
    }
}

/// Normalises a header value, or returns `None` where nothing is left to take
/// brackets off.
pub fn normalize(value: &str) -> (r: Option<String>)
    ensures
        match r {
            Some(t) => normalized(value@) == Some(t@),
            None => normalized(value@) is None,
        },
{
    let unquoted = maybe_quoted(value);
    if unquoted.as_str().unicode_len() == 0 {
        None
    } else {
        Some(maybe_bracketed(unquoted.as_str()).to_owned())
    }
}

} // verus!
