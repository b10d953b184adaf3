//! A validated guess value, and error-handling helpers over optional values.

use vstd::prelude::*;

verus! {

/// A guess that has been checked to lie in 1..=100.
pub struct Guess {
    value: i32,
}

impl Guess {
    /// The number this guess holds.
    pub closed spec fn spec_value(&self) -> i32 {
        self.value
    }

    /// Every constructed guess lies in the accepted range.
    pub open spec fn wf(&self) -> bool {
        1 <= self.spec_value() <= 100
    }

    /// Wrap a value, which must lie in 1..=100; values outside the range
    /// are not accepted.
    pub fn new(value: i32) -> (g: Guess)
        requires
            1 <= value <= 100,
        ensures
            g.spec_value() == value,
            g.wf(),
    {
        Guess { value }
    }

    /// Read the wrapped value back.
    pub fn value(&self) -> (v: i32)
        ensures
            v == self.spec_value(),
    {
        self.value
    }
}

/// Where the first line of `s` ends: the index of the first newline, or the
/// length of `s` when it has none.
pub open spec fn first_line_end(s: Seq<char>) -> int
    decreases s.len(),
{
    if s.len() == 0 {
        0
    } else if s[0] == '\n' {
        0
    } else {
        1 + first_line_end(s.drop_first())
    }
}

/// The first line of `s`, as the standard line iterator cuts it: everything
/// before the first newline, with one carriage return stripped from its end
/// only when a newline ended the line; a trailing carriage return with no
/// newline after it stays.
pub open spec fn first_line(s: Seq<char>) -> Seq<char> {
    let raw = s.subrange(0, first_line_end(s));
    if first_line_end(s) < s.len() && raw.len() > 0 && raw.last() == '\r' {
        raw.drop_last()
    } else {
        raw
    }
}

/// What the last character of the first line is: none when the text is
/// empty or its first line is.
pub open spec fn last_char_of_first_line_spec(s: Seq<char>) -> Option<char> {
    if s.len() == 0 {
        None
    } else if first_line(s).len() == 0 {
        None
    } else {
        Some(first_line(s).last())
    }
}

/// Scanning `lo` characters without a newline pins down `first_line_end`.
proof fn lemma_first_line_end_at(s: Seq<char>, lo: int)
    requires
        0 <= lo <= s.len(),
        forall|j: int| 0 <= j < lo ==> s[j] != '\n',
        lo < s.len() ==> s[lo] == '\n',
    ensures
        first_line_end(s) == lo,
    decreases lo,
{
    if lo > 0 {
        let rest = s.drop_first();
        lemma_first_line_end_at(rest, lo - 1);
    }
}

/// The last character of the first line of `text`, when both exist.
pub fn last_char_of_first_line(text: &str) -> (r: Option<char>)
    ensures
        r == last_char_of_first_line_spec(text@),
{
    let n = text.unicode_len();
    let ghost s = text@;
    if n == 0 {
        return None;
    }

    let mut e: usize = 0;
    while e < n && text.get_char(e) != '\n'
        invariant
            0 <= e <= n,
            n == s.len(),
            s == text@,
            forall|j: int| 0 <= j < e ==> s[j] != '\n',
        decreases n - e,
    {
        e = e + 1;
    }
    proof {
        lemma_first_line_end_at(s, e as int);
    }

    // Strip one carriage return from the end of the line, as the standard
    // line iterator does, but only when a newline ended the line.
    let end: usize = if e < n && e > 0 && text.get_char(e - 1) == '\r' {
        e - 1
    } else {
        e
    };
    proof {
        let raw = s.subrange(0, e as int);
        if raw.len() > 0 {
            assert(raw.last() == s[e as int - 1]);
        }
        assert(first_line(s) =~= s.subrange(0, end as int));
    }
    if end == 0 {
        None
    } else {
        proof {
            assert(first_line(s).last() == s[end as int - 1]);
        }
        Some(text.get_char(end - 1))
    }
}

} // verus!
