//! Small functions that hand strings around: moving, borrowing, changing a
//! borrowed value, and slicing out the first word.

use vstd::prelude::*;
use vstd::string::StrSliceExecFns;
use vstd::string::StringExecFns;
use vstd::string::StringSliceAdditionalSpecFns;
use vstd::utf8::encode_utf8;

verus! {

/// Make a string and move it out to the caller.
pub fn gives_ownership() -> (s: String)
    ensures
        s@ == "yours"@,
{
    let some_string = "yours".to_owned();
    some_string
}

/// Take a string and move the very same one back out.
pub fn takes_and_gives_back(a_string: String) -> (r: String)
    ensures
        r == a_string,
{
    a_string
}

/// The length of a string in bytes of its UTF-8 encoding, returned beside
/// the string itself so the caller keeps ownership.
pub fn calculate_length(s: String) -> (r: (String, usize))
    ensures
        r.0 == s,
        r.1 == encode_utf8(s@).len() as usize,
{
    let length = s.as_str().len();
    (s, length)
}

/// The length of a borrowed string, in bytes of its UTF-8 encoding.
pub fn calculate_length_reference(s: &String) -> (len: usize)
    ensures
        len == encode_utf8(s@).len() as usize,
{
    s.as_str().len()
}

/// Append ", world" to a mutably borrowed string.
pub fn change(some_string: &mut String)
    ensures
        final(some_string)@ == old(some_string)@ + ", world"@,
{
    some_string.append(", world");
}

/// Make a string and return it by value, the borrow-free way out.
pub fn no_dangle() -> (s: String)
    ensures
        s@ == "hello"@,
{
    let s = "hello".to_owned();
    s
}

/// Where the first word of `s` ends: the index of the first space, or the
/// length of `s` when it has none.
pub open spec fn first_word_end(s: Seq<char>) -> int
    decreases s.len(),
{
    if s.len() == 0 {
        0
    } else if s[0] == ' ' {
        0
    } else {
        1 + first_word_end(s.drop_first())
    }
}

/// Scanning `lo` characters without a space pins down `first_word_end`.
proof fn lemma_first_word_end_at(s: Seq<char>, lo: int)
    requires
        0 <= lo <= s.len(),
        forall|j: int| 0 <= j < lo ==> s[j] != ' ',
        lo < s.len() ==> s[lo] == ' ',
    ensures
        first_word_end(s) == lo,
    decreases lo,
{
    if lo > 0 {
        let rest = s.drop_first();
        lemma_first_word_end_at(rest, lo - 1);
    }
}

/// The first word of `s`: everything before the first space, or all of `s`
/// when it has no space.
pub fn first_word(s: &String) -> (r: &str)
    ensures
        r@ == s@.subrange(0, first_word_end(s@)),
{
    let text = s.as_str();
    let n = text.unicode_len();
    let mut i: usize = 0;
    while i < n && text.get_char(i) != ' '
        invariant
            0 <= i <= n,
            n == s@.len(),
            text@ == s@,
            forall|j: int| 0 <= j < i ==> s@[j] != ' ',
        decreases n - i,
    {
        i = i + 1;
    }
    proof {
        lemma_first_word_end_at(s@, i as int);
    }
    text.substring_char(0, i)
}

} // verus!
