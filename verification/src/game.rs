//! The guess-the-number game: a target in 1..=100, guesses compared against
//! it until one is equal.

use rand::Rng;
use vstd::prelude::*;

verus! {

/// The three-way outcome of comparing a guess against the target.
#[derive(Clone, Copy, Debug, PartialEq, Eq, Structural)]
pub enum Verdict {
    TooSmall,
    TooBig,
    Correct,
}

/// What comparing `guess` against `target` yields.
pub open spec fn verdict_of(guess: int, target: int) -> Verdict {
    if guess < target {
        Verdict::TooSmall
    } else if guess > target {
        Verdict::TooBig
    } else {
        Verdict::Correct
    }
}

/// Compare a guess against the target.
pub fn compare_guess(guess: u32, target: u32) -> (v: Verdict)
    ensures
        v == verdict_of(guess as int, target as int),
{
    if guess < target {
        Verdict::TooSmall
    } else if guess > target {
        Verdict::TooBig
    } else {
        Verdict::Correct
    }
}

/// The characters that input lines are trimmed of before parsing: the
/// Unicode White_Space set, the same set the standard trim removes.
pub open spec fn is_space(c: char) -> bool {
    ('\u{9}' <= c && c <= '\u{d}') || c == ' ' || c == '\u{85}' || c == '\u{a0}'
        || c == '\u{1680}' || ('\u{2000}' <= c && c <= '\u{200a}') || c == '\u{2028}'
        || c == '\u{2029}' || c == '\u{202f}' || c == '\u{205f}' || c == '\u{3000}'
}

/// `s` with its leading spaces removed.
pub open spec fn trim_start_spec(s: Seq<char>) -> Seq<char>
    decreases s.len(),
{
    if s.len() > 0 && is_space(s[0]) {
        trim_start_spec(s.drop_first())
    } else {
        s
    }
}

/// `s` with its trailing spaces removed.
pub open spec fn trim_end_spec(s: Seq<char>) -> Seq<char>
    decreases s.len(),
{
    if s.len() > 0 && is_space(s.last()) {
        trim_end_spec(s.drop_last())
    } else {
        s
    }
}

/// `s` with leading and trailing spaces removed.
pub open spec fn trim_spec(s: Seq<char>) -> Seq<char> {
    trim_end_spec(trim_start_spec(s))
}

/// A decimal digit.
pub open spec fn is_digit(c: char) -> bool {
    '0' <= c && c <= '9'
}

/// The numeric value of a decimal digit.
pub open spec fn digit_val(c: char) -> int {
    (c as int) - ('0' as int)
}

pub open spec fn all_digits(s: Seq<char>) -> bool {
    forall|i: int| 0 <= i < s.len() ==> is_digit(s[i])
}

/// The number that a sequence of decimal digits denotes, most significant
/// digit first; the empty sequence denotes 0.
pub open spec fn digits_val(s: Seq<char>) -> int
    decreases s.len(),
{
    if s.len() == 0 {
        0
    } else {
        digits_val(s.drop_last()) * 10 + digit_val(s.last())
    }
}

/// The digits of a trimmed guess: an optional leading `+` sign is accepted,
/// as the standard integer parser accepts it.
pub open spec fn digits_of(s: Seq<char>) -> Seq<char> {
    if s.len() > 0 && s[0] == '+' {
        s.drop_first()
    } else {
        s
    }
}

/// What parsing an input line as a guess yields: the line is trimmed, an
/// optional `+` sign is dropped, and what remains must be one or more
/// decimal digits whose value fits in `u32`; anything else is rejected.
pub open spec fn parse_guess_spec(line: Seq<char>) -> Option<u32> {
    let d = digits_of(trim_spec(line));
    if d.len() > 0 && all_digits(d) && digits_val(d) <= u32::MAX as int {
        Some(digits_val(d) as u32)
    } else {
        None
    }
}

/// A digit sequence denotes a non-negative number.
proof fn lemma_digits_val_nonneg(s: Seq<char>)
    requires
        all_digits(s),
    ensures
        digits_val(s) >= 0,
    decreases s.len(),
{
    if s.len() > 0 {
        assert(all_digits(s.drop_last())) by {
            assert(forall|i: int|
                0 <= i < s.len() - 1 ==> s.drop_last()[i] == s[i]);
        }
        lemma_digits_val_nonneg(s.drop_last());
    }
}

/// Extending a digit sequence on the right can only grow its value.
proof fn lemma_digits_val_prefix_le(s: Seq<char>, j: int)
    requires
        all_digits(s),
        0 <= j <= s.len(),
    ensures
        digits_val(s.subrange(0, j)) <= digits_val(s),
    decreases s.len() - j,
{
    if j < s.len() {
        let shorter = s.subrange(0, j);
        let longer = s.subrange(0, j + 1);
        assert(longer.drop_last() =~= shorter);
        assert(all_digits(longer)) by {
            assert(forall|i: int| 0 <= i < longer.len() ==> longer[i] == s[i]);
        }
        lemma_digits_val_nonneg(shorter);
        assert(digits_val(longer) == digits_val(shorter) * 10 + digit_val(s[j]));
        assert(digits_val(shorter) * 10 >= digits_val(shorter)) by (nonlinear_arith)
            requires digits_val(shorter) >= 0;
        lemma_digits_val_prefix_le(s, j + 1);
    } else {
        assert(s.subrange(0, j) =~= s);
    }
}

/// Scanning past `lo` leading spaces computes `trim_start_spec`.
proof fn lemma_trim_start_at(s: Seq<char>, lo: int)
    requires
        0 <= lo <= s.len(),
        forall|j: int| 0 <= j < lo ==> is_space(s[j]),
        lo < s.len() ==> !is_space(s[lo]),
    ensures
        trim_start_spec(s) == s.subrange(lo, s.len() as int),
    decreases lo,
{
    if lo == 0 {
        assert(s.subrange(0, s.len() as int) =~= s);
    } else {
        let rest = s.drop_first();
        assert(rest =~= s.subrange(1, s.len() as int));
        lemma_trim_start_at(rest, lo - 1);
        assert(rest.subrange(lo - 1, rest.len() as int) =~= s.subrange(lo, s.len() as int));
    }
}

/// Scanning back over trailing spaces down to `hi` computes `trim_end_spec`.
proof fn lemma_trim_end_at(s: Seq<char>, hi: int)
    requires
        0 <= hi <= s.len(),
        forall|j: int| hi <= j < s.len() ==> is_space(s[j]),
        hi > 0 ==> !is_space(s[hi - 1]),
    ensures
        trim_end_spec(s) == s.subrange(0, hi),
    decreases s.len() - hi,
{
    if hi == s.len() {
        if s.len() == 0 {
            assert(s.subrange(0, 0) =~= s);
        } else {
            assert(s.subrange(0, hi) =~= s);
        }
    } else {
        let rest = s.drop_last();
        assert(rest =~= s.subrange(0, s.len() - 1));
        lemma_trim_end_at(rest, hi);
        assert(rest.subrange(0, hi) =~= s.subrange(0, hi));
    }
}

fn is_space_exec(c: char) -> (r: bool)
    ensures
        r == is_space(c),
{
    ('\u{9}' <= c && c <= '\u{d}') || c == ' ' || c == '\u{85}' || c == '\u{a0}'
        || c == '\u{1680}' || ('\u{2000}' <= c && c <= '\u{200a}') || c == '\u{2028}'
        || c == '\u{2029}' || c == '\u{202f}' || c == '\u{205f}' || c == '\u{3000}'
}

/// Parse one input line as a guess.  The line is trimmed, an optional `+`
/// sign is dropped, and what remains must be one or more decimal digits
/// whose value fits in `u32`; any other line is rejected with `None`.
pub fn parse_guess(line: &str) -> (r: Option<u32>)
    ensures
        r == parse_guess_spec(line@),
{
    let n = line.unicode_len();
    let ghost s = line@;

    let mut lo: usize = 0;
    while lo < n && is_space_exec(line.get_char(lo))
        invariant
            0 <= lo <= n,
            n == s.len(),
            s == line@,
            forall|j: int| 0 <= j < lo ==> is_space(s[j]),
        decreases n - lo,
    {
        lo = lo + 1;
    }
    proof {
        lemma_trim_start_at(s, lo as int);
    }
    if lo == n {
        // Nothing but spaces: the trimmed line is empty.
        proof {
            assert(trim_start_spec(s) =~= Seq::<char>::empty());
            assert(trim_spec(s) =~= Seq::<char>::empty());
        }
        return None;
    }

    let mut hi: usize = n;
    while is_space_exec(line.get_char(hi - 1))
        invariant
            lo < hi <= n,
            n == s.len(),
            s == line@,
            !is_space(s[lo as int]),
            forall|j: int| hi <= j < n ==> is_space(s[j]),
        decreases hi,
    {
        hi = hi - 1;
    }
    let ghost t = s.subrange(lo as int, s.len() as int);
    proof {
        assert(forall|j: int| hi - lo <= j < t.len() ==> is_space(t[j]));
        lemma_trim_end_at(t, hi - lo);
        assert(t.subrange(0, hi - lo) =~= s.subrange(lo as int, hi as int));
        assert(trim_spec(s) == s.subrange(lo as int, hi as int));
    }

    // Drop an optional leading plus sign.
    let start: usize = if line.get_char(lo) == '+' {
        lo + 1
    } else {
        lo
    };
    let ghost d = digits_of(trim_spec(s));
    proof {
        assert(d =~= s.subrange(start as int, hi as int));
    }
    if start == hi {
        // A bare sign with no digits.
        return None;
    }

    let mut acc: u32 = 0;
    let mut i: usize = start;
    while i < hi
        invariant
            start <= i <= hi <= n,
            n == s.len(),
            s == line@,
            start < hi,
            d == digits_of(trim_spec(s)),
            d =~= s.subrange(start as int, hi as int),
            forall|j: int| start <= j < i ==> is_digit(s[j]),
            acc as int == digits_val(d.subrange(0, i - start)),
        decreases hi - i,
    {
        let c = line.get_char(i);
        proof {
            assert(d[i - start] == s[i as int]);
        }
        if !(c >= '0' && c <= '9') {
            // A non-digit inside the trimmed line: not a number.
            return None;
        }
        let dig = c as u32 - '0' as u32;
        let wide = (acc as u64) * 10 + (dig as u64);
        proof {
            let prefix = d.subrange(0, i - start);
            let next = d.subrange(0, i + 1 - start);
            assert(next.drop_last() =~= prefix);
            assert(digits_val(next) == digits_val(prefix) * 10 + digit_val(d[i - start]));
        }
        if wide > u32::MAX as u64 {
            // The digits seen so far already exceed the target type.
            proof {
                // Either some later character is not a digit, or the whole
                // digit string is at least as large as this too-large prefix.
                if all_digits(d) {
                    lemma_digits_val_prefix_le(d, i + 1 - start);
                    assert(digits_val(d) > u32::MAX as int);
                }
            }
            return None;
        }
        acc = wide as u32;
        i = i + 1;
    }
    proof {
        assert(d.subrange(0, i - start) =~= d);
        assert(all_digits(d));
    }
    Some(acc)
}

/// Comparing two values in range always yields exactly one of the three
/// verdicts, and the winning verdict exactly when the guess equals the
/// target.
pub proof fn lemma_verdict_trichotomy(guess: int, target: int)
    requires
        1 <= guess <= 100,
        1 <= target <= 100,
    ensures
        verdict_of(guess, target) is TooSmall || verdict_of(guess, target) is TooBig
            || verdict_of(guess, target) is Correct,
        verdict_of(guess, target) is TooSmall <==> guess < target,
        verdict_of(guess, target) is TooBig <==> guess > target,
        verdict_of(guess, target) is Correct <==> guess == target,
{
}

/// Whether the game is still waiting for the right guess or has been won;
/// `Won` is terminal.
#[derive(Clone, Copy, Debug, PartialEq, Eq, Structural)]
pub enum GameState {
    Running,
    Won,
}

/// One game: a fixed target in 1..=100 and the state of the loop around it.
pub struct Game {
    target: u32,
    state: GameState,
}

/// The state after one input line: an unparsable line changes nothing, a
/// guess equal to the target wins, any other guess leaves the state as it
/// was.
pub open spec fn step_state(state: GameState, target: u32, line: Seq<char>) -> GameState {
    match parse_guess_spec(line) {
        Option::None => state,
        Option::Some(g) => if g == target {
            GameState::Won
        } else {
            state
        },
    }
}

/// The verdict an input line earns: none when the line does not parse.
pub open spec fn step_verdict(target: u32, line: Seq<char>) -> Option<Verdict> {
    match parse_guess_spec(line) {
        Option::None => None,
        Option::Some(g) => Some(verdict_of(g as int, target as int)),
    }
}

impl Game {
    /// The target this game was made with.
    pub closed spec fn spec_target(&self) -> u32 {
        self.target
    }

    /// Where the loop stands.
    pub closed spec fn spec_state(&self) -> GameState {
        self.state
    }

    /// The target is within the advertised range.
    pub open spec fn wf(&self) -> bool {
        1 <= self.spec_target() <= 100
    }

    /// Start a game against a known target.  Injecting the target keeps the
    /// loop deterministic; `new_random` draws one instead.
    pub fn new(target: u32) -> (g: Game)
        requires
            1 <= target <= 100,
        ensures
            g.spec_target() == target,
            g.spec_state() is Running,
            g.wf(),
    {
        Game { target, state: GameState::Running }
    }

    /// Start a game against a freshly drawn target.
    pub fn new_random() -> (g: Game)
        ensures
            g.spec_state() is Running,
            g.wf(),
    {
        Game { target: pick_target(), state: GameState::Running }
    }

    /// Whether the winning guess has been made.
    pub fn is_won(&self) -> (b: bool)
        ensures
            b == (self.spec_state() is Won),
    {
        match self.state {
            GameState::Won => true,
            GameState::Running => false,
        }
    }

    /// Feed one input line to the game.  A line that does not parse as a
    /// guess is discarded: no verdict comes back and the game is exactly as
    /// it was.  A line that parses to `g` earns the verdict of `g` against
    /// the target, which it echoes back beside the verdict, and wins the
    /// game exactly when `g` equals the target.
    pub fn guess_line(&mut self, line: &str) -> (r: Option<(u32, Verdict)>)
        ensures
            final(self).spec_target() == old(self).spec_target(),
            final(self).spec_state() == step_state(
                old(self).spec_state(),
                old(self).spec_target(),
                line@,
            ),
            match parse_guess_spec(line@) {
                Option::None => r is None && *final(self) == *old(self),
                Option::Some(g) => r == Some(
                    (g, verdict_of(g as int, old(self).spec_target() as int)),
                ),
            },
    {
        match parse_guess(line) {
            None => None,
            Some(g) => {
                let v = compare_guess(g, self.target);
                if g == self.target {
                    self.state = GameState::Won;
                }
                Some((g, v))
            },
        }
    }
}

/// Feeding a line that does not parse as a guess, once or over and over,
/// leaves the game exactly where it was and earns no verdict.
pub proof fn lemma_unparsable_line_changes_nothing(
    state: GameState,
    target: u32,
    line: Seq<char>,
)
    requires
        parse_guess_spec(line) is None,
    ensures
        step_state(state, target, line) == state,
        step_state(step_state(state, target, line), target, line) == state,
        step_verdict(target, line) is None,
{
}

/// A won game stays won: no further input line moves it anywhere else.
pub proof fn lemma_won_is_terminal(target: u32, line: Seq<char>)
    ensures
        step_state(GameState::Won, target, line) is Won,
{
}

/// Relies on rand's `Rng::gen_range` on the thread-local generator: a draw
/// from `lo..=hi`, which lies within that range and panics only when the
/// range is empty.
#[verifier::external_body]
fn random_in_range(lo: u32, hi: u32) -> (r: u32)
    requires
        lo <= hi,
    ensures
        lo <= r <= hi,
{
    rand::thread_rng().gen_range(lo..=hi)
}

/// Draw a target for a new game, uniformly from 1..=100.
pub fn pick_target() -> (t: u32)
    ensures
        1 <= t <= 100,
{
    random_in_range(1, 100)
}

} // verus!
