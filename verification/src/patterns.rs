//! Which regular expressions are matched without going back over the text.

use vstd::prelude::*;
use crate::text::chars_of;

verus! {

/// An escape that asks for what was matched before, or for what stands around a place.
pub open spec fn backward_escape(c: char) -> bool {
    ('0' <= c && c <= '9') || c == 'b' || c == 'B' || c == '<' || c == '>'
}

/// An escape whose name may follow in braces.
pub open spec fn named_escape(c: char) -> bool {
    c == 'p' || c == 'P' || c == 'x' || c == 'u' || c == 'U'
}

pub open spec fn flag(c: char) -> bool {
    c == 'i' || c == 'm' || c == 's' || c == 'u' || c == 'U' || c == '-'
}

/// From `n` on stand flags alone, up to the end of their group or to a colon. The flag under which spaces
/// do not count is left out.
pub open spec fn plain_flags(pattern: Seq<char>, n: nat) -> bool
    decreases pattern.len() - n,
{
    n < pattern.len() && (pattern[n as int] == ':' || pattern[n as int] == ')' || flag(pattern[n as int]) && plain_flags(
        pattern,
        n + 1,
    ))
}

/// From `n` on, just inside a group with an option: a name or flags, and no looking around.
pub open spec fn plain_option(pattern: Seq<char>, n: nat) -> bool {
    &&& n < pattern.len()
    &&& if pattern[n as int] == 'P' {
        n + 1 < pattern.len() && pattern[n as int + 1] == '<'
    } else if pattern[n as int] == '<' {
        n + 1 < pattern.len() && pattern[n as int + 1] != '=' && pattern[n as int + 1] != '!'
    } else {
        plain_flags(pattern, n)
    }
}

/// What stands right before a place in a pattern.
#[derive(Debug, Clone, Copy, PartialEq, Eq, Structural)]
pub enum Before {
    /// A repetition.
    Count,
    /// The name of an escape, in braces that are still open.
    Name,
    Other,
}

/// The pattern from `n` on is plain, inside `depth` brackets: no looking around, no reference to what was
/// matched, no repetition that keeps what it took.
pub open spec fn plain_from(pattern: Seq<char>, n: nat, depth: nat, before: Before) -> bool
    decreases pattern.len() - n,
{
    if n >= pattern.len() {
        true
    } else {
        let c = pattern[n as int];
        if before == Before::Name {
            plain_from(
                pattern,
                n + 1,
                depth,
                if c == '}' {
                    Before::Other
                } else {
                    Before::Name
                },
            )
        } else if c == '\\' {
            if n + 1 >= pattern.len() {
                true
            } else if depth == 0 && backward_escape(pattern[n as int + 1]) {
                false
            } else {
                plain_from(
                    pattern,
                    n + 2,
                    depth,
                    if named_escape(pattern[n as int + 1]) && n + 2 < pattern.len() && pattern[n as int + 2] == '{' {
                        Before::Name
                    } else {
                        Before::Other
                    },
                )
            }
        } else if c == '[' {
            plain_from(pattern, n + 1, depth + 1, Before::Other)
        } else if depth > 0 {
            plain_from(
                pattern,
                n + 1,
                if c == ']' {
                    (depth - 1) as nat
                } else {
                    depth
                },
                Before::Other,
            )
        } else if c == '(' && n + 1 < pattern.len() && pattern[n as int + 1] == '?' {
            plain_option(pattern, n + 2) && plain_from(pattern, n + 2, 0, Before::Other)
        } else if c == '*' || c == '+' || c == '?' || c == '}' {
            !(before == Before::Count && c == '+') && plain_from(pattern, n + 1, 0, Before::Count)
        } else {
            plain_from(pattern, n + 1, 0, Before::Other)
        }
    }
}

/// A pattern that is matched without going back over the text.
pub open spec fn plain_pattern(pattern: Seq<char>) -> bool {
    plain_from(pattern, 0, 0, Before::Other)
}

fn are_plain_flags(pattern: &Vec<char>, from: usize) -> (r: bool)
    requires
        from <= pattern@.len(),
    ensures
        r == plain_flags(pattern@, from as nat),
{
    let mut n: usize = from;
    while n < pattern.len()
        invariant
            n <= pattern@.len(),
            plain_flags(pattern@, from as nat) == plain_flags(pattern@, n as nat),
        decreases pattern@.len() - n,
    {
        let c: char = pattern[n];
        if c == ':' || c == ')' {
            return true;
        }
        if !(c == 'i' || c == 'm' || c == 's' || c == 'u' || c == 'U' || c == '-') {
            return false;
        }
        n += 1;
    }
    false
}

fn is_plain_option(pattern: &Vec<char>, n: usize) -> (r: bool)
    requires
        n <= pattern@.len(),
    ensures
        r == plain_option(pattern@, n as nat),
{
    let end: usize = pattern.len();
    if n >= end {
        return false;
    }
    if pattern[n] == 'P' {
        end - n > 1 && pattern[n + 1] == '<'
    } else if pattern[n] == '<' {
        end - n > 1 && pattern[n + 1] != '=' && pattern[n + 1] != '!'
    } else {
        are_plain_flags(pattern, n)
    }
}

pub fn is_plain_pattern(pattern: &str) -> (r: bool)
    ensures
        r == plain_pattern(pattern@),
{
    let chars = chars_of(pattern);
    let end: usize = chars.len();
    let mut n: usize = 0;
    let mut depth: usize = 0;
    let mut before = Before::Other;
    while n < end
        invariant
            chars@ == pattern@,
            end == chars@.len(),
            n <= end,
            depth <= n,
            plain_pattern(pattern@) == plain_from(pattern@, n as nat, depth as nat, before),
        decreases end - n,
    {
        let c: char = chars[n];
        if before == Before::Name {
            if c == '}' {
                before = Before::Other;
            }
            n += 1;
        } else if c == '\\' {
            if end - n < 2 {
                return true;
            }
            let e: char = chars[n + 1];
            if depth == 0 && (('0' <= e && e <= '9') || e == 'b' || e == 'B' || e == '<' || e == '>') {
                return false;
            }
            let named = e == 'p' || e == 'P' || e == 'x' || e == 'u' || e == 'U';
            before = if named && end - n > 2 && chars[n + 2] == '{' {
                Before::Name
            } else {
                Before::Other
            };
            n += 2;
        } else if c == '[' {
            depth += 1;
            before = Before::Other;
            n += 1;
        } else if depth > 0 {
            if c == ']' {
                depth -= 1;
            }
            before = Before::Other;
            n += 1;
        } else if c == '(' && end - n > 1 && chars[n + 1] == '?' {
            if !is_plain_option(&chars, n + 2) {
                return false;
            }
            before = Before::Other;
            n += 2;
        } else if c == '*' || c == '+' || c == '?' || c == '}' {
            if before == Before::Count && c == '+' {
                return false;
            }
            before = Before::Count;
            n += 1;
        } else {
            before = Before::Other;
            n += 1;
        }
    }
    true
}

/// Letters and digits alone are matched without going back.
pub proof fn law_words_are_plain(pattern: Seq<char>)
    requires
        forall|i: int|
            0 <= i < pattern.len() ==> ('a' <= #[trigger] pattern[i] && pattern[i] <= 'z') || ('A' <= pattern[i] && pattern[i]
                <= 'Z') || ('0' <= pattern[i] && pattern[i] <= '9'),
    ensures
        plain_pattern(pattern),
{
    lemma_words_are_plain(pattern, 0);
}

proof fn lemma_words_are_plain(pattern: Seq<char>, n: nat)
    requires
        forall|i: int|
            0 <= i < pattern.len() ==> ('a' <= #[trigger] pattern[i] && pattern[i] <= 'z') || ('A' <= pattern[i] && pattern[i]
                <= 'Z') || ('0' <= pattern[i] && pattern[i] <= '9'),
    ensures
        plain_from(pattern, n, 0, Before::Other),
    decreases pattern.len() - n,
{
    if n < pattern.len() {
        assert(pattern[n as int] != '\\');
        lemma_words_are_plain(pattern, n + 1);
    }
}

/// What looks ahead or behind, and what asks for an earlier match, is not.
pub proof fn law_looking_around_is_not_plain(rest: Seq<char>, digit: char)
    requires
        '0' <= digit && digit <= '9',
    ensures
        !plain_pattern(seq!['(', '?', '='] + rest),
        !plain_pattern(seq!['(', '?', '!'] + rest),
        !plain_pattern(seq!['(', '?', '<', '='] + rest),
        !plain_pattern(seq!['(', '?', '<', '!'] + rest),
        !plain_pattern(seq!['\\', digit] + rest),
{
    let ahead = seq!['(', '?', '='] + rest;
    let not_ahead = seq!['(', '?', '!'] + rest;
    let behind = seq!['(', '?', '<', '='] + rest;
    let not_behind = seq!['(', '?', '<', '!'] + rest;
    let earlier = seq!['\\', digit] + rest;
    assert(ahead[0] == '(' && ahead[1] == '?' && ahead[2] == '=');
    assert(not_ahead[0] == '(' && not_ahead[1] == '?' && not_ahead[2] == '!');
    assert(behind[0] == '(' && behind[1] == '?' && behind[2] == '<' && behind[3] == '=');
    assert(not_behind[0] == '(' && not_behind[1] == '?' && not_behind[2] == '<' && not_behind[3] == '!');
    assert(earlier[0] == '\\' && earlier[1] == digit);
    assert(!plain_flags(ahead, 2));
    assert(!plain_flags(not_ahead, 2));
}

} // verus!
