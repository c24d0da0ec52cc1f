//! Text primitives shared by every module: blankness, equality, search and decimal rendering.

use vstd::prelude::*;
use vstd::string::*;
use vstd::utf8::*;

verus! {

/// `String::push` appends one character at the end.
pub assume_specification[ String::push ](s: &mut String, c: char)
    ensures
        final(s)@ == old(s)@.push(c),
;

/// `String::from` for a string slice keeps its characters.
pub assume_specification<'a>[ <String as std::convert::From<&'a str>>::from ](s: &str) -> (r: String)
    ensures
        r@ == s@,
;

/// `String::pop` removes and returns the last character; an empty string stays empty.
pub assume_specification[ String::pop ](s: &mut String) -> (last: Option<char>)
    ensures
        old(s)@.len() == 0 ==> last is None && final(s)@ == old(s)@,
        old(s)@.len() > 0 ==> last == Some(old(s)@.last()) && final(s)@ == old(s)@.drop_last(),
;

/// The Unicode `White_Space` code points.
pub open spec fn whitespace(c: char) -> bool {
    let code = c as u32;
    ||| 0x9 <= code <= 0xd
    ||| code == 0x20 || code == 0x85 || code == 0xa0 || code == 0x1680
    ||| 0x2000 <= code <= 0x200a
    ||| code == 0x2028 || code == 0x2029 || code == 0x202f || code == 0x205f || code == 0x3000
}

/// Nothing but white space: what trimming would leave empty.
pub open spec fn blank(s: Seq<char>) -> bool {
    forall|i: int| 0 <= i < s.len() ==> whitespace(#[trigger] s[i])
}

pub fn is_whitespace(c: char) -> (r: bool)
    ensures
        r == whitespace(c),
{
    let code: u32 = c as u32;
    (0x9 <= code && code <= 0xd) || code == 0x20 || code == 0x85 || code == 0xa0 || code == 0x1680
        || (0x2000 <= code && code <= 0x200a) || code == 0x2028 || code == 0x2029 || code == 0x202f
        || code == 0x205f || code == 0x3000
}

pub fn is_blank(s: &str) -> (r: bool)
    ensures
        r == blank(s@),
{
    for c in it: s.chars()
        invariant
            it.seq() == s@,
            forall|i: int| 0 <= i < it.index() ==> whitespace(#[trigger] s@[i]),
    {
        if !is_whitespace(c) {
            assert(s@[it.index()] == c);
            return false;
        }
    }
    true
}

/// The characters of `s`, in order.
pub fn chars_of(s: &str) -> (r: Vec<char>)
    ensures
        r@ == s@,
{
    let mut out: Vec<char> = Vec::new();
    for c in it: s.chars()
        invariant
            it.seq() == s@,
            out@ == s@.take(it.index() as int),
    {
        out.push(c);
        assert(s@.take(it.index() as int).push(c) =~= s@.take(it.index() + 1));
    }
    assert(s@.take(s@.len() as int) =~= s@);
    out
}

/// Character-for-character equality.
pub fn same(a: &str, b: &str) -> (r: bool)
    ensures
        r == (a@ == b@),
{
    let left = a.as_bytes();
    let right = b.as_bytes();
    proof {
        encode_utf8_decode_utf8(a@);
        encode_utf8_decode_utf8(b@);
    }
    if left.len() != right.len() {
        return false;
    }
    let mut i: usize = 0;
    while i < left.len()
        invariant
            i <= left@.len(),
            left@.len() == right@.len(),
            left@ == encode_utf8(a@),
            right@ == encode_utf8(b@),
            forall|k: int| 0 <= k < i ==> left@[k] == right@[k],
        decreases left@.len() - i,
    {
        if left[i] != right[i] {
            return false;
        }
        i += 1;
    }
    assert(left@ =~= right@);
    true
}

/// The character for a digit below ten.
pub open spec fn digit(d: nat) -> char {
    (48 + d) as char
}

/// The usual decimal numeral, without leading zeros.
pub open spec fn decimal(n: nat) -> Seq<char>
    decreases n,
{
    if n < 10 {
        seq![digit(n)]
    } else {
        decimal(n / 10).push(digit(n % 10))
    }
}

/// The decimal numeral of a signed number.
pub open spec fn signed_decimal(n: int) -> Seq<char> {
    if n < 0 {
        seq!['-'] + decimal((-n) as nat)
    } else {
        decimal(n as nat)
    }
}

/// Appends the decimal numeral of `n`.
pub fn push_decimal(out: &mut String, n: u64)
    ensures
        final(out)@ == old(out)@ + decimal(n as nat),
    decreases n,
{
    let ghost before = out@;
    if n >= 10 {
        push_decimal(out, n / 10);
    }
    let d: u8 = (n % 10) as u8;
    let c: char = (48u8 + d) as char;
    assert(c == digit((n % 10) as nat));
    out.push(c);
    assert(out@ =~= before + decimal(n as nat));
}

/// Appends the decimal numeral of a signed number.
pub fn push_signed(out: &mut String, n: i64)
    ensures
        final(out)@ == old(out)@ + signed_decimal(n as int),
{
    let ghost before = out@;
    if n < 0 {
        out.push('-');
        let magnitude: u64 = (-(n as i128)) as u64;
        push_decimal(out, magnitude);
        assert(out@ =~= before + signed_decimal(n as int));
    } else {
        push_decimal(out, n as u64);
    }
}

/// The line without its `\n` or `\r\n` ending.
pub open spec fn without_line_ending(line: Seq<char>) -> Seq<char> {
    if line.len() > 0 && line.last() == '\n' {
        let body = line.drop_last();
        if body.len() > 0 && body.last() == '\r' {
            body.drop_last()
        } else {
            body
        }
    } else {
        line
    }
}

/// Removes one line ending, if there is one.
pub fn trim_line_ending(line: &mut String)
    ensures
        final(line)@ == without_line_ending(old(line)@),
{
    let ghost before = line@;
    match line.pop() {
        Some('\n') => {
            let ghost body = line@;
            match line.pop() {
                Some('\r') => {},
                Some(c) => {
                    line.push(c);
                    assert(line@ =~= body);
                },
                None => {},
            }
        },
        Some(c) => {
            line.push(c);
            assert(line@ =~= before);
        },
        None => {},
    }
}

/// The first character that is not white space, if there is one.
pub open spec fn first_visible(s: Seq<char>) -> Option<char>
    decreases s.len(),
{
    if s.len() == 0 {
        None
    } else if whitespace(s[0]) {
        first_visible(s.drop_first())
    } else {
        Some(s[0])
    }
}

pub(crate) proof fn lemma_first_visible(s: Seq<char>, at: int)
    requires
        0 <= at < s.len(),
        !whitespace(s[at]),
        forall|i: int| 0 <= i < at ==> whitespace(#[trigger] s[i]),
    ensures
        first_visible(s) == Some(s[at]),
    decreases at,
{
    if at > 0 {
        assert(whitespace(s[0]));
        assert forall|i: int| 0 <= i < at - 1 implies whitespace(#[trigger] s.drop_first()[i]) by {
            assert(s.drop_first()[i] == s[i + 1]);
        }
        lemma_first_visible(s.drop_first(), at - 1);
    }
}

proof fn lemma_nothing_visible(s: Seq<char>)
    requires
        blank(s),
    ensures
        first_visible(s) is None,
    decreases s.len(),
{
    if s.len() > 0 {
        assert(whitespace(s[0]));
        assert forall|i: int| 0 <= i < s.drop_first().len() implies whitespace(#[trigger] s.drop_first()[i]) by {
            assert(s.drop_first()[i] == s[i + 1]);
        }
        lemma_nothing_visible(s.drop_first());
    }
}

/// What a line starts with once leading white space is passed over.
pub fn first_visible_char(s: &str) -> (r: Option<char>)
    ensures
        r == first_visible(s@),
{
    for c in it: s.chars()
        invariant
            it.seq() == s@,
            forall|i: int| 0 <= i < it.index() ==> whitespace(#[trigger] s@[i]),
    {
        if !is_whitespace(c) {
            proof {
                lemma_first_visible(s@, it.index() as int);
            }
            return Some(c);
        }
    }
    proof {
        lemma_nothing_visible(s@);
    }
    None
}

/// How many bytes a character takes in UTF-8.
pub open spec fn width(c: char) -> nat {
    encode_scalar(c as u32).len()
}

/// The longest prefix of whole characters that takes at most `limit` bytes in UTF-8.
pub open spec fn preview(s: Seq<char>, limit: nat) -> Seq<char>
    decreases s.len(),
{
    if s.len() > 0 && width(s[0]) <= limit {
        seq![s[0]] + preview(s.drop_first(), (limit - width(s[0])) as nat)
    } else {
        Seq::empty()
    }
}

/// A preview is a prefix and never exceeds its byte limit.
pub proof fn law_preview_is_bounded(s: Seq<char>, limit: nat)
    ensures
        encode_utf8(preview(s, limit)).len() <= limit,
        preview(s, limit).len() <= s.len(),
        preview(s, limit) == s.take(preview(s, limit).len() as int),
        encode_utf8(s).len() <= limit ==> preview(s, limit) == s,
    decreases s.len(),
{
    let p = preview(s, limit);
    if s.len() > 0 && width(s[0]) <= limit {
        let rest = preview(s.drop_first(), (limit - width(s[0])) as nat);
        law_preview_is_bounded(s.drop_first(), (limit - width(s[0])) as nat);
        assert(p.drop_first() =~= rest);
        assert(p =~= s.take(p.len() as int)) by {
            assert forall|i: int| 0 <= i < p.len() implies p[i] == s[i] by {
                if i > 0 {
                    assert(rest[i - 1] == s.drop_first()[i - 1]);
                }
            }
        }
        if encode_utf8(s).len() <= limit {
            assert(p =~= s);
        }
    } else {
        assert(p =~= s.take(0));
        if s.len() == 0 {
            assert(p =~= s);
        }
    }
}

/// How many bytes a character takes in UTF-8.
fn width_of(c: char) -> (r: usize)
    ensures
        r == width(c),
        1 <= r <= 4,
{
    proof {
        char_is_scalar(c);
    }
    let code: u32 = c as u32;
    if code < 0x80 {
        1
    } else if code < 0x800 {
        2
    } else if code < 0x10000 {
        3
    } else {
        4
    }
}

/// As much of `value` as fits into `limit` bytes without splitting a character.
pub fn bounded_utf8_preview(value: &str, limit: usize) -> (r: String)
    ensures
        r@ == preview(value@, limit as nat),
{
    let mut out = String::new();
    let mut left: usize = limit;
    assert(value@.skip(0) =~= value@);
    for c in it: value.chars()
        invariant
            it.seq() == value@,
            preview(value@, limit as nat) == out@ + preview(value@.skip(it.index() as int), left as nat),
    {
        let ghost at = it.index() as int;
        assert(value@.skip(at)[0] == c);
        let w: usize = width_of(c);
        if w > left {
            assert(out@ + Seq::<char>::empty() =~= out@);
            return out;
        }
        let ghost before = out@;
        assert(value@.skip(at).drop_first() =~= value@.skip(at + 1));
        out.push(c);
        left = left - w;
        assert(before + (seq![c] + preview(value@.skip(at + 1), left as nat)) =~= out@ + preview(value@.skip(at + 1), left as nat));
    }
    assert(value@.skip(value@.len() as int).len() == 0);
    assert(out@ + Seq::<char>::empty() =~= out@);
    out
}

/// A line ending is one line feed, with a carriage return before it or not; nothing else is taken off.
pub proof fn law_one_line_ending_is_taken_off(line: Seq<char>)
    requires
        line.len() == 0 || line.last() != '\n' && line.last() != '\r',
    ensures
        without_line_ending(line) == line,
        without_line_ending(line.push('\n')) == line,
        without_line_ending(line.push('\r').push('\n')) == line,
        without_line_ending(line.push('\r')) == line.push('\r'),
        without_line_ending(line.push('\n').push('\n')) == line.push('\n'),
{
    assert(line.push('\n').drop_last() =~= line);
    assert(line.push('\r').push('\n').drop_last() =~= line.push('\r'));
    assert(line.push('\r').drop_last() =~= line);
    assert(line.push('\n').push('\n').drop_last() =~= line.push('\n'));
}

/// What is not white space is visible: nothing blank holds it, and what a line starts with is the first of it.
pub proof fn law_blank_text_shows_nothing(s: Seq<char>)
    ensures
        first_visible(s) is None <==> blank(s),
        first_visible(s) matches Some(c) ==> exists|i: int|
            0 <= i < s.len() && #[trigger] s[i] == c && !whitespace(c) && forall|k: int| 0 <= k < i ==> whitespace(#[trigger] s[k]),
    decreases s.len(),
{
    if s.len() > 0 {
        if whitespace(s[0]) {
            let rest = s.drop_first();
            law_blank_text_shows_nothing(rest);
            if let Some(c) = first_visible(rest) {
                let i = choose|i: int|
                    0 <= i < rest.len() && #[trigger] rest[i] == c && !whitespace(c) && forall|k: int|
                        0 <= k < i ==> whitespace(#[trigger] rest[k]);
                assert(s[i + 1] == c);
                assert forall|k: int| 0 <= k < i + 1 implies whitespace(#[trigger] s[k]) by {
                    if k > 0 {
                        assert(s[k] == rest[k - 1]);
                    }
                }
            } else {
                assert forall|k: int| 0 <= k < s.len() implies whitespace(#[trigger] s[k]) by {
                    if k > 0 {
                        assert(s[k] == rest[k - 1]);
                    }
                }
            }
        } else {
            assert(s[0] == s[0]);
        }
    }
}

/// No printable character of ASCII is white space but the space, and the controls that move the pen are.
pub proof fn law_printable_characters_are_visible(c: char)
    ensures
        '!' <= c && c <= '~' ==> !whitespace(c),
        c == ' ' || c == '\t' || c == '\n' || c == '\r' ==> whitespace(c),
{
}

/// A numeral tells its number: the last digit is the remainder by ten and the digits before it are the numeral
/// of the tenth part, so that different numbers read differently.
pub proof fn law_numerals_tell_their_number(n: nat, m: nat)
    ensures
        decimal(n) == decimal(m) ==> n == m,
        decimal(n).len() > 0,
        forall|i: int| 0 <= i < decimal(n).len() ==> '0' <= #[trigger] decimal(n)[i] && decimal(n)[i] <= '9',
        n < 10 ==> decimal(n) == seq![(48 + n) as char],
        n >= 10 ==> decimal(n) == decimal(n / 10).push((48 + n % 10) as char),
    decreases n,
{
    if n >= 10 {
        law_numerals_tell_their_number(n / 10, m / 10);
        let front = decimal(n / 10);
        assert(decimal(n) == front.push(digit(n % 10)));
        if decimal(n) == decimal(m) {
            lemma_numerals_are_long(m / 10);
            if m >= 10 {
                assert(decimal(n).drop_last() =~= decimal(n / 10));
                assert(decimal(m).drop_last() =~= decimal(m / 10));
                assert(decimal(n).last() == digit(n % 10) && decimal(m).last() == digit(m % 10));
            } else {
                assert(decimal(m).len() == 1);
            }
        }
    } else if decimal(n) == decimal(m) {
        lemma_numerals_are_long(m / 10);
        if m >= 10 {
            assert(decimal(m).len() >= 2);
        } else {
            assert(decimal(n)[0] == digit(n) && decimal(m)[0] == digit(m));
        }
    }
}

proof fn lemma_numerals_are_long(n: nat)
    ensures
        decimal(n).len() > 0,
    decreases n,
{
    if n >= 10 {
        lemma_numerals_are_long(n / 10);
    }
}

/// A negative number reads as a minus and the numeral of its size, any other as that numeral alone.
pub proof fn law_signs_are_written(n: nat)
    ensures
        signed_decimal(n as int) == decimal(n),
        n > 0 ==> signed_decimal(-n) == seq!['-'] + decimal(n),
{
}

/// What counts as white space, character by character.
pub proof fn law_white_space_is_what_unicode_says(c: char)
    ensures
        whitespace(c) <==> {
            ||| c == ' ' || ('\t' <= c && c <= '\r')
            ||| c == '\u{85}' || c == '\u{a0}' || c == '\u{1680}'
            ||| ('\u{2000}' <= c && c <= '\u{200a}')
            ||| c == '\u{2028}' || c == '\u{2029}' || c == '\u{202f}' || c == '\u{205f}' || c == '\u{3000}'
        },
{
}

} // verus!
