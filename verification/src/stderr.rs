//! What the app-server prints on its standard error, made ready for the log.

use vstd::prelude::*;
use crate::text::chars_of;

verus! {

/// How loudly a line is logged.
#[derive(Debug, Clone, Copy, PartialEq, Eq, Structural)]
pub enum Level {
    Error,
    Warn,
    Debug,
    Trace,
}

/// A parameter character of a terminal control sequence.
pub open spec fn control_parameter(c: char) -> bool {
    ('0' <= c && c <= '9') || c == ';'
}

/// The text after a control sequence whose introducer was just passed: its parameters and the one
/// character that ends it are gone.
pub open spec fn after_control(s: Seq<char>) -> Seq<char>
    decreases s.len(),
{
    if s.len() == 0 {
        s
    } else if control_parameter(s[0]) {
        after_control(s.drop_first())
    } else {
        s.drop_first()
    }
}

pub open spec fn introduces_control(s: Seq<char>) -> bool {
    s.len() > 1 && s[0] == '\u{1b}' && s[1] == '['
}

/// Passing over a control sequence never adds text.
pub proof fn lemma_after_control_shrinks(s: Seq<char>)
    ensures
        after_control(s).len() <= s.len(),
    decreases s.len(),
{
    if s.len() > 0 && control_parameter(s[0]) {
        lemma_after_control_shrinks(s.drop_first());
    }
}

/// The text without its terminal control sequences.
pub open spec fn without_controls(s: Seq<char>) -> Seq<char>
    decreases s.len(),
{
    if s.len() == 0 {
        s
    } else if introduces_control(s) {
        proof {
            lemma_after_control_shrinks(s.skip(2));
        }
        without_controls(after_control(s.skip(2)))
    } else {
        seq![s[0]] + without_controls(s.drop_first())
    }
}

/// Removes terminal control sequences and keeps everything else.
pub fn strip_ansi(value: &str) -> (r: String)
    ensures
        r@ == without_controls(value@),
{
    let chars = chars_of(value);
    let mut out = String::new();
    let mut i: usize = 0;
    assert(chars@.skip(0) =~= chars@);
    while i < chars.len()
        invariant
            i <= chars@.len(),
            chars@ == value@,
            without_controls(value@) == out@ + without_controls(chars@.skip(i as int)),
        decreases chars@.len() - i,
    {
        let ghost rest = chars@.skip(i as int);
        if chars[i] == '\u{1b}' && i + 1 < chars.len() && chars[i + 1] == '[' {
            assert(introduces_control(rest));
            assert(rest.skip(2) =~= chars@.skip(i + 2));
            i += 2;
            let ghost target = after_control(chars@.skip(i as int));
            let ghost start = i;
            while i < chars.len() && (('0' <= chars[i] && chars[i] <= '9') || chars[i] == ';')
                invariant
                    start <= i <= chars@.len(),
                    after_control(chars@.skip(i as int)) == target,
                decreases chars@.len() - i,
            {
                assert(chars@.skip(i as int).drop_first() =~= chars@.skip(i + 1));
                i += 1;
            }
            if i < chars.len() {
                assert(chars@.skip(i as int).drop_first() =~= chars@.skip(i + 1));
                i += 1;
            }
            assert(chars@.skip(i as int) =~= target);
        } else {
            assert(!introduces_control(rest));
            let ghost before = out@;
            assert(rest.drop_first() =~= chars@.skip(i + 1));
            out.push(chars[i]);
            assert(before + (seq![rest[0]] + without_controls(chars@.skip(i + 1))) =~= out@ + without_controls(chars@.skip(i + 1)));
            i += 1;
        }
    }
    assert(chars@.skip(i as int) =~= Seq::<char>::empty());
    assert(out@ + Seq::<char>::empty() =~= out@);
    out
}

/// Text without an escape character is kept whole.
pub proof fn law_plain_text_is_kept(s: Seq<char>)
    requires
        !s.contains('\u{1b}'),
    ensures
        without_controls(s) == s,
    decreases s.len(),
{
    if s.len() > 0 {
        let rest = s.drop_first();
        assert(s[0] != '\u{1b}');
        assert(!rest.contains('\u{1b}')) by {
            if rest.contains('\u{1b}') {
                let i = choose|i: int| 0 <= i < rest.len() && rest[i] == '\u{1b}';
                assert(s[i + 1] == '\u{1b}');
            }
        }
        law_plain_text_is_kept(rest);
        assert(seq![s[0]] + rest =~= s);
    }
}

/// `needle` occurs somewhere in `hay`.
pub open spec fn contains_text(hay: Seq<char>, needle: Seq<char>) -> bool {
    exists|i: int| 0 <= i <= hay.len() - needle.len() && #[trigger] hay.subrange(i, i + needle.len()) == needle
}

fn contains(hay: &Vec<char>, needle: &str) -> (r: bool)
    ensures
        r == contains_text(hay@, needle@),
{
    let wanted = chars_of(needle);
    if wanted.len() > hay.len() {
        return false;
    }
    let mut i: usize = 0;
    while i <= hay.len() - wanted.len()
        invariant
            wanted@ == needle@,
            wanted@.len() <= hay@.len() == hay.len(),
            i <= hay@.len() - wanted@.len() + 1,
            forall|k: int| 0 <= k < i ==> #[trigger] hay@.subrange(k, k + wanted@.len()) != wanted@,
        decreases hay@.len() + 1 - i,
    {
        let mut j: usize = 0;
        while j < wanted.len() && hay[i + j] == wanted[j]
            invariant
                i + wanted@.len() <= hay@.len() <= usize::MAX,
                j <= wanted@.len(),
                forall|k: int| 0 <= k < j ==> hay@[i + k] == wanted@[k],
            decreases wanted@.len() - j,
        {
            j += 1;
        }
        if j == wanted.len() {
            assert(hay@.subrange(i as int, i + wanted@.len()) =~= wanted@);
            return true;
        }
        assert(hay@.subrange(i as int, i + wanted@.len())[j as int] != wanted@[j as int]);
        i += 1;
    }
    false
}

/// The text without the line breaks at its end.
pub open spec fn without_final_breaks(s: Seq<char>) -> Seq<char>
    decreases s.len(),
{
    if s.len() > 0 && (s.last() == '\n' || s.last() == '\r') {
        without_final_breaks(s.drop_last())
    } else {
        s
    }
}

/// The level a line announces: the first of error, warning and debug that it names.
pub open spec fn announced_level(line: Seq<char>) -> Level {
    if contains_text(line, " ERROR "@) {
        Level::Error
    } else if contains_text(line, " WARN "@) {
        Level::Warn
    } else if contains_text(line, " DEBUG "@) {
        Level::Debug
    } else {
        Level::Trace
    }
}

/// The line to log and how loudly: control sequences and final line breaks are removed first.
pub fn log_entry(line: &str) -> (r: (Level, String))
    ensures
        r.1@ == without_final_breaks(without_controls(line@)),
        r.0 == announced_level(r.1@),
{
    let mut text = strip_ansi(line);
    let mut done = false;
    while !done
        invariant
            without_final_breaks(text@) == without_final_breaks(without_controls(line@)),
            done ==> text@ == without_final_breaks(text@),
        decreases text@.len(), (if done { 0int } else { 1int }),
    {
        let ghost before = text@;
        match text.pop() {
            Some('\n') => {},
            Some('\r') => {},
            Some(c) => {
                text.push(c);
                assert(text@ =~= before);
                done = true;
            },
            None => {
                done = true;
            },
        }
    }
    let chars = chars_of(text.as_str());
    let level = if contains(&chars, " ERROR ") {
        Level::Error
    } else if contains(&chars, " WARN ") {
        Level::Warn
    } else if contains(&chars, " DEBUG ") {
        Level::Debug
    } else {
        Level::Trace
    };
    (level, text)
}

/// A control sequence is taken out whole: its introducer, its digits and semicolons, and the one character that
/// ends it. What follows is treated as if it stood alone.
pub proof fn law_control_sequences_are_taken_out(parameters: Seq<char>, end: char, rest: Seq<char>)
    requires
        forall|i: int| 0 <= i < parameters.len() ==> ('0' <= #[trigger] parameters[i] && parameters[i] <= '9') || parameters[i] == ';',
        !('0' <= end && end <= '9'),
        end != ';',
    ensures
        without_controls(seq!['\u{1b}', '['] + parameters + seq![end] + rest) == without_controls(rest),
{
    let s = seq!['\u{1b}', '['] + parameters + seq![end] + rest;
    assert(s[0] == '\u{1b}' && s[1] == '[');
    assert(s.skip(2) =~= parameters + seq![end] + rest);
    lemma_passed_over(parameters, end, rest);
}

proof fn lemma_passed_over(parameters: Seq<char>, end: char, rest: Seq<char>)
    requires
        forall|i: int| 0 <= i < parameters.len() ==> control_parameter(#[trigger] parameters[i]),
        !control_parameter(end),
    ensures
        after_control(parameters + seq![end] + rest) == rest,
    decreases parameters.len(),
{
    let s = parameters + seq![end] + rest;
    if parameters.len() == 0 {
        assert(s[0] == end);
        assert(s.drop_first() =~= rest);
    } else {
        assert(s[0] == parameters[0]);
        assert(s.drop_first() =~= parameters.drop_first() + seq![end] + rest);
        assert forall|i: int| 0 <= i < parameters.drop_first().len() implies control_parameter(
            #[trigger] parameters.drop_first()[i],
        ) by {
            assert(parameters.drop_first()[i] == parameters[i + 1]);
        }
        lemma_passed_over(parameters.drop_first(), end, rest);
    }
}

/// Every other character stays where it is: an escape too, unless a bracket follows it.
pub proof fn law_other_characters_stay(c: char, rest: Seq<char>)
    requires
        c != '\u{1b}' || rest.len() == 0 || rest[0] != '[',
    ensures
        without_controls(seq![c] + rest) == seq![c] + without_controls(rest),
        without_controls(Seq::empty()) == Seq::<char>::empty(),
{
    let s = seq![c] + rest;
    assert(s[0] == c);
    assert(s.drop_first() =~= rest);
    if rest.len() > 0 {
        assert(s[1] == rest[0]);
    }
}

/// Line breaks at the end go, all of them, and nothing else does.
pub proof fn law_final_breaks_go(s: Seq<char>)
    ensures
        ({
            let kept = without_final_breaks(s);
            &&& kept.is_prefix_of(s)
            &&& forall|i: int| kept.len() <= i < s.len() ==> (#[trigger] s[i] == '\n' || s[i] == '\r')
            &&& kept.len() > 0 ==> kept.last() != '\n' && kept.last() != '\r'
        }),
    decreases s.len(),
{
    if s.len() > 0 && (s.last() == '\n' || s.last() == '\r') {
        let front = s.drop_last();
        law_final_breaks_go(front);
        let kept = without_final_breaks(s);
        assert(kept =~= s.subrange(0, kept.len() as int)) by {
            assert(kept =~= front.subrange(0, kept.len() as int));
        }
        assert forall|i: int| kept.len() <= i < s.len() implies (#[trigger] s[i] == '\n' || s[i] == '\r') by {
            if i < front.len() {
                assert(front[i] == s[i]);
            }
        }
    } else {
        assert(s =~= s.subrange(0, s.len() as int));
    }
}

/// A line is as loud as the loudest word that stands in it between spaces.
pub proof fn law_the_loudest_word_counts(before: Seq<char>, after: Seq<char>, line: Seq<char>)
    ensures
        announced_level(before + " ERROR "@ + after) is Error,
        announced_level(before + " WARN "@ + after) is Error || announced_level(before + " WARN "@ + after) is Warn,
        !(announced_level(before + " DEBUG "@ + after) is Trace),
        announced_level(line) is Error <==> contains_text(line, " ERROR "@),
        announced_level(line) is Warn ==> contains_text(line, " WARN "@),
        announced_level(line) is Debug ==> contains_text(line, " DEBUG "@),
{
    lemma_held_between(before, " ERROR "@, after);
    lemma_held_between(before, " WARN "@, after);
    lemma_held_between(before, " DEBUG "@, after);
}

proof fn lemma_held_between(before: Seq<char>, needle: Seq<char>, after: Seq<char>)
    ensures
        contains_text(before + needle + after, needle),
{
    let hay = before + needle + after;
    let i = before.len() as int;
    assert(hay.subrange(i, i + needle.len()) =~= needle);
}

/// A text is found in another exactly where that one can be split around it.
pub proof fn law_found_text_splits_its_line(hay: Seq<char>, needle: Seq<char>)
    ensures
        contains_text(hay, needle) <==> exists|before: Seq<char>, after: Seq<char>| hay == #[trigger] (before + needle + after),
{
    if contains_text(hay, needle) {
        let i = choose|i: int|
            0 <= i <= hay.len() - needle.len() && #[trigger] hay.subrange(i, i + needle.len()) == needle;
        let before = hay.take(i);
        let after = hay.skip(i + needle.len());
        assert(hay =~= before + needle + after) by {
            assert forall|k: int| 0 <= k < hay.len() implies hay[k] == #[trigger] (before + needle + after)[k] by {
                if i <= k < i + needle.len() {
                    assert(hay.subrange(i, i + needle.len())[k - i] == hay[k]);
                }
            }
        }
    }
    if exists|before: Seq<char>, after: Seq<char>| hay == #[trigger] (before + needle + after) {
        let (before, after) = choose|before: Seq<char>, after: Seq<char>| hay == #[trigger] (before + needle + after);
        lemma_held_between(before, needle, after);
    }
}

} // verus!
