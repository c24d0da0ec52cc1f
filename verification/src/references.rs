//! Where the references of a JSON Schema document lead.
//!
//! A document may hold parts with addresses of their own. Which of them an address in a reference means
//! is not worked out in full: whatever it may mean counts.

use vstd::prelude::*;
use vstd::string::*;
use vstd::utf8::*;
use crate::json::{array_view, lemma_array_view, member, text_at, Json, JsonView};
use crate::parts::{inside, is_part_of, lemma_pushed, part_of, parts, parts_inside, same_json, views};
use crate::protocol::lossy;
use crate::text::{chars_of, decimal, push_decimal, same};

verus! {

/// The dialects of JSON Schema.
#[derive(Debug, Clone, Copy, PartialEq, Eq, Structural)]
pub enum Dialect {
    Draft4,
    Draft6,
    Draft7,
    Draft2019,
    Draft2020,
}

/// The dialects with `unevaluatedProperties` and `unevaluatedItems`, in which keywords beside `$ref`
/// count.
pub open spec fn modern(dialect: Dialect) -> bool {
    dialect == Dialect::Draft2019 || dialect == Dialect::Draft2020
}

pub(crate) fn is_modern(dialect: Dialect) -> (r: bool)
    ensures
        r == modern(dialect),
{
    dialect == Dialect::Draft2019 || dialect == Dialect::Draft2020
}

// Texts.

/// The last place of `c`, or -1.
pub open spec fn last_of(text: Seq<char>, c: char) -> int
    decreases text.len(),
{
    if text.len() == 0 {
        -1
    } else if text.last() == c {
        text.len() - 1
    } else {
        last_of(text.drop_last(), c)
    }
}

/// The first place from `n` on that ends a scheme, or the length.
pub open spec fn scheme_stop(text: Seq<char>, n: nat) -> nat
    decreases text.len() - n,
{
    if n >= text.len() {
        text.len()
    } else if text[n as int] == ':' || text[n as int] == '/' || text[n as int] == '?' || text[n as int] == '#' {
        n
    } else {
        scheme_stop(text, n + 1)
    }
}

/// The first place from `n` on that ends a path, or the length.
pub open spec fn path_stop(text: Seq<char>, n: nat) -> nat
    decreases text.len() - n,
{
    if n >= text.len() {
        text.len()
    } else if text[n as int] == '?' || text[n as int] == '#' {
        n
    } else {
        path_stop(text, n + 1)
    }
}

/// An address that begins with a scheme.
pub open spec fn has_scheme(address: Seq<char>) -> bool {
    let stop = scheme_stop(address, 0);
    0 < stop < address.len() && address[stop as int] == ':'
}

pub open spec fn scheme(address: Seq<char>) -> Seq<char> {
    address.take(scheme_stop(address, 0) as int)
}

/// The path of an address, with the authority before it.
pub open spec fn path(address: Seq<char>) -> Seq<char> {
    let rest = if has_scheme(address) {
        address.skip((scheme_stop(address, 0) + 1) as int)
    } else {
        address
    };
    rest.take(path_stop(rest, 0) as int)
}

/// The last segment of a path; none where the path is an authority alone.
pub open spec fn last_segment(path: Seq<char>) -> Seq<char> {
    let slash = last_of(path, '/');
    if slash > 0 && path[slash - 1] == '/' {
        Seq::empty()
    } else {
        path.skip(slash + 1)
    }
}

pub open spec fn dots(segment: Seq<char>) -> bool {
    segment == seq!['.'] || segment == seq!['.', '.']
}

/// An address whose last segment does not tell it apart.
pub open spec fn vague(address: Seq<char>) -> bool {
    path(address).len() == 0 || dots(last_segment(path(address))) || address.contains('%')
}

pub open spec fn has_capitals(text: Seq<char>) -> bool {
    exists|i: int| 0 <= i < text.len() && 'A' <= #[trigger] text[i] && text[i] <= 'Z'
}

/// Two addresses may be the same, taken against whatever base.
pub open spec fn may_agree(a: Seq<char>, b: Seq<char>) -> bool {
    &&& has_scheme(a) && has_scheme(b) && !has_capitals(scheme(a)) && !has_capitals(scheme(b)) ==> scheme(a) == scheme(b)
    &&& vague(a) || vague(b) || last_segment(path(a)) == last_segment(path(b))
}

/// An address that comes out the same when it is taken against itself.
pub open spec fn settled_address(address: Seq<char>) -> bool {
    ||| has_scheme(address)
    ||| path(address).len() > 0 && path(address)[0] == '/'
    ||| last_of(path(address), '/') < 0 && !dots(path(address))
}

pub(crate) fn subtext(text: &Vec<char>, from: usize, to: usize) -> (r: Vec<char>)
    requires
        from <= to <= text@.len(),
    ensures
        r@ == text@.subrange(from as int, to as int),
{
    let mut out: Vec<char> = Vec::new();
    let mut i: usize = from;
    while i < to
        invariant
            from <= i <= to <= text@.len(),
            out@ == text@.subrange(from as int, i as int),
        decreases to - i,
    {
        out.push(text[i]);
        assert(out@ =~= text@.subrange(from as int, i + 1));
        i += 1;
    }
    out
}

pub(crate) fn text_from(chars: &Vec<char>) -> (r: String)
    ensures
        r@ == chars@,
{
    let mut out = "".to_owned();
    let mut i: usize = 0;
    proof {
        reveal_strlit("");
        assert(out@ =~= chars@.take(0));
    }
    while i < chars.len()
        invariant
            i <= chars@.len(),
            out@ == chars@.take(i as int),
        decreases chars@.len() - i,
    {
        out.push(chars[i]);
        assert(out@ =~= chars@.take(i + 1));
        i += 1;
    }
    assert(chars@.take(i as int) =~= chars@);
    out
}

fn same_chars(a: &Vec<char>, b: &Vec<char>) -> (r: bool)
    ensures
        r == (a@ == b@),
{
    if a.len() != b.len() {
        return false;
    }
    let mut i: usize = 0;
    while i < a.len()
        invariant
            i <= a@.len() == b@.len(),
            forall|k: int| 0 <= k < i ==> a@[k] == b@[k],
        decreases a@.len() - i,
    {
        if a[i] != b[i] {
            return false;
        }
        i += 1;
    }
    assert(a@ =~= b@);
    true
}

fn holds_char(text: &Vec<char>, c: char) -> (r: bool)
    ensures
        r == text@.contains(c),
{
    let mut i: usize = 0;
    while i < text.len()
        invariant
            i <= text@.len(),
            forall|j: int| 0 <= j < i ==> text@[j] != c,
        decreases text@.len() - i,
    {
        if text[i] == c {
            return true;
        }
        i += 1;
    }
    false
}

/// The place after the last `c`; zero where there is none.
fn after_last(text: &Vec<char>, c: char) -> (r: usize)
    ensures
        r == last_of(text@, c) + 1,
        r <= text@.len(),
{
    let mut i: usize = text.len();
    assert(text@.take(i as int) =~= text@);
    while i > 0
        invariant
            i <= text@.len(),
            last_of(text@, c) == last_of(text@.take(i as int), c),
        decreases i,
    {
        let ghost head = text@.take(i as int);
        assert(head.last() == text@[i - 1]);
        assert(head.drop_last() =~= text@.take(i - 1));
        if text[i - 1] == c {
            return i;
        }
        i -= 1;
    }
    0
}

fn find_scheme_stop(text: &Vec<char>) -> (r: usize)
    ensures
        r == scheme_stop(text@, 0),
        r <= text@.len(),
{
    let mut i: usize = 0;
    while i < text.len()
        invariant
            i <= text@.len(),
            scheme_stop(text@, 0) == scheme_stop(text@, i as nat),
        decreases text@.len() - i,
    {
        let c: char = text[i];
        if c == ':' || c == '/' || c == '?' || c == '#' {
            return i;
        }
        i += 1;
    }
    i
}

fn begins_with_scheme(address: &Vec<char>) -> (r: bool)
    ensures
        r == has_scheme(address@),
{
    let stop: usize = find_scheme_stop(address);
    stop > 0 && stop < address.len() && address[stop] == ':'
}

fn find_path(address: &Vec<char>) -> (r: Vec<char>)
    ensures
        r@ == path(address@),
{
    let end: usize = address.len();
    let stop: usize = find_scheme_stop(address);
    let from: usize = if begins_with_scheme(address) {
        stop + 1
    } else {
        0
    };
    let rest = subtext(address, from, end);
    assert(rest@ =~= if has_scheme(address@) {
        address@.skip((scheme_stop(address@, 0) + 1) as int)
    } else {
        address@
    });
    let mut i: usize = 0;
    while i < rest.len() && rest[i] != '?' && rest[i] != '#'
        invariant
            i <= rest@.len(),
            path_stop(rest@, 0) == path_stop(rest@, i as nat),
        decreases rest@.len() - i,
    {
        i += 1;
    }
    let r = subtext(&rest, 0, i);
    assert(r@ =~= rest@.take(i as int));
    r
}

fn find_last_segment(path: &Vec<char>) -> (r: Vec<char>)
    ensures
        r@ == last_segment(path@),
{
    let from: usize = after_last(path, '/');
    if from > 1 && path[from - 2] == '/' {
        let r: Vec<char> = Vec::new();
        assert(r@ =~= Seq::empty());
        return r;
    }
    let r = subtext(path, from, path.len());
    assert(r@ =~= path@.skip(from as int));
    r
}

fn are_dots(segment: &Vec<char>) -> (r: bool)
    ensures
        r == dots(segment@),
{
    let r = (segment.len() == 1 && segment[0] == '.') || (segment.len() == 2 && segment[0] == '.' && segment[1] == '.');
    proof {
        if segment@.len() == 1 && segment@[0] == '.' {
            assert(segment@ =~= seq!['.']);
        }
        if segment@.len() == 2 && segment@[0] == '.' && segment@[1] == '.' {
            assert(segment@ =~= seq!['.', '.']);
        }
    }
    r
}

fn is_vague(address: &Vec<char>) -> (r: bool)
    ensures
        r == vague(address@),
{
    let path = find_path(address);
    path.len() == 0 || are_dots(&find_last_segment(&path)) || holds_char(address, '%')
}

fn holds_capitals(text: &Vec<char>) -> (r: bool)
    ensures
        r == has_capitals(text@),
{
    let mut i: usize = 0;
    while i < text.len()
        invariant
            i <= text@.len(),
            forall|k: int| 0 <= k < i ==> !('A' <= #[trigger] text@[k] && text@[k] <= 'Z'),
        decreases text@.len() - i,
    {
        if 'A' <= text[i] && text[i] <= 'Z' {
            assert('A' <= text@[i as int] && text@[i as int] <= 'Z');
            return true;
        }
        i += 1;
    }
    false
}

fn do_agree(a: &Vec<char>, b: &Vec<char>) -> (r: bool)
    ensures
        r == may_agree(a@, b@),
{
    if begins_with_scheme(a) && begins_with_scheme(b) {
        let left = subtext(a, 0, find_scheme_stop(a));
        let right = subtext(b, 0, find_scheme_stop(b));
        assert(left@ =~= scheme(a@));
        assert(right@ =~= scheme(b@));
        if !holds_capitals(&left) && !holds_capitals(&right) && !same_chars(&left, &right) {
            return false;
        }
    }
    is_vague(a) || is_vague(b) || same_chars(&find_last_segment(&find_path(a)), &find_last_segment(&find_path(b)))
}

pub(crate) fn is_settled_address(address: &str) -> (r: bool)
    ensures
        r == settled_address(address@),
{
    let chars = chars_of(address);
    let path = find_path(&chars);
    begins_with_scheme(&chars) || (path.len() > 0 && path[0] == '/') || (after_last(&path, '/') == 0 && !are_dots(&path))
}

// Pointers.

/// The value of a hexadecimal digit, or -1.
pub open spec fn hex_value(byte: u8) -> int {
    if 48 <= byte <= 57 {
        byte - 48
    } else if 65 <= byte <= 70 {
        byte - 55
    } else if 97 <= byte <= 102 {
        byte - 87
    } else {
        -1
    }
}

/// The bytes with each `%` and two hexadecimal digits replaced by the byte they denote.
pub open spec fn unpercented(bytes: Seq<u8>) -> Seq<u8>
    decreases bytes.len(),
{
    if bytes.len() == 0 {
        Seq::empty()
    } else if bytes[0] == 37 && bytes.len() >= 3 && hex_value(bytes[1]) >= 0 && hex_value(bytes[2]) >= 0 {
        seq![(16 * hex_value(bytes[1]) + hex_value(bytes[2])) as u8] + unpercented(bytes.skip(3))
    } else {
        seq![bytes[0]] + unpercented(bytes.skip(1))
    }
}

/// A pointer with its percent escapes resolved, where that gives text.
pub open spec fn plain_pointer(pointer: Seq<char>) -> Option<Seq<char>> {
    let bytes = unpercented(encode_utf8(pointer));
    if valid_utf8(bytes) {
        Some(decode_utf8(bytes))
    } else {
        None
    }
}

/// A step of a pointer with its escapes resolved: `~0` is a tilde, `~1` is a slash.
pub open spec fn unescaped(step: Seq<char>) -> Seq<char>
    decreases step.len(),
{
    if step.len() == 0 {
        Seq::empty()
    } else if step[0] == '~' && step.len() >= 2 {
        let first = if step[1] == '0' {
            seq!['~']
        } else if step[1] == '1' {
            seq!['/']
        } else {
            seq!['~', step[1]]
        };
        first + unescaped(step.skip(2))
    } else {
        seq![step[0]] + unescaped(step.skip(1))
    }
}

/// A numeral without the zeros before it.
pub open spec fn without_zeros(numeral: Seq<char>) -> Seq<char>
    decreases numeral.len(),
{
    if numeral.len() > 1 && numeral[0] == '0' {
        without_zeros(numeral.skip(1))
    } else {
        numeral
    }
}

/// The numeral that a step into an array is: without a plus sign and zeros before it.
pub open spec fn index_text(step: Seq<char>) -> Seq<char> {
    without_zeros(if step.len() > 1 && step[0] == '+' {
        step.skip(1)
    } else {
        step
    })
}

/// The item whose index, from `n` on, is written as `numeral`.
pub open spec fn item_at(items: Seq<JsonView>, numeral: Seq<char>, n: nat) -> Option<JsonView>
    decreases items.len() - n,
{
    if n >= items.len() {
        None
    } else if decimal(n) == numeral {
        Some(items[n as int])
    } else {
        item_at(items, numeral, n + 1)
    }
}

/// Where one step of a pointer leads.
pub open spec fn hop(value: JsonView, step: Seq<char>) -> Option<JsonView> {
    match value {
        JsonView::Array(items) => item_at(items, index_text(step), 0),
        _ => member(value, unescaped(step)),
    }
}

/// Where a pointer leads from `value`, `step` being what was read of its first step.
pub open spec fn travel(value: JsonView, pointer: Seq<char>, step: Seq<char>) -> Option<JsonView>
    decreases pointer.len(),
{
    if pointer.len() == 0 {
        hop(value, step)
    } else if pointer[0] == '/' {
        match hop(value, step) {
            Some(next) => travel(next, pointer.skip(1), Seq::empty()),
            None => None,
        }
    } else {
        travel(value, pointer.skip(1), step.push(pointer[0]))
    }
}

/// Where the pointer of a reference leads from `value`.
pub open spec fn pointed(value: JsonView, pointer: Seq<char>) -> Option<JsonView> {
    match plain_pointer(pointer) {
        Some(text) => travel(value, text, Seq::empty()),
        None => None,
    }
}

fn hex(byte: u8) -> (r: Option<u8>)
    ensures
        match r {
            Some(value) => value == hex_value(byte) && value < 16,
            None => hex_value(byte) < 0,
        },
{
    if 48 <= byte && byte <= 57 {
        Some(byte - 48)
    } else if 65 <= byte && byte <= 70 {
        Some(byte - 55)
    } else if 97 <= byte && byte <= 102 {
        Some(byte - 87)
    } else {
        None
    }
}

fn unpercent(bytes: &[u8]) -> (r: Vec<u8>)
    ensures
        r@ == unpercented(bytes@),
{
    let mut out: Vec<u8> = Vec::new();
    let mut i: usize = 0;
    assert(bytes@.skip(0) =~= bytes@);
    assert(out@ + unpercented(bytes@) =~= unpercented(bytes@));
    while i < bytes.len()
        invariant
            i <= bytes@.len(),
            out@ + unpercented(bytes@.skip(i as int)) == unpercented(bytes@),
        decreases bytes@.len() - i,
    {
        let ghost rest = bytes@.skip(i as int);
        let ghost before = out@;
        let mut denoted: Option<u8> = None;
        if bytes[i] == 37 && bytes.len() - i >= 3 {
            if let (Some(high), Some(low)) = (hex(bytes[i + 1]), hex(bytes[i + 2])) {
                denoted = Some(16 * high + low);
            }
        }
        match denoted {
            Some(byte) => {
                out.push(byte);
                assert(rest.skip(3) =~= bytes@.skip(i + 3));
                assert(out@ + unpercented(rest.skip(3)) =~= before + unpercented(rest));
                i += 3;
            },
            None => {
                out.push(bytes[i]);
                assert(rest.skip(1) =~= bytes@.skip(i + 1));
                assert(out@ + unpercented(rest.skip(1)) =~= before + unpercented(rest));
                i += 1;
            },
        }
    }
    assert(out@ + unpercented(bytes@.skip(i as int)) =~= out@);
    out
}

fn same_bytes(a: &[u8], b: &[u8]) -> (r: bool)
    ensures
        r == (a@ == b@),
{
    if a.len() != b.len() {
        return false;
    }
    let mut i: usize = 0;
    while i < a.len()
        invariant
            i <= a@.len() == b@.len(),
            forall|k: int| 0 <= k < i ==> a@[k] == b@[k],
        decreases a@.len() - i,
    {
        if a[i] != b[i] {
            return false;
        }
        i += 1;
    }
    assert(a@ =~= b@);
    true
}

fn find_plain_pointer(pointer: &str) -> (r: Option<Vec<char>>)
    ensures
        match r {
            Some(text) => plain_pointer(pointer@) == Some(text@),
            None => plain_pointer(pointer@) is None,
        },
{
    let bytes = unpercent(pointer.as_bytes());
    let text = lossy(bytes.as_slice());
    proof {
        encode_utf8_valid_utf8(text@);
        if valid_utf8(bytes@) {
            decode_utf8_encode_utf8(bytes@);
        }
        encode_utf8_decode_utf8(text@);
    }
    if same_bytes(text.as_str().as_bytes(), bytes.as_slice()) {
        Some(chars_of(text.as_str()))
    } else {
        None
    }
}

fn unescape(step: &Vec<char>) -> (r: String)
    ensures
        r@ == unescaped(step@),
{
    let mut out = "".to_owned();
    let mut i: usize = 0;
    proof {
        reveal_strlit("");
        assert(step@.skip(0) =~= step@);
        assert(out@ + unescaped(step@) =~= unescaped(step@));
    }
    while i < step.len()
        invariant
            i <= step@.len(),
            out@ + unescaped(step@.skip(i as int)) == unescaped(step@),
        decreases step@.len() - i,
    {
        let ghost rest = step@.skip(i as int);
        let ghost before = out@;
        if step[i] == '~' && step.len() - i >= 2 {
            let next: char = step[i + 1];
            if next == '1' {
                out.push('/');
            } else {
                out.push('~');
                if next != '0' {
                    out.push(next);
                }
            }
            assert(rest.skip(2) =~= step@.skip(i + 2));
            assert(out@ + unescaped(rest.skip(2)) =~= before + unescaped(rest));
            i += 2;
        } else {
            out.push(step[i]);
            assert(rest.skip(1) =~= step@.skip(i + 1));
            assert(out@ + unescaped(rest.skip(1)) =~= before + unescaped(rest));
            i += 1;
        }
    }
    assert(out@ + unescaped(step@.skip(i as int)) =~= out@);
    out
}

fn find_index_text(step: &Vec<char>) -> (r: String)
    ensures
        r@ == index_text(step@),
{
    let mut i: usize = if step.len() > 1 && step[0] == '+' {
        1
    } else {
        0
    };
    assert(step@.skip(0) =~= step@);
    while step.len() - i > 1 && step[i] == '0'
        invariant
            i <= step@.len(),
            index_text(step@) == without_zeros(step@.skip(i as int)),
        decreases step@.len() - i,
    {
        assert(step@.skip(i as int).skip(1) =~= step@.skip(i + 1));
        i += 1;
    }
    let rest = subtext(step, i, step.len());
    assert(rest@ =~= step@.skip(i as int));
    text_from(&rest)
}

fn take_hop<'a>(value: &'a Json, step: &Vec<char>) -> (r: Option<&'a Json>)
    ensures
        match r {
            Some(next) => hop(value@, step@) == Some(next@),
            None => hop(value@, step@) is None,
        },
{
    match value {
        Json::Array(items) => {
            proof {
                lemma_array_view(items@);
            }
            let text = find_index_text(step);
            let mut n: usize = 0;
            while n < items.len()
                invariant
                    n <= items@.len(),
                    text@ == index_text(step@),
                    value@ == JsonView::Array(array_view(items@)),
                    array_view(items@).len() == items@.len(),
                    forall|i: int| 0 <= i < items@.len() ==> #[trigger] array_view(items@)[i] == items@[i]@,
                    hop(value@, step@) == item_at(array_view(items@), text@, n as nat),
                decreases items@.len() - n,
            {
                let mut numeral = "".to_owned();
                push_decimal(&mut numeral, n as u64);
                proof {
                    reveal_strlit("");
                    assert(numeral@ =~= decimal(n as nat));
                }
                if same(numeral.as_str(), text.as_str()) {
                    return Some(&items[n]);
                }
                n += 1;
            }
            None
        },
        _ => value.get(unescape(step).as_str()),
    }
}

fn take_pointer<'a>(start: &'a Json, pointer: &str) -> (r: Option<&'a Json>)
    ensures
        match r {
            Some(next) => pointed(start@, pointer@) == Some(next@),
            None => pointed(start@, pointer@) is None,
        },
{
    let chars = match find_plain_pointer(pointer) {
        Some(chars) => chars,
        None => {
            return None;
        },
    };
    let ghost whole = pointed(start@, pointer@);
    let mut value: &'a Json = start;
    let mut step: Vec<char> = Vec::new();
    let mut i: usize = 0;
    assert(chars@.skip(0) =~= chars@);
    assert(step@ =~= Seq::empty());
    while i < chars.len()
        invariant
            i <= chars@.len(),
            whole == pointed(start@, pointer@),
            travel(value@, chars@.skip(i as int), step@) == whole,
        decreases chars@.len() - i,
    {
        let ghost rest = chars@.skip(i as int);
        assert(rest.skip(1) =~= chars@.skip(i + 1));
        if chars[i] == '/' {
            match take_hop(value, &step) {
                Some(next) => {
                    value = next;
                    step = Vec::new();
                    assert(step@ =~= Seq::empty());
                },
                None => {
                    return None;
                },
            }
        } else {
            step.push(chars[i]);
        }
        i += 1;
    }
    assert(chars@.skip(i as int).len() == 0);
    take_hop(value, &step)
}

// Dialects, addresses and names.

/// A text without the marks at its end.
pub open spec fn unmarked_end(text: Seq<char>) -> Seq<char>
    decreases text.len(),
{
    if text.len() > 0 && text.last() == '#' {
        unmarked_end(text.drop_last())
    } else {
        text
    }
}

/// The dialect that a `$schema` names.
pub open spec fn dialect_named(text: Seq<char>) -> Option<Dialect> {
    let name = unmarked_end(text);
    if name == "https://json-schema.org/draft/2020-12/schema"@ {
        Some(Dialect::Draft2020)
    } else if name == "https://json-schema.org/draft/2019-09/schema"@ {
        Some(Dialect::Draft2019)
    } else if name == "http://json-schema.org/draft-07/schema"@ {
        Some(Dialect::Draft7)
    } else if name == "http://json-schema.org/draft-06/schema"@ {
        Some(Dialect::Draft6)
    } else if name == "http://json-schema.org/draft-04/schema"@ {
        Some(Dialect::Draft4)
    } else {
        None
    }
}

/// The dialect of a document; none where it names one that is not known.
pub open spec fn dialect_of(doc: JsonView) -> Option<Dialect> {
    match text_at(doc, "$schema"@) {
        Some(text) => dialect_named(text),
        None => Some(Dialect::Draft2020),
    }
}

/// The keyword that gives a part an address.
pub open spec fn address_key(dialect: Dialect) -> Seq<char> {
    if dialect == Dialect::Draft4 {
        "id"@
    } else {
        "$id"@
    }
}

/// The address that a part gives itself. In the older dialects a `$ref` hides it, and what begins with `#`
/// is a name.
pub open spec fn address_of(dialect: Dialect, part: JsonView) -> Option<Seq<char>> {
    match text_at(part, address_key(dialect)) {
        Some(text) => if !modern(dialect) && (member(part, "$ref"@) is Some || text.len() > 0 && text[0] == '#') {
            None
        } else {
            Some(text)
        },
        None => None,
    }
}

/// The part bears a name that a reference can use.
pub open spec fn bears(dialect: Dialect, part: JsonView, name: Seq<char>) -> bool {
    match dialect {
        Dialect::Draft4 => text_at(part, "id"@) == Some(seq!['#'] + name),
        Dialect::Draft6 | Dialect::Draft7 => text_at(part, "$id"@) == Some(seq!['#'] + name),
        Dialect::Draft2019 => text_at(part, "$anchor"@) == Some(name),
        Dialect::Draft2020 => text_at(part, "$anchor"@) == Some(name) || text_at(part, "$dynamicAnchor"@) == Some(name),
    }
}

/// What references are taken against: the document, or a part with an address of its own.
pub open spec fn resource(doc: JsonView, dialect: Dialect, part: JsonView) -> bool {
    part == doc || inside(doc, part) && address_of(dialect, part) is Some
}

/// The address of a resource; a document without one gets one.
pub open spec fn resource_address(dialect: Dialect, part: JsonView) -> Seq<char> {
    match address_of(dialect, part) {
        Some(address) => address,
        None => "json-schema:///"@,
    }
}

/// The address in a reference, before its fragment.
pub open spec fn address_part(reference: Seq<char>) -> Seq<char> {
    if reference.len() > 0 && reference[0] == '#' {
        Seq::empty()
    } else if last_of(reference, '#') < 0 {
        reference
    } else {
        reference.take(last_of(reference, '#'))
    }
}

/// The fragment of a reference.
pub open spec fn fragment_part(reference: Seq<char>) -> Seq<char> {
    if reference.len() > 0 && reference[0] == '#' {
        reference.skip(1)
    } else if last_of(reference, '#') < 0 {
        Seq::empty()
    } else {
        reference.skip(last_of(reference, '#') + 1)
    }
}

/// `next` is what a fragment means in a resource.
pub open spec fn lands(doc: JsonView, dialect: Dialect, start: JsonView, fragment: Seq<char>, next: JsonView) -> bool {
    if fragment.len() == 0 {
        next == start
    } else if fragment[0] == '/' {
        pointed(start, fragment.skip(1)) == Some(next)
    } else {
        part_of(doc, next) && bears(dialect, next, fragment)
    }
}

/// A resource that references without an address may be taken against where they stand in `part`: one that
/// holds the part, or one that may have the same address.
pub open spec fn near(doc: JsonView, dialect: Dialect, part: JsonView, start: JsonView) -> bool {
    ||| start == doc || part_of(start, part)
    ||| exists|other: JsonView| #[trigger]
        resource(doc, dialect, other) && (other == doc || part_of(other, part)) && may_agree(
            resource_address(dialect, start),
            resource_address(dialect, other),
        )
}

/// The address of a reference in `part` may mean the resource `start`.
pub open spec fn begins(doc: JsonView, dialect: Dialect, part: JsonView, address: Seq<char>, start: JsonView) -> bool {
    resource(doc, dialect, start) && if address.len() == 0 {
        near(doc, dialect, part, start)
    } else {
        may_agree(resource_address(dialect, start), address)
    }
}

/// A reference in `part` may lead to `next`: from a resource that its address may mean.
pub open spec fn may_lead(doc: JsonView, dialect: Dialect, part: JsonView, reference: Seq<char>, next: JsonView) -> bool {
    exists|start: JsonView| #[trigger]
        begins(doc, dialect, part, address_part(reference), start) && lands(
            doc,
            dialect,
            start,
            fragment_part(reference),
            next,
        )
}

/// A key below which every schema's address counts, however a pointer goes on.
pub open spec fn early_key(dialect: Dialect, key: Seq<char>) -> bool {
    dialect != Dialect::Draft2020 && key == "items"@ || !modern(dialect) && key == "dependencies"@
}

/// What stands under `key` is a schema whose address counts.
pub open spec fn schema_key(dialect: Dialect, key: Seq<char>) -> bool {
    ||| key == "additionalProperties"@ || key == "not"@
    ||| dialect != Dialect::Draft2020 && key == "additionalItems"@
    ||| dialect != Dialect::Draft4 && (key == "contains"@ || key == "propertyNames"@)
    ||| dialect != Dialect::Draft4 && dialect != Dialect::Draft6 && (key == "if"@ || key == "then"@ || key == "else"@)
    ||| modern(dialect) && (key == "unevaluatedItems"@ || key == "unevaluatedProperties"@)
    ||| dialect == Dialect::Draft2020 && key == "items"@
}

/// What stands under `key` holds schemas whose addresses count.
pub open spec fn schemas_key(dialect: Dialect, key: Seq<char>) -> bool {
    ||| key == "allOf"@ || key == "anyOf"@ || key == "oneOf"@
    ||| key == "definitions"@ || key == "patternProperties"@ || key == "properties"@
    ||| modern(dialect) && (key == "$defs"@ || key == "dependentSchemas"@)
    ||| dialect == Dialect::Draft2020 && key == "prefixItems"@
}

/// The pointer goes from schema to schema by keys under which addresses count, `step` being what was read
/// of its first step, which is the name of a schema if `named`.
pub open spec fn straight(dialect: Dialect, pointer: Seq<char>, step: Seq<char>, named: bool) -> bool
    decreases pointer.len(),
{
    if pointer.len() == 0 {
        named || early_key(dialect, step) || schema_key(dialect, step)
    } else if pointer[0] != '/' {
        straight(dialect, pointer.skip(1), step.push(pointer[0]), named)
    } else if named || schema_key(dialect, step) {
        straight(dialect, pointer.skip(1), Seq::empty(), false)
    } else if early_key(dialect, step) {
        true
    } else {
        schemas_key(dialect, step) && straight(dialect, pointer.skip(1), Seq::empty(), true)
    }
}

/// The reference has a pointer to where an address does not count.
pub open spec fn crooked(dialect: Dialect, reference: Seq<char>) -> bool {
    let fragment = fragment_part(reference);
    fragment.len() > 0 && fragment[0] == '/' && (plain_pointer(fragment.skip(1)) matches Some(pointer) && !straight(
        dialect,
        pointer,
        Seq::empty(),
        false,
    ))
}

// A step of a pointer leads inside.
proof fn lemma_item_inside(items: Seq<JsonView>, numeral: Seq<char>, n: nat)
    ensures
        item_at(items, numeral, n) matches Some(next) ==> items.contains(next),
    decreases items.len() - n,
{
    if n < items.len() && decimal(n) != numeral {
        lemma_item_inside(items, numeral, n + 1);
    }
}

proof fn lemma_hop_inside(value: JsonView, step: Seq<char>)
    ensures
        hop(value, step) matches Some(next) ==> inside(value, next),
{
    if let Some(next) = hop(value, step) {
        match value {
            JsonView::Array(items) => {
                lemma_item_inside(items, index_text(step), 0);
                let i = choose|i: int| 0 <= i < items.len() && items[i] == next;
                assert(items[i] == next);
            },
            JsonView::Object(entries) => {
                let key = unescaped(step);
                assert(entries.dom().contains(key) && entries[key] == next);
            },
            _ => {},
        }
    }
}

/// What lies inside a part lies inside what holds the part.
pub proof fn lemma_inside_of_inside(value: JsonView, part: JsonView, inner: JsonView)
    requires
        part_of(value, part),
        inside(part, inner),
    ensures
        inside(value, inner),
    decreases value,
{
    if part != value {
        match value {
            JsonView::Array(items) => {
                let i = choose|i: int| 0 <= i < items.len() && ((#[trigger] items[i]) == part || inside(items[i], part));
                lemma_inside_of_inside(items[i], part, inner);
                assert(inside(items[i], inner));
            },
            JsonView::Object(entries) => {
                let k = choose|k: Seq<char>|
                    entries.dom().contains(k) && ((#[trigger] entries[k]) == part || inside(entries[k], part));
                lemma_inside_of_inside(entries[k], part, inner);
                assert(inside(entries[k], inner));
            },
            _ => {},
        }
    }
}

proof fn lemma_travel_inside(value: JsonView, pointer: Seq<char>, step: Seq<char>)
    ensures
        travel(value, pointer, step) matches Some(next) ==> inside(value, next),
    decreases pointer.len(),
{
    lemma_hop_inside(value, step);
    if pointer.len() > 0 {
        if pointer[0] == '/' {
            if let Some(middle) = hop(value, step) {
                lemma_travel_inside(middle, pointer.skip(1), Seq::empty());
                if let Some(next) = travel(middle, pointer.skip(1), Seq::empty()) {
                    lemma_inside_of_inside(value, middle, next);
                }
            }
        } else {
            lemma_travel_inside(value, pointer.skip(1), step.push(pointer[0]));
        }
    }
}

/// References lead to parts of the document.
pub proof fn lemma_leads_inside(doc: JsonView, dialect: Dialect, part: JsonView, reference: Seq<char>, next: JsonView)
    requires
        may_lead(doc, dialect, part, reference, next),
    ensures
        part_of(doc, next),
{
    let start = choose|start: JsonView| #[trigger]
        begins(doc, dialect, part, address_part(reference), start) && lands(
            doc,
            dialect,
            start,
            fragment_part(reference),
            next,
        );
    let fragment = fragment_part(reference);
    if fragment.len() > 0 && fragment[0] == '/' {
        lemma_travel_inside(start, plain_pointer(fragment.skip(1))->0, Seq::empty());
        lemma_inside_of_inside(doc, start, next);
    }
}

fn strip_marks(text: &str) -> (r: Vec<char>)
    ensures
        r@ == unmarked_end(text@),
{
    let chars = chars_of(text);
    let mut n: usize = chars.len();
    assert(chars@.take(n as int) =~= chars@);
    while n > 0 && chars[n - 1] == '#'
        invariant
            n <= chars@.len(),
            unmarked_end(text@) == unmarked_end(chars@.take(n as int)),
        decreases n,
    {
        assert(chars@.take(n as int).drop_last() =~= chars@.take(n - 1));
        n -= 1;
    }
    let r = subtext(&chars, 0, n);
    assert(r@ =~= chars@.take(n as int));
    r
}

pub(crate) fn find_dialect_named(text: &str) -> (r: Option<Dialect>)
    ensures
        r == dialect_named(text@),
{
    let name = text_from(&strip_marks(text));
    let name = name.as_str();
    if same(name, "https://json-schema.org/draft/2020-12/schema") {
        Some(Dialect::Draft2020)
    } else if same(name, "https://json-schema.org/draft/2019-09/schema") {
        Some(Dialect::Draft2019)
    } else if same(name, "http://json-schema.org/draft-07/schema") {
        Some(Dialect::Draft7)
    } else if same(name, "http://json-schema.org/draft-06/schema") {
        Some(Dialect::Draft6)
    } else if same(name, "http://json-schema.org/draft-04/schema") {
        Some(Dialect::Draft4)
    } else {
        None
    }
}

pub(crate) fn find_dialect(doc: &Json) -> (r: Option<Dialect>)
    ensures
        r == dialect_of(doc@),
{
    match doc.text_at("$schema") {
        Some(text) => find_dialect_named(text),
        None => Some(Dialect::Draft2020),
    }
}

pub(crate) fn find_address(dialect: Dialect, part: &Json) -> (r: Option<Vec<char>>)
    ensures
        match r {
            Some(text) => address_of(dialect, part@) == Some(text@),
            None => address_of(dialect, part@) is None,
        },
{
    let key = if dialect == Dialect::Draft4 {
        "id"
    } else {
        "$id"
    };
    match part.text_at(key) {
        Some(text) => {
            let chars = chars_of(text);
            if !is_modern(dialect) && (part.get("$ref").is_some() || (chars.len() > 0 && chars[0] == '#')) {
                None
            } else {
                Some(chars)
            }
        },
        None => None,
    }
}

fn does_bear(dialect: Dialect, part: &Json, name: &str, marked: &str) -> (r: bool)
    requires
        marked@ == seq!['#'] + name@,
    ensures
        r == bears(dialect, part@, name@),
{
    match dialect {
        Dialect::Draft4 => part.at("id").is_text(marked),
        Dialect::Draft6 | Dialect::Draft7 => part.at("$id").is_text(marked),
        Dialect::Draft2019 => part.at("$anchor").is_text(name),
        Dialect::Draft2020 => part.at("$anchor").is_text(name) || part.at("$dynamicAnchor").is_text(name),
    }
}

fn find_resource_address(dialect: Dialect, part: &Json) -> (r: Vec<char>)
    ensures
        r@ == resource_address(dialect, part@),
{
    match find_address(dialect, part) {
        Some(text) => text,
        None => chars_of("json-schema:///"),
    }
}

/// What references of a document are taken against.
pub(crate) fn find_resources<'a>(doc: &'a Json, dialect: Dialect) -> (r: Vec<&'a Json>)
    ensures
        forall|part: JsonView| #[trigger] views(r@).contains(part) <==> resource(doc@, dialect, part),
{
    let list = parts_inside(doc);
    let mut out: Vec<&'a Json> = Vec::new();
    out.push(doc);
    assert(views(out@) =~= seq![doc@]);
    assert(views(out@)[0] == doc@);
    let mut i: usize = 0;
    while i < list.len()
        invariant
            i <= list@.len(),
            forall|part: JsonView| inside(doc@, part) <==> #[trigger] views(list@).contains(part),
            views(out@).contains(doc@),
            forall|part: JsonView| #[trigger] views(out@).contains(part) ==> resource(doc@, dialect, part),
            forall|n: int|
                0 <= n < i && address_of(dialect, #[trigger] views(list@)[n]) is Some ==> views(out@).contains(views(list@)[n]),
        decreases list@.len() - i,
    {
        let part = list[i];
        let ghost found = part@;
        assert(views(list@)[i as int] == found);
        assert(views(list@).contains(found));
        assert(inside(doc@, found));
        if find_address(dialect, part).is_some() {
            let ghost before = views(out@);
            out.push(part);
            assert(views(out@) =~= before.push(found));
            proof {
                lemma_pushed(before, found);
                assert(before.push(found).contains(doc@));
                assert forall|n: int|
                    0 <= n < i + 1 && address_of(dialect, #[trigger] views(list@)[n]) is Some implies views(out@).contains(
                    views(list@)[n],
                ) by {
                    assert(before.push(found).contains(views(list@)[n]));
                }
                assert forall|p: JsonView| #[trigger] views(out@).contains(p) implies resource(doc@, dialect, p) by {
                    assert(before.push(found).contains(p));
                }
            }
        }
        i += 1;
    }
    assert forall|part: JsonView| #[trigger] views(out@).contains(part) <==> resource(doc@, dialect, part) by {
        if resource(doc@, dialect, part) && part != doc@ {
            assert(views(list@).contains(part));
            let n = choose|n: int| 0 <= n < views(list@).len() && views(list@)[n] == part;
            assert(address_of(dialect, views(list@)[n]) is Some);
        }
    }
    out
}

fn is_near(doc: &Json, dialect: Dialect, part: &Json, start: &Json, all: &Vec<&Json>) -> (r: bool)
    requires
        forall|p: JsonView| #[trigger] views(all@).contains(p) <==> resource(doc@, dialect, p),
    ensures
        r == near(doc@, dialect, part@, start@),
{
    if same_json(start, doc) || is_part_of(start, part) {
        return true;
    }
    let address = find_resource_address(dialect, start);
    let mut i: usize = 0;
    while i < all.len()
        invariant
            i <= all@.len(),
            address@ == resource_address(dialect, start@),
            forall|p: JsonView| #[trigger] views(all@).contains(p) <==> resource(doc@, dialect, p),
            forall|n: int|
                0 <= n < i ==> !({
                    let other = #[trigger] views(all@)[n];
                    (other == doc@ || part_of(other, part@)) && may_agree(address@, resource_address(dialect, other))
                }),
        decreases all@.len() - i,
    {
        let ghost other = all@[i as int]@;
        assert(views(all@)[i as int] == other);
        assert(views(all@).contains(other));
        if (same_json(all[i], doc) || is_part_of(all[i], part)) && do_agree(
            &address,
            &find_resource_address(dialect, all[i]),
        ) {
            assert(resource(doc@, dialect, other));
            return true;
        }
        i += 1;
    }
    assert forall|other: JsonView| #[trigger]
        resource(doc@, dialect, other) && (other == doc@ || part_of(other, part@)) implies !may_agree(
        address@,
        resource_address(dialect, other),
    ) by {
        assert(views(all@).contains(other));
        let n = choose|n: int| 0 <= n < views(all@).len() && views(all@)[n] == other;
        assert(views(all@)[n] == other);
    }
    false
}

/// The resources of a document that the address of a reference may mean.
fn find_starts<'a>(doc: &'a Json, dialect: Dialect, part: &Json, address: &Vec<char>) -> (r: Vec<&'a Json>)
    ensures
        forall|start: JsonView| #[trigger] views(r@).contains(start) <==> begins(doc@, dialect, part@, address@, start),
{
    let all = find_resources(doc, dialect);
    let mut out: Vec<&'a Json> = Vec::new();
    let mut i: usize = 0;
    while i < all.len()
        invariant
            i <= all@.len(),
            forall|p: JsonView| #[trigger] views(all@).contains(p) <==> resource(doc@, dialect, p),
            forall|start: JsonView| #[trigger]
                views(out@).contains(start) ==> begins(doc@, dialect, part@, address@, start),
            forall|n: int|
                0 <= n < i && begins(doc@, dialect, part@, address@, #[trigger] views(all@)[n]) ==> views(out@).contains(
                    views(all@)[n],
                ),
        decreases all@.len() - i,
    {
        let start = all[i];
        let ghost found = start@;
        assert(views(all@)[i as int] == found);
        assert(views(all@).contains(found));
        let fits = if address.len() == 0 {
            is_near(doc, dialect, part, start, &all)
        } else {
            do_agree(&find_resource_address(dialect, start), address)
        };
        if fits {
            let ghost before = views(out@);
            out.push(start);
            assert(views(out@) =~= before.push(found));
            proof {
                lemma_pushed(before, found);
                assert forall|n: int|
                    0 <= n < i + 1 && begins(doc@, dialect, part@, address@, #[trigger] views(all@)[n]) implies views(
                    out@,
                ).contains(views(all@)[n]) by {
                    assert(before.push(found).contains(views(all@)[n]));
                }
                assert forall|p: JsonView| #[trigger] views(out@).contains(p) implies begins(
                    doc@,
                    dialect,
                    part@,
                    address@,
                    p,
                ) by {
                    assert(before.push(found).contains(p));
                }
            }
        }
        i += 1;
    }
    assert forall|start: JsonView| #[trigger] views(out@).contains(start) <==> begins(
        doc@,
        dialect,
        part@,
        address@,
        start,
    ) by {
        if begins(doc@, dialect, part@, address@, start) {
            assert(views(all@).contains(start));
            let n = choose|n: int| 0 <= n < views(all@).len() && views(all@)[n] == start;
            assert(begins(doc@, dialect, part@, address@, views(all@)[n]));
        }
    }
    out
}


/// The parts that bear a name.
fn find_named<'a>(doc: &'a Json, dialect: Dialect, name: &str) -> (r: Vec<&'a Json>)
    ensures
        forall|next: JsonView| #[trigger] views(r@).contains(next) <==> part_of(doc@, next) && bears(dialect, next, name@),
{
    let mut marked = "#".to_owned();
    marked.append(name);
    proof {
        reveal_strlit("#");
        assert(marked@ =~= seq!['#'] + name@);
    }
    let list = parts(doc);
    let mut out: Vec<&'a Json> = Vec::new();
    let mut i: usize = 0;
    while i < list.len()
        invariant
            i <= list@.len(),
            marked@ == seq!['#'] + name@,
            forall|part: JsonView| part_of(doc@, part) <==> #[trigger] views(list@).contains(part),
            forall|next: JsonView| #[trigger] views(out@).contains(next) ==> part_of(doc@, next) && bears(dialect, next, name@),
            forall|n: int|
                0 <= n < i && bears(dialect, #[trigger] views(list@)[n], name@) ==> views(out@).contains(views(list@)[n]),
        decreases list@.len() - i,
    {
        let part = list[i];
        let ghost found = part@;
        assert(views(list@)[i as int] == found);
        assert(views(list@).contains(found));
        assert(part_of(doc@, found));
        if does_bear(dialect, part, name, marked.as_str()) {
            let ghost before = views(out@);
            out.push(part);
            assert(views(out@) =~= before.push(found));
            proof {
                lemma_pushed(before, found);
                assert forall|n: int| 0 <= n < i + 1 && bears(dialect, #[trigger] views(list@)[n], name@) implies views(
                    out@,
                ).contains(views(list@)[n]) by {
                    assert(before.push(found).contains(views(list@)[n]));
                }
                assert forall|next: JsonView| #[trigger] views(out@).contains(next) implies part_of(doc@, next) && bears(
                    dialect,
                    next,
                    name@,
                ) by {
                    assert(before.push(found).contains(next));
                }
            }
        }
        i += 1;
    }
    assert forall|next: JsonView| #[trigger] views(out@).contains(next) <==> part_of(doc@, next) && bears(
        dialect,
        next,
        name@,
    ) by {
        if part_of(doc@, next) && bears(dialect, next, name@) {
            assert(views(list@).contains(next));
            let n = choose|n: int| 0 <= n < views(list@).len() && views(list@)[n] == next;
            assert(bears(dialect, views(list@)[n], name@));
        }
    }
    out
}

fn is_early_key(dialect: Dialect, key: &str) -> (r: bool)
    ensures
        r == early_key(dialect, key@),
{
    (dialect != Dialect::Draft2020 && same(key, "items")) || (!is_modern(dialect) && same(key, "dependencies"))
}

fn is_schema_key(dialect: Dialect, key: &str) -> (r: bool)
    ensures
        r == schema_key(dialect, key@),
{
    let conditional = dialect != Dialect::Draft4 && dialect != Dialect::Draft6;
    same(key, "additionalProperties") || same(key, "not") || (dialect != Dialect::Draft2020 && same(key, "additionalItems")) || (
    dialect != Dialect::Draft4 && (same(key, "contains") || same(key, "propertyNames"))) || (conditional && (same(key, "if")
        || same(key, "then") || same(key, "else"))) || (is_modern(dialect) && (same(key, "unevaluatedItems") || same(
        key,
        "unevaluatedProperties",
    ))) || (dialect == Dialect::Draft2020 && same(key, "items"))
}

fn is_schemas_key(dialect: Dialect, key: &str) -> (r: bool)
    ensures
        r == schemas_key(dialect, key@),
{
    same(key, "allOf") || same(key, "anyOf") || same(key, "oneOf") || same(key, "definitions") || same(key, "patternProperties")
        || same(key, "properties") || (is_modern(dialect) && (same(key, "$defs") || same(key, "dependentSchemas"))) || (dialect
        == Dialect::Draft2020 && same(key, "prefixItems"))
}

fn is_straight(dialect: Dialect, pointer: &Vec<char>) -> (r: bool)
    ensures
        r == straight(dialect, pointer@, Seq::empty(), false),
{
    let mut step: Vec<char> = Vec::new();
    let mut named = false;
    let mut i: usize = 0;
    assert(pointer@.skip(0) =~= pointer@);
    assert(step@ =~= Seq::empty());
    while i < pointer.len()
        invariant
            i <= pointer@.len(),
            straight(dialect, pointer@, Seq::empty(), false) == straight(dialect, pointer@.skip(i as int), step@, named),
        decreases pointer@.len() - i,
    {
        let c: char = pointer[i];
        let ghost rest = pointer@.skip(i as int);
        assert(rest[0] == c);
        assert(rest.skip(1) =~= pointer@.skip(i + 1));
        if c != '/' {
            step.push(c);
        } else {
            let key = text_from(&step);
            if named || is_schema_key(dialect, key.as_str()) {
                named = false;
            } else if is_early_key(dialect, key.as_str()) {
                return true;
            } else if is_schemas_key(dialect, key.as_str()) {
                named = true;
            } else {
                return false;
            }
            step = Vec::new();
            assert(step@ =~= Seq::empty());
        }
        i += 1;
    }
    let key = text_from(&step);
    named || is_early_key(dialect, key.as_str()) || is_schema_key(dialect, key.as_str())
}

/// The address of a reference and its fragment.
fn halves(reference: &str) -> (r: (Vec<char>, Vec<char>))
    ensures
        r.0@ == address_part(reference@),
        r.1@ == fragment_part(reference@),
{
    let chars = chars_of(reference);
    let mark: usize = after_last(&chars, '#');
    let local = chars.len() > 0 && chars[0] == '#';
    let address = if local {
        subtext(&chars, 0, 0)
    } else if mark == 0 {
        subtext(&chars, 0, chars.len())
    } else {
        subtext(&chars, 0, mark - 1)
    };
    let fragment = if local {
        subtext(&chars, 1, chars.len())
    } else if mark == 0 {
        subtext(&chars, 0, 0)
    } else {
        subtext(&chars, mark, chars.len())
    };
    assert(address@ =~= address_part(reference@));
    assert(fragment@ =~= fragment_part(reference@));
    (address, fragment)
}

pub(crate) fn is_crooked(dialect: Dialect, reference: &str) -> (r: bool)
    ensures
        r == crooked(dialect, reference@),
{
    let (_, fragment) = halves(reference);
    if fragment.len() == 0 || fragment[0] != '/' {
        return false;
    }
    let pointer = subtext(&fragment, 1, fragment.len());
    assert(pointer@ =~= fragment@.skip(1));
    match find_plain_pointer(text_from(&pointer).as_str()) {
        Some(pointer) => !is_straight(dialect, &pointer),
        None => false,
    }
}

/// The parts that a reference may lead to.
pub fn find_leads<'a>(doc: &'a Json, dialect: Dialect, part: &Json, reference: &str) -> (r: Vec<&'a Json>)
    ensures
        forall|next: JsonView| #[trigger] views(r@).contains(next) <==> may_lead(doc@, dialect, part@, reference@, next),
{
    let (address, fragment) = halves(reference);
    let starts = find_starts(doc, dialect, part, &address);
    if fragment.len() == 0 {
        assert forall|next: JsonView| #[trigger] views(starts@).contains(next) <==> may_lead(doc@, dialect, part@, reference@, next) by {
            if views(starts@).contains(next) {
                assert(begins(doc@, dialect, part@, address@, next) && lands(doc@, dialect, next, fragment@, next));
            }
            if may_lead(doc@, dialect, part@, reference@, next) {
                assert(views(starts@).contains(next));
            }
        }
        return starts;
    }
    if fragment[0] != '/' {
        if starts.len() == 0 {
            assert forall|next: JsonView| !may_lead(doc@, dialect, part@, reference@, next) by {
                if may_lead(doc@, dialect, part@, reference@, next) {
                    let start = choose|start: JsonView| #[trigger]
                        begins(doc@, dialect, part@, address@, start) && lands(doc@, dialect, start, fragment@, next);
                    assert(views(starts@).contains(start));
                }
            }
            return starts;
        }
        let named = find_named(doc, dialect, text_from(&fragment).as_str());
        proof {
            let start = views(starts@)[0];
            assert(views(starts@).contains(start));
            assert forall|next: JsonView| #[trigger] views(named@).contains(next) <==> may_lead(
                doc@,
                dialect,
                part@,
                reference@,
                next,
            ) by {
                if views(named@).contains(next) {
                    assert(begins(doc@, dialect, part@, address@, start) && lands(doc@, dialect, start, fragment@, next));
                }
            }
        }
        return named;
    }
    let pointer_chars = subtext(&fragment, 1, fragment.len());
    assert(pointer_chars@ =~= fragment@.skip(1));
    let pointer = text_from(&pointer_chars);
    let mut out: Vec<&'a Json> = Vec::new();
    let mut i: usize = 0;
    while i < starts.len()
        invariant
            i <= starts@.len(),
            pointer@ == fragment@.skip(1),
            fragment@ == fragment_part(reference@),
            fragment@.len() > 0 && fragment@[0] == '/',
            address@ == address_part(reference@),
            forall|start: JsonView| #[trigger]
                views(starts@).contains(start) <==> begins(doc@, dialect, part@, address@, start),
            forall|next: JsonView| #[trigger] views(out@).contains(next) ==> may_lead(doc@, dialect, part@, reference@, next),
            forall|n: int|
                0 <= n < i ==> (pointed(#[trigger] views(starts@)[n], pointer@) matches Some(next) ==> views(out@).contains(
                    next,
                )),
        decreases starts@.len() - i,
    {
        let start = starts[i];
        assert(views(starts@)[i as int] == start@);
        assert(views(starts@).contains(start@));
        if let Some(next) = take_pointer(start, pointer.as_str()) {
            let ghost found = next@;
            let ghost before = views(out@);
            out.push(next);
            assert(views(out@) =~= before.push(found));
            proof {
                lemma_pushed(before, found);
                assert(begins(doc@, dialect, part@, address@, start@) && lands(doc@, dialect, start@, fragment@, found));
                assert forall|next: JsonView| #[trigger] views(out@).contains(next) implies may_lead(
                    doc@,
                    dialect,
                    part@,
                    reference@,
                    next,
                ) by {
                    assert(before.push(found).contains(next));
                }
                assert forall|n: int|
                    0 <= n < i + 1 implies (pointed(#[trigger] views(starts@)[n], pointer@) matches Some(next) ==> views(
                    out@,
                ).contains(next)) by {
                    if let Some(next) = pointed(views(starts@)[n], pointer@) {
                        assert(before.push(found).contains(next));
                    }
                }
            }
        }
        i += 1;
    }
    assert forall|next: JsonView| #[trigger] views(out@).contains(next) <==> may_lead(doc@, dialect, part@, reference@, next) by {
        if may_lead(doc@, dialect, part@, reference@, next) {
            let start = choose|start: JsonView| #[trigger]
                begins(doc@, dialect, part@, address@, start) && lands(doc@, dialect, start, fragment@, next);
            assert(views(starts@).contains(start));
            let n = choose|n: int| 0 <= n < views(starts@).len() && views(starts@)[n] == start;
            assert(pointed(views(starts@)[n], pointer@) == Some(next));
        }
    }
    out
}

} // verus!
