//! Which JSON Schema documents a check is sure to come to an end on.
//!
//! A schema is usable unless going through it runs in a circle, or meets what the checking library gives
//! up on with a panic.

use vstd::prelude::*;
use crate::graph::{arc, closed_graph, ends, ends_in, find_ends, find_reached, reached, reached_in};
use crate::json::{member, text_at, Json, JsonView};
use crate::parts::{
    child_of, entries_of, held, holds, inside, is_part_of, lemma_child_is_smaller, lemma_inside, lemma_member_is_child,
    members, part_of, parts, same_json, views,
};
use crate::patterns::{is_plain_pattern, plain_pattern};
use crate::references::{
    address_of, address_part, begins, crooked, dialect_named, dialect_of, find_address, find_dialect, find_dialect_named,
    find_leads, find_resources, fragment_part, is_crooked, is_settled_address, lands, may_lead, resource, settled_address,
    text_from, Dialect,
};
use crate::schema_walk::{add_places, arrow, by_member, by_reference, lemma_arrow_inside, onward, places, Mode, Place};

verus! {

/// The document holds a reference.
pub open spec fn refers(doc: JsonView) -> bool {
    held(doc, "$ref"@) || held(doc, "$dynamicRef"@) || held(doc, "$recursiveRef"@)
}

/// The document speaks of what nothing else in it speaks of.
pub open spec fn gathers(doc: JsonView) -> bool {
    held(doc, "unevaluatedProperties"@) || held(doc, "unevaluatedItems"@)
}

/// `to` is come to in `steps` steps from reading the document.
pub open spec fn visited_in(doc: JsonView, dialect: Dialect, to: Place, steps: nat) -> bool
    decreases steps,
{
    if steps == 0 {
        to == (Place { mode: Mode::Read, part: doc })
    } else {
        exists|from: Place|
            visited_in(doc, dialect, from, (steps - 1) as nat) && #[trigger] arrow(doc, dialect, true, from, to)
    }
}

/// Reading the document, and holding it against values, comes to this place.
pub open spec fn visited(doc: JsonView, dialect: Dialect, to: Place) -> bool {
    exists|steps: nat| visited_in(doc, dialect, to, steps)
}

/// What a place makes at once is done in `steps` steps.
pub open spec fn done_in(doc: JsonView, dialect: Dialect, from: Place, steps: nat) -> bool
    decreases steps,
{
    forall|to: Place| #[trigger]
        arrow(doc, dialect, false, from, to) ==> steps > 0 && done_in(doc, dialect, to, (steps - 1) as nat)
}

/// What a place makes at once is done at some time.
pub open spec fn done(doc: JsonView, dialect: Dialect, from: Place) -> bool {
    exists|steps: nat| done_in(doc, dialect, from, steps)
}

/// A part whose address is taken anew each time it is come to. Where it then is another one, references in
/// the part are lost.
pub open spec fn shifts(dialect: Dialect, reference: Seq<char>, part: JsonView) -> bool {
    address_of(dialect, part) matches Some(address) && refers(part) && (!settled_address(address) || crooked(
        dialect,
        reference,
    ))
}

/// The dialect that a part inside a document is read in.
pub open spec fn inner_dialect(text: Seq<char>) -> Dialect {
    match dialect_named(text) {
        Some(dialect) => dialect,
        None => Dialect::Draft2020,
    }
}

/// A part in a dialect of its own, with references, addresses or keywords that mean something else there.
pub open spec fn mixes(dialect: Dialect, part: JsonView) -> bool {
    text_at(part, "$schema"@) matches Some(text) && inner_dialect(text) != dialect && (refers(part) || gathers(part) || held(
        part,
        "id"@,
    ) || held(part, "$id"@))
}

/// All patterns for properties are plain.
pub open spec fn plain_patterns(part: JsonView) -> bool {
    member(part, "patternProperties"@) matches Some(patterns) ==> forall|pattern: Seq<char>| #[trigger]
        member(patterns, pattern) is Some ==> plain_pattern(pattern)
}

/// The items of an array are described by one schema or by a list of them, or what follows them is.
pub open spec fn plain_items(part: JsonView) -> bool {
    member(part, "additionalItems"@) is Some || (member(part, "items"@) matches Some(items) ==> items is Object || items is Array)
}

/// `part` stands in `whole` where it is read before the conditions of `whole` are.
pub open spec fn amid(whole: JsonView, part: JsonView) -> bool {
    &&& member(whole, "if"@) is Some || member(whole, "dependentSchemas"@) is Some
    &&& (member(whole, "contains"@) matches Some(inner) && part_of(inner, part)) || (member(whole, "dependencies"@) matches Some(
        inner,
    ) && part_of(inner, part))
}

/// A reference may lead to what has no properties.
pub open spec fn leads_bare(doc: JsonView, dialect: Dialect, part: JsonView, reference: Seq<char>) -> bool {
    exists|next: JsonView| #[trigger] may_lead(doc, dialect, part, reference, next) && !(next is Object)
}

/// A reference may lead to a whole that is still being read.
pub open spec fn leads_amid(doc: JsonView, dialect: Dialect, part: JsonView, reference: Seq<char>) -> bool {
    exists|next: JsonView| #[trigger] may_lead(doc, dialect, part, reference, next) && amid(next, part)
}

/// A condition that decides nothing, and so is not read with the part.
pub open spec fn idle(part: JsonView) -> bool {
    &&& member(part, "if"@) matches Some(condition) && condition is Object
    &&& member(part, "then"@) is None && member(part, "else"@) is None
}

pub open spec fn idles(value: JsonView) -> bool {
    exists|part: JsonView| #[trigger] part_of(value, part) && idle(part)
}

/// A reference may lead to a condition that was never read.
pub open spec fn leads_idle(doc: JsonView, dialect: Dialect, part: JsonView, reference: Seq<char>) -> bool {
    exists|next: JsonView| #[trigger] may_lead(doc, dialect, part, reference, next) && idles(next)
}

/// Going through properties, a `$ref` is met that has no properties, or conditions that were never read, or
/// a `$dynamicRef` to a whole that is still being read.
pub open spec fn loose(doc: JsonView, dialect: Dialect, part: JsonView) -> bool {
    ||| text_at(part, "$ref"@) matches Some(reference) && (leads_bare(doc, dialect, part, reference) || leads_idle(
        doc,
        dialect,
        part,
        reference,
    ))
    ||| text_at(part, "$dynamicRef"@) matches Some(reference) && leads_amid(doc, dialect, part, reference)
}

/// The part stands in one with an address of its own.
pub open spec fn embedded(doc: JsonView, dialect: Dialect, part: JsonView) -> bool {
    exists|whole: JsonView| #[trigger] resource(doc, dialect, whole) && whole != doc && part_of(whole, part)
}

/// A reference may lead to references that stand in a part with an address of its own.
pub open spec fn leads_off(doc: JsonView, dialect: Dialect, part: JsonView, reference: Seq<char>) -> bool {
    exists|next: JsonView| #[trigger]
        may_lead(doc, dialect, part, reference, next) && embedded(doc, dialect, next) && refers(next)
}

/// A reference is met that is taken against the address of another part than its own.
pub open spec fn strays(doc: JsonView, dialect: Dialect, part: JsonView) -> bool {
    ||| text_at(part, "$ref"@) matches Some(reference) && (embedded(doc, dialect, part) || leads_off(
        doc,
        dialect,
        part,
        reference,
    ))
    ||| text_at(part, "$dynamicRef"@) matches Some(reference) && (embedded(doc, dialect, part) || leads_off(
        doc,
        dialect,
        part,
        reference,
    ))
}

/// A reference may lead to a part whose address moves.
pub open spec fn leads_astray(doc: JsonView, dialect: Dialect, part: JsonView, reference: Seq<char>) -> bool {
    exists|next: JsonView| #[trigger] may_lead(doc, dialect, part, reference, next) && shifts(dialect, reference, next)
}

/// A `$recursiveRef` may mean a part that was never read as a whole.
pub open spec fn leads_within(doc: JsonView, dialect: Dialect) -> bool {
    exists|next: JsonView| #[trigger] resource(doc, dialect, next) && next != doc
}

/// A reference of the part may lead to a part whose address moves, or that was never read.
pub open spec fn goes_astray(doc: JsonView, dialect: Dialect, part: JsonView) -> bool {
    ||| text_at(part, "$ref"@) matches Some(reference) && leads_astray(doc, dialect, part, reference)
    ||| dialect == Dialect::Draft2020 && (text_at(part, "$dynamicRef"@) matches Some(reference) && leads_astray(
        doc,
        dialect,
        part,
        reference,
    ))
    ||| dialect == Dialect::Draft2019 && member(part, "$recursiveRef"@) is Some && (leads_within(doc, dialect) || leads_astray(
        doc,
        dialect,
        part,
        "#"@,
    ))
}

/// The checking library panics at this place.
pub open spec fn breaks(doc: JsonView, dialect: Dialect, place: Place) -> bool {
    match place.mode {
        Mode::Check => false,
        Mode::Read => goes_astray(doc, dialect, place.part),
        Mode::Props => {
            ||| !plain_patterns(place.part) || strays(doc, dialect, place.part)
            ||| dialect == Dialect::Draft2020 && loose(doc, dialect, place.part)
            ||| dialect == Dialect::Draft2019 && member(place.part, "$recursiveRef"@) is Some && idles(doc)
        },
        Mode::Items => strays(doc, dialect, place.part) || dialect == Dialect::Draft2019 && !plain_items(place.part),
    }
}

/// Reading the schema, and holding it against any value, comes to an end without a panic. Which values
/// enter a circle is not weighed: one that a value would have to enter through a branch that is never taken
/// counts too. What names a dialect that is not known is refused before anything else is looked at.
pub open spec fn usable(doc: JsonView) -> bool {
    dialect_of(doc) matches Some(dialect) ==> refers(doc) || gathers(doc) ==> {
        &&& forall|part: JsonView| #[trigger] part_of(doc, part) ==> !mixes(dialect, part)
        &&& forall|place: Place| #[trigger]
            visited(doc, dialect, place) ==> done(doc, dialect, place) && !breaks(doc, dialect, place)
    }
}

/// What is said of a schema that is not usable.
pub open spec fn unbounded() -> Seq<char> {
    "its references or keywords have no bound"@
}

fn does_refer(doc: &Json) -> (r: bool)
    ensures
        r == refers(doc@),
{
    holds(doc, "$ref") || holds(doc, "$dynamicRef") || holds(doc, "$recursiveRef")
}

fn does_gather(doc: &Json) -> (r: bool)
    ensures
        r == gathers(doc@),
{
    holds(doc, "unevaluatedProperties") || holds(doc, "unevaluatedItems")
}

fn does_shift(dialect: Dialect, reference: &str, part: &Json) -> (r: bool)
    ensures
        r == shifts(dialect, reference@, part@),
{
    match find_address(dialect, part) {
        Some(address) => does_refer(part) && (!is_settled_address(text_from(&address).as_str()) || is_crooked(
            dialect,
            reference,
        )),
        None => false,
    }
}

fn does_mix(dialect: Dialect, part: &Json) -> (r: bool)
    ensures
        r == mixes(dialect, part@),
{
    match part.text_at("$schema") {
        Some(text) => {
            let inner = match find_dialect_named(text) {
                Some(inner) => inner,
                None => Dialect::Draft2020,
            };
            inner != dialect && (does_refer(part) || does_gather(part) || holds(part, "id") || holds(part, "$id"))
        },
        None => false,
    }
}

fn has_plain_patterns(part: &Json) -> (r: bool)
    ensures
        r == plain_patterns(part@),
{
    let patterns = match part.get("patternProperties") {
        Some(patterns) => patterns,
        None => {
            return true;
        },
    };
    let list = members(patterns);
    let mut i: usize = 0;
    while i < list.len()
        invariant
            i <= list@.len(),
            member(part@, "patternProperties"@) == Some(patterns@),
            forall|k: Seq<char>, v: JsonView|
                member(patterns@, k) == Some(v) <==> #[trigger] entries_of(list@).contains((k, v)),
            forall|n: int| 0 <= n < i ==> plain_pattern((#[trigger] entries_of(list@)[n]).0),
        decreases list@.len() - i,
    {
        let ghost pair = entries_of(list@)[i as int];
        if !is_plain_pattern(list[i].0) {
            assert(entries_of(list@).contains((pair.0, pair.1)));
            assert(member(patterns@, pair.0) is Some);
            return false;
        }
        i += 1;
    }
    assert forall|pattern: Seq<char>| #[trigger] member(patterns@, pattern) is Some implies plain_pattern(pattern) by {
        let value = member(patterns@, pattern)->0;
        assert(entries_of(list@).contains((pattern, value)));
        let n = choose|n: int|
            0 <= n < entries_of(list@).len() && entries_of(list@)[n] == (pattern, value);
        assert(plain_pattern(entries_of(list@)[n].0));
    }
    true
}

fn has_plain_items(part: &Json) -> (r: bool)
    ensures
        r == plain_items(part@),
{
    part.get("additionalItems").is_some() || match part.get("items") {
        Some(items) => matches!(items, Json::Object(_) | Json::Array(_)),
        None => true,
    }
}

fn is_amid(whole: &Json, part: &Json) -> (r: bool)
    ensures
        r == amid(whole@, part@),
{
    if whole.get("if").is_none() && whole.get("dependentSchemas").is_none() {
        return false;
    }
    let early = match whole.get("contains") {
        Some(inner) => is_part_of(inner, part),
        None => false,
    };
    early || match whole.get("dependencies") {
        Some(inner) => is_part_of(inner, part),
        None => false,
    }
}

fn does_lead_bare(doc: &Json, dialect: Dialect, part: &Json, reference: &str) -> (r: bool)
    ensures
        r == leads_bare(doc@, dialect, part@, reference@),
{
    let list = find_leads(doc, dialect, part, reference);
    let mut i: usize = 0;
    while i < list.len()
        invariant
            i <= list@.len(),
            forall|next: JsonView| #[trigger] views(list@).contains(next) <==> may_lead(doc@, dialect, part@, reference@, next),
            forall|n: int| 0 <= n < i ==> (#[trigger] views(list@)[n]) is Object,
        decreases list@.len() - i,
    {
        assert(views(list@)[i as int] == list@[i as int]@);
        if !matches!(list[i], Json::Object(_)) {
            assert(views(list@).contains(list@[i as int]@));
            assert(may_lead(doc@, dialect, part@, reference@, list@[i as int]@));
            return true;
        }
        i += 1;
    }
    assert forall|next: JsonView| #[trigger] may_lead(doc@, dialect, part@, reference@, next) implies next is Object by {
        assert(views(list@).contains(next));
        let n = choose|n: int| 0 <= n < views(list@).len() && views(list@)[n] == next;
        assert(views(list@)[n] is Object);
    }
    false
}

fn does_lead_amid(doc: &Json, dialect: Dialect, part: &Json, reference: &str) -> (r: bool)
    ensures
        r == leads_amid(doc@, dialect, part@, reference@),
{
    let list = find_leads(doc, dialect, part, reference);
    let mut i: usize = 0;
    while i < list.len()
        invariant
            i <= list@.len(),
            forall|next: JsonView| #[trigger] views(list@).contains(next) <==> may_lead(doc@, dialect, part@, reference@, next),
            forall|n: int| 0 <= n < i ==> !amid(#[trigger] views(list@)[n], part@),
        decreases list@.len() - i,
    {
        assert(views(list@)[i as int] == list@[i as int]@);
        if is_amid(list[i], part) {
            assert(views(list@).contains(list@[i as int]@));
            assert(may_lead(doc@, dialect, part@, reference@, list@[i as int]@));
            return true;
        }
        i += 1;
    }
    assert forall|next: JsonView| #[trigger] may_lead(doc@, dialect, part@, reference@, next) implies !amid(next, part@) by {
        assert(views(list@).contains(next));
        let n = choose|n: int| 0 <= n < views(list@).len() && views(list@)[n] == next;
        assert(!amid(views(list@)[n], part@));
    }
    false
}

fn is_idle(part: &Json) -> (r: bool)
    ensures
        r == idle(part@),
{
    match part.get("if") {
        Some(condition) => matches!(condition, Json::Object(_)) && part.get("then").is_none() && part.get("else").is_none(),
        None => false,
    }
}

fn does_idle(value: &Json) -> (r: bool)
    ensures
        r == idles(value@),
{
    let list = parts(value);
    let mut i: usize = 0;
    while i < list.len()
        invariant
            i <= list@.len(),
            forall|p: JsonView| part_of(value@, p) <==> #[trigger] views(list@).contains(p),
            forall|n: int| 0 <= n < i ==> !idle(#[trigger] views(list@)[n]),
        decreases list@.len() - i,
    {
        assert(views(list@)[i as int] == list@[i as int]@);
        if is_idle(list[i]) {
            assert(views(list@).contains(list@[i as int]@));
            assert(part_of(value@, list@[i as int]@));
            return true;
        }
        i += 1;
    }
    assert forall|part: JsonView| #[trigger] part_of(value@, part) implies !idle(part) by {
        assert(views(list@).contains(part));
        let n = choose|n: int| 0 <= n < views(list@).len() && views(list@)[n] == part;
        assert(!idle(views(list@)[n]));
    }
    false
}

fn does_lead_idle(doc: &Json, dialect: Dialect, part: &Json, reference: &str) -> (r: bool)
    ensures
        r == leads_idle(doc@, dialect, part@, reference@),
{
    let list = find_leads(doc, dialect, part, reference);
    let mut i: usize = 0;
    while i < list.len()
        invariant
            i <= list@.len(),
            forall|next: JsonView| #[trigger] views(list@).contains(next) <==> may_lead(doc@, dialect, part@, reference@, next),
            forall|n: int| 0 <= n < i ==> !idles(#[trigger] views(list@)[n]),
        decreases list@.len() - i,
    {
        assert(views(list@)[i as int] == list@[i as int]@);
        if does_idle(list[i]) {
            assert(views(list@).contains(list@[i as int]@));
            assert(may_lead(doc@, dialect, part@, reference@, list@[i as int]@));
            return true;
        }
        i += 1;
    }
    assert forall|next: JsonView| #[trigger] may_lead(doc@, dialect, part@, reference@, next) implies !idles(next) by {
        assert(views(list@).contains(next));
        let n = choose|n: int| 0 <= n < views(list@).len() && views(list@)[n] == next;
        assert(!idles(views(list@)[n]));
    }
    false
}

fn is_embedded(doc: &Json, dialect: Dialect, part: &Json) -> (r: bool)
    ensures
        r == embedded(doc@, dialect, part@),
{
    let list = find_resources(doc, dialect);
    let mut i: usize = 0;
    while i < list.len()
        invariant
            i <= list@.len(),
            forall|whole: JsonView| #[trigger] views(list@).contains(whole) <==> resource(doc@, dialect, whole),
            forall|n: int| 0 <= n < i ==> !(#[trigger] views(list@)[n] != doc@ && part_of(views(list@)[n], part@)),
        decreases list@.len() - i,
    {
        assert(views(list@)[i as int] == list@[i as int]@);
        if !same_json(list[i], doc) && is_part_of(list[i], part) {
            assert(views(list@).contains(list@[i as int]@));
            assert(resource(doc@, dialect, list@[i as int]@));
            return true;
        }
        i += 1;
    }
    assert forall|whole: JsonView| #[trigger] resource(doc@, dialect, whole) implies whole == doc@ || !part_of(
        whole,
        part@,
    ) by {
        assert(views(list@).contains(whole));
        let n = choose|n: int| 0 <= n < views(list@).len() && views(list@)[n] == whole;
        assert(views(list@)[n] == whole);
    }
    false
}

fn does_lead_off(doc: &Json, dialect: Dialect, part: &Json, reference: &str) -> (r: bool)
    ensures
        r == leads_off(doc@, dialect, part@, reference@),
{
    let list = find_leads(doc, dialect, part, reference);
    let mut i: usize = 0;
    while i < list.len()
        invariant
            i <= list@.len(),
            forall|next: JsonView| #[trigger] views(list@).contains(next) <==> may_lead(doc@, dialect, part@, reference@, next),
            forall|n: int| 0 <= n < i ==> !(embedded(doc@, dialect, #[trigger] views(list@)[n]) && refers(views(list@)[n])),
        decreases list@.len() - i,
    {
        assert(views(list@)[i as int] == list@[i as int]@);
        if is_embedded(doc, dialect, list[i]) && does_refer(list[i]) {
            assert(views(list@).contains(list@[i as int]@));
            assert(may_lead(doc@, dialect, part@, reference@, list@[i as int]@));
            return true;
        }
        i += 1;
    }
    assert forall|next: JsonView| #[trigger] may_lead(doc@, dialect, part@, reference@, next) implies !(embedded(doc@, dialect, next) && refers(next)) by {
        assert(views(list@).contains(next));
        let n = choose|n: int| 0 <= n < views(list@).len() && views(list@)[n] == next;
        assert(!(embedded(doc@, dialect, views(list@)[n]) && refers(views(list@)[n])));
    }
    false
}

fn does_stray(doc: &Json, dialect: Dialect, part: &Json) -> (r: bool)
    ensures
        r == strays(doc@, dialect, part@),
{
    if let Some(reference) = part.text_at("$ref") {
        if is_embedded(doc, dialect, part) || does_lead_off(doc, dialect, part, reference) {
            return true;
        }
    }
    match part.text_at("$dynamicRef") {
        Some(reference) => is_embedded(doc, dialect, part) || does_lead_off(doc, dialect, part, reference),
        None => false,
    }
}

fn is_loose(doc: &Json, dialect: Dialect, part: &Json) -> (r: bool)
    ensures
        r == loose(doc@, dialect, part@),
{
    if let Some(reference) = part.text_at("$ref") {
        if does_lead_bare(doc, dialect, part, reference) || does_lead_idle(doc, dialect, part, reference) {
            return true;
        }
    }
    match part.text_at("$dynamicRef") {
        Some(reference) => does_lead_amid(doc, dialect, part, reference),
        None => false,
    }
}

fn does_lead_astray(doc: &Json, dialect: Dialect, part: &Json, reference: &str) -> (r: bool)
    ensures
        r == leads_astray(doc@, dialect, part@, reference@),
{
    let list = find_leads(doc, dialect, part, reference);
    let mut i: usize = 0;
    while i < list.len()
        invariant
            i <= list@.len(),
            forall|next: JsonView| #[trigger] views(list@).contains(next) <==> may_lead(doc@, dialect, part@, reference@, next),
            forall|n: int| 0 <= n < i ==> !shifts(dialect, reference@, #[trigger] views(list@)[n]),
        decreases list@.len() - i,
    {
        assert(views(list@)[i as int] == list@[i as int]@);
        if does_shift(dialect, reference, list[i]) {
            assert(views(list@).contains(list@[i as int]@));
            assert(may_lead(doc@, dialect, part@, reference@, list@[i as int]@));
            return true;
        }
        i += 1;
    }
    assert forall|next: JsonView| #[trigger] may_lead(doc@, dialect, part@, reference@, next) implies !shifts(dialect, reference@, next) by {
        assert(views(list@).contains(next));
        let n = choose|n: int| 0 <= n < views(list@).len() && views(list@)[n] == next;
        assert(!shifts(dialect, reference@, views(list@)[n]));
    }
    false
}

fn does_lead_within(doc: &Json, dialect: Dialect) -> (r: bool)
    ensures
        r == leads_within(doc@, dialect),
{
    let list = find_resources(doc, dialect);
    let mut i: usize = 0;
    while i < list.len()
        invariant
            i <= list@.len(),
            forall|next: JsonView| #[trigger] views(list@).contains(next) <==> resource(doc@, dialect, next),
            forall|n: int| 0 <= n < i ==> #[trigger] views(list@)[n] == doc@,
        decreases list@.len() - i,
    {
        assert(views(list@)[i as int] == list@[i as int]@);
        if !same_json(list[i], doc) {
            assert(views(list@).contains(list@[i as int]@));
            assert(resource(doc@, dialect, list@[i as int]@));
            return true;
        }
        i += 1;
    }
    assert forall|next: JsonView| #[trigger] resource(doc@, dialect, next) implies next == doc@ by {
        assert(views(list@).contains(next));
        let n = choose|n: int| 0 <= n < views(list@).len() && views(list@)[n] == next;
        assert(views(list@)[n] == doc@);
    }
    false
}

fn does_go_astray(doc: &Json, dialect: Dialect, part: &Json) -> (r: bool)
    ensures
        r == goes_astray(doc@, dialect, part@),
{
    if let Some(reference) = part.text_at("$ref") {
        if does_lead_astray(doc, dialect, part, reference) {
            return true;
        }
    }
    if dialect == Dialect::Draft2020 {
        if let Some(reference) = part.text_at("$dynamicRef") {
            if does_lead_astray(doc, dialect, part, reference) {
                return true;
            }
        }
    }
    dialect == Dialect::Draft2019 && part.get("$recursiveRef").is_some() && (does_lead_astray(doc, dialect, part, "#")
        || does_lead_within(doc, dialect))
}

fn does_break(doc: &Json, dialect: Dialect, mode: Mode, part: &Json) -> (r: bool)
    ensures
        r == breaks(doc@, dialect, Place { mode, part: part@ }),
{
    match mode {
        Mode::Check => false,
        Mode::Read => does_go_astray(doc, dialect, part),
        Mode::Props => !has_plain_patterns(part) || does_stray(doc, dialect, part) || (dialect == Dialect::Draft2020 && is_loose(
            doc,
            dialect,
            part,
        )) || (dialect == Dialect::Draft2019 && part.get("$recursiveRef").is_some() && does_idle(doc)),
        Mode::Items => does_stray(doc, dialect, part) || (dialect == Dialect::Draft2019 && !has_plain_items(part)),
    }
}

/// The arcs stand for the steps between the places of a list.
spec fn charts(arcs: Seq<Vec<usize>>, spots: Seq<Place>, doc: JsonView, dialect: Dialect, all: bool) -> bool {
    &&& arcs.len() == spots.len()
    &&& forall|i: int, j: int| #[trigger]
        arc(arcs, i, j) ==> 0 <= j < spots.len() && arrow(doc, dialect, all, spots[i], spots[j])
    &&& forall|i: int, to: Place|
        0 <= i < spots.len() && #[trigger] arrow(doc, dialect, all, spots[i], to) ==> exists|j: int| #[trigger]
            arc(arcs, i, j) && spots[j] == to
}

proof fn lemma_charts_closed(arcs: Seq<Vec<usize>>, spots: Seq<Place>, doc: JsonView, dialect: Dialect, all: bool)
    requires
        charts(arcs, spots, doc, dialect, all),
    ensures
        closed_graph(arcs),
{
    assert forall|i: int, k: int| 0 <= i < arcs.len() && 0 <= k < arcs[i]@.len() implies (#[trigger] arcs[i]@[k]) < arcs.len() by {
        assert(arc(arcs, i, arcs[i]@[k] as int));
    }
}

/// What is reached over arcs is visited.
proof fn lemma_reached_is_visited(
    arcs: Seq<Vec<usize>>,
    spots: Seq<Place>,
    doc: JsonView,
    dialect: Dialect,
    start: int,
    to: int,
    steps: nat,
)
    requires
        charts(arcs, spots, doc, dialect, true),
        0 <= start < spots.len(),
        spots[start] == (Place { mode: Mode::Read, part: doc }),
        reached_in(arcs, start, to, steps),
    ensures
        0 <= to < spots.len(),
        visited_in(doc, dialect, spots[to], steps),
    decreases steps,
{
    if steps > 0 {
        let before = choose|before: int| reached_in(arcs, start, before, (steps - 1) as nat) && #[trigger] arc(arcs, before, to);
        lemma_reached_is_visited(arcs, spots, doc, dialect, start, before, (steps - 1) as nat);
        assert(arrow(doc, dialect, true, spots[before], spots[to]));
    }
}

/// What is visited is reached over arcs.
proof fn lemma_visited_is_reached(
    arcs: Seq<Vec<usize>>,
    spots: Seq<Place>,
    doc: JsonView,
    dialect: Dialect,
    start: int,
    to: Place,
    steps: nat,
) -> (at: int)
    requires
        charts(arcs, spots, doc, dialect, true),
        0 <= start < spots.len(),
        spots[start] == (Place { mode: Mode::Read, part: doc }),
        visited_in(doc, dialect, to, steps),
    ensures
        0 <= at < spots.len(),
        spots[at] == to,
        reached_in(arcs, start, at, steps),
    decreases steps,
{
    if steps == 0 {
        start
    } else {
        let from = choose|from: Place|
            visited_in(doc, dialect, from, (steps - 1) as nat) && #[trigger] arrow(doc, dialect, true, from, to);
        let before = lemma_visited_is_reached(arcs, spots, doc, dialect, start, from, (steps - 1) as nat);
        assert(arrow(doc, dialect, true, spots[before], to));
        let at = choose|j: int| #[trigger] arc(arcs, before, j) && spots[j] == to;
        assert(reached_in(arcs, start, before, (steps - 1) as nat) && arc(arcs, before, at));
        at
    }
}

/// Walks over arcs are as long as walks between places.
proof fn lemma_ends_is_done(
    arcs: Seq<Vec<usize>>,
    spots: Seq<Place>,
    doc: JsonView,
    dialect: Dialect,
    from: int,
    steps: nat,
)
    requires
        charts(arcs, spots, doc, dialect, false),
        0 <= from < spots.len(),
    ensures
        ends_in(arcs, from, steps) <==> done_in(doc, dialect, spots[from], steps),
    decreases steps,
{
    if ends_in(arcs, from, steps) {
        assert forall|to: Place| #[trigger] arrow(doc, dialect, false, spots[from], to) implies steps > 0 && done_in(
            doc,
            dialect,
            to,
            (steps - 1) as nat,
        ) by {
            let j = choose|j: int| #[trigger] arc(arcs, from, j) && spots[j] == to;
            if steps > 0 {
                lemma_ends_is_done(arcs, spots, doc, dialect, j, (steps - 1) as nat);
            }
        }
    }
    if done_in(doc, dialect, spots[from], steps) {
        assert forall|j: int| #[trigger] arc(arcs, from, j) implies steps > 0 && ends_in(arcs, j, (steps - 1) as nat) by {
            assert(arrow(doc, dialect, false, spots[from], spots[j]));
            if steps > 0 {
                lemma_ends_is_done(arcs, spots, doc, dialect, j, (steps - 1) as nat);
            }
        }
    }
}

fn find_spot(spots: &Vec<(Mode, &Json)>, mode: Mode, part: &Json) -> (r: usize)
    requires
        places(spots@).contains(Place { mode, part: part@ }),
    ensures
        r < spots@.len(),
        places(spots@)[r as int] == (Place { mode, part: part@ }),
{
    let mut i: usize = 0;
    while i < spots.len()
        invariant
            i <= spots@.len(),
            places(spots@).contains(Place { mode, part: part@ }),
            forall|n: int| 0 <= n < i ==> #[trigger] places(spots@)[n] != (Place { mode, part: part@ }),
        decreases spots@.len() - i,
    {
        assert(places(spots@)[i as int] == (Place { mode: spots@[i as int].0, part: spots@[i as int].1@ }));
        if spots[i].0 == mode && same_json(spots[i].1, part) {
            return i;
        }
        i += 1;
    }
    proof {
        let n = choose|n: int| 0 <= n < places(spots@).len() && places(spots@)[n] == (Place { mode, part: part@ });
        assert(places(spots@)[n] != (Place { mode, part: part@ }));
    }
    0
}

/// Draws the steps between the places of a list that holds every place.
fn chart(doc: &Json, dialect: Dialect, all: bool, spots: &Vec<(Mode, &Json)>) -> (r: Vec<Vec<usize>>)
    requires
        forall|to: Place| part_of(doc@, to.part) <==> #[trigger] places(spots@).contains(to),
    ensures
        charts(r@, places(spots@), doc@, dialect, all),
{
    let mut arcs: Vec<Vec<usize>> = Vec::new();
    let ghost list = places(spots@);
    let mut i: usize = 0;
    while i < spots.len()
        invariant
            i <= spots@.len(),
            list == places(spots@),
            list.len() == spots@.len(),
            arcs@.len() == i,
            forall|to: Place| part_of(doc@, to.part) <==> #[trigger] list.contains(to),
            forall|a: int, j: int| #[trigger]
                arc(arcs@, a, j) ==> 0 <= j < list.len() && arrow(doc@, dialect, all, list[a], list[j]),
            forall|a: int, to: Place|
                0 <= a < i && #[trigger] arrow(doc@, dialect, all, list[a], to) ==> exists|j: int| #[trigger]
                    arc(arcs@, a, j) && list[j] == to,
        decreases spots@.len() - i,
    {
        let (mode, part) = spots[i];
        let ghost here = Place { mode, part: part@ };
        assert(list[i as int] == here);
        assert(list.contains(here));
        let next = onward(doc, dialect, all, mode, part);
        let mut targets: Vec<usize> = Vec::new();
        let mut k: usize = 0;
        while k < next.len()
            invariant
                k <= next@.len(),
                targets@.len() == k,
                list == places(spots@),
                here == (Place { mode, part: part@ }),
                part_of(doc@, here.part),
                forall|to: Place| part_of(doc@, to.part) <==> #[trigger] list.contains(to),
                forall|to: Place| #[trigger] places(next@).contains(to) <==> arrow(doc@, dialect, all, here, to),
                forall|n: int|
                    0 <= n < k ==> (#[trigger] targets@[n]) < list.len() && list[targets@[n] as int] == places(next@)[n],
            decreases next@.len() - k,
        {
            let (m, p) = next[k];
            let ghost to = Place { mode: m, part: p@ };
            assert(places(next@)[k as int] == to);
            assert(places(next@).contains(to));
            proof {
                lemma_arrow_inside(doc@, dialect, all, here, to);
            }
            assert(list.contains(to));
            targets.push(find_spot(spots, m, p));
            k += 1;
        }
        let ghost before = arcs@;
        let ghost drawn = targets@;
        arcs.push(targets);
        proof {
            assert(arcs@[i as int]@ == drawn);
            assert forall|a: int, j: int| #[trigger] arc(arcs@, a, j) implies 0 <= j < list.len() && arrow(
                doc@,
                dialect,
                all,
                list[a],
                list[j],
            ) by {
                if a < i {
                    assert(arcs@[a] == before[a]);
                    assert(arc(before, a, j));
                } else {
                    let n = choose|n: int| 0 <= n < arcs@[a]@.len() && #[trigger] arcs@[a]@[n] == j;
                    assert(drawn[n] == j);
                    assert(places(next@).contains(places(next@)[n]));
                }
            }
            assert forall|a: int, to: Place|
                0 <= a < i + 1 && #[trigger] arrow(doc@, dialect, all, list[a], to) implies exists|j: int| #[trigger]
                arc(arcs@, a, j) && list[j] == to by {
                if a < i {
                    let j = choose|j: int| #[trigger] arc(before, a, j) && list[j] == to;
                    assert(arcs@[a] == before[a]);
                    let n = choose|n: int| 0 <= n < before[a]@.len() && #[trigger] before[a]@[n] == j;
                    assert(arcs@[a]@[n] == j);
                    assert(arc(arcs@, a, j));
                } else {
                    assert(places(next@).contains(to));
                    let n = choose|n: int| 0 <= n < places(next@).len() && places(next@)[n] == to;
                    assert(drawn[n] < list.len());
                    assert(arcs@[a]@[n] == drawn[n]);
                    assert(arc(arcs@, a, drawn[n] as int));
                }
            }
        }
        i += 1;
    }
    arcs
}

fn is_mixed(doc: &Json, dialect: Dialect) -> (r: bool)
    ensures
        r == exists|part: JsonView| #[trigger] part_of(doc@, part) && mixes(dialect, part),
{
    let list = parts(doc);
    let mut i: usize = 0;
    while i < list.len()
        invariant
            i <= list@.len(),
            forall|p: JsonView| part_of(doc@, p) <==> #[trigger] views(list@).contains(p),
            forall|n: int| 0 <= n < i ==> !mixes(dialect, #[trigger] views(list@)[n]),
        decreases list@.len() - i,
    {
        assert(views(list@)[i as int] == list@[i as int]@);
        if does_mix(dialect, list[i]) {
            assert(views(list@).contains(list@[i as int]@));
            assert(part_of(doc@, list@[i as int]@));
            return true;
        }
        i += 1;
    }
    assert forall|part: JsonView| #[trigger] part_of(doc@, part) implies !mixes(dialect, part) by {
        assert(views(list@).contains(part));
        let n = choose|n: int| 0 <= n < views(list@).len() && views(list@)[n] == part;
        assert(!mixes(dialect, views(list@)[n]));
    }
    false
}

/// Every place of a document.
fn all_spots<'a>(doc: &'a Json) -> (r: Vec<(Mode, &'a Json)>)
    ensures
        forall|to: Place| part_of(doc@, to.part) <==> #[trigger] places(r@).contains(to),
{
    let list = parts(doc);
    let mut out: Vec<(Mode, &'a Json)> = Vec::new();
    add_places(&mut out, Mode::Check, &list);
    add_places(&mut out, Mode::Read, &list);
    add_places(&mut out, Mode::Props, &list);
    add_places(&mut out, Mode::Items, &list);
    assert forall|to: Place| part_of(doc@, to.part) <==> #[trigger] places(out@).contains(to) by {
        assert(part_of(doc@, to.part) <==> views(list@).contains(to.part));
    }
    out
}

/// Tells whether reading a schema, and holding it against values, comes to an end without a panic.
pub fn is_usable(doc: &Json) -> (r: bool)
    ensures
        r == usable(doc@),
{
    let dialect = match find_dialect(doc) {
        Some(dialect) => dialect,
        None => {
            return true;
        },
    };
    if !does_refer(doc) && !does_gather(doc) {
        return true;
    }
    if is_mixed(doc, dialect) {
        return false;
    }
    let spots = all_spots(doc);
    let ghost list = places(spots@);
    let ghost whole = Place { mode: Mode::Read, part: doc@ };
    assert(part_of(doc@, whole.part));
    assert(list.contains(whole));
    let start = find_spot(&spots, Mode::Read, doc);
    let arcs = chart(doc, dialect, true, &spots);
    let near = chart(doc, dialect, false, &spots);
    proof {
        lemma_charts_closed(arcs@, list, doc@, dialect, true);
        lemma_charts_closed(near@, list, doc@, dialect, false);
    }
    let seen = find_reached(&arcs, start);
    let ending = find_ends(&near);
    let mut i: usize = 0;
    while i < spots.len()
        invariant
            i <= spots@.len(),
            list == places(spots@),
            list.len() == spots@.len(),
            seen@.len() == list.len(),
            ending@.len() == list.len(),
            start < list.len(),
            list[start as int] == (Place { mode: Mode::Read, part: doc@ }),
            dialect_of(doc@) == Some(dialect),
            refers(doc@) || gathers(doc@),
            forall|part: JsonView| #[trigger] part_of(doc@, part) ==> !mixes(dialect, part),
            charts(arcs@, list, doc@, dialect, true),
            charts(near@, list, doc@, dialect, false),
            forall|n: int| 0 <= n < seen@.len() ==> (#[trigger] seen@[n] <==> reached(arcs@, start as int, n)),
            forall|n: int| 0 <= n < ending@.len() ==> (#[trigger] ending@[n] <==> ends(near@, n)),
            forall|n: int|
                0 <= n < i && #[trigger] seen@[n] ==> ending@[n] && !breaks(doc@, dialect, list[n]),
        decreases spots@.len() - i,
    {
        let (mode, part) = spots[i];
        assert(list[i as int] == (Place { mode, part: part@ }));
        if seen[i] && (!ending[i] || does_break(doc, dialect, mode, part)) {
            proof {
                let steps = choose|steps: nat| reached_in(arcs@, start as int, i as int, steps);
                lemma_reached_is_visited(arcs@, list, doc@, dialect, start as int, i as int, steps);
                assert(visited(doc@, dialect, list[i as int]));
                if done(doc@, dialect, list[i as int]) {
                    let bound = choose|bound: nat| done_in(doc@, dialect, list[i as int], bound);
                    lemma_ends_is_done(near@, list, doc@, dialect, i as int, bound);
                    assert(ends(near@, i as int));
                }
            }
            return false;
        }
        i += 1;
    }
    proof {
        assert forall|place: Place| #[trigger] visited(doc@, dialect, place) implies done(doc@, dialect, place) && !breaks(
            doc@,
            dialect,
            place,
        ) by {
            let steps = choose|steps: nat| visited_in(doc@, dialect, place, steps);
            let at = lemma_visited_is_reached(arcs@, list, doc@, dialect, start as int, place, steps);
            assert(reached(arcs@, start as int, at));
            assert(seen@[at]);
            assert(ends(near@, at));
            let bound = choose|bound: nat| ends_in(near@, at, bound);
            lemma_ends_is_done(near@, list, doc@, dialect, at, bound);
        }
    }
    true
}

/// `to` is come to from `from` in `steps` steps, each made at once.
pub open spec fn leads_in(doc: JsonView, dialect: Dialect, from: Place, to: Place, steps: nat) -> bool
    decreases steps,
{
    if steps == 0 {
        to == from
    } else {
        exists|next: Place| #[trigger]
            arrow(doc, dialect, false, from, next) && leads_in(doc, dialect, next, to, (steps - 1) as nat)
    }
}

/// What `steps` steps lead to is done `steps` steps earlier.
proof fn lemma_done_after(doc: JsonView, dialect: Dialect, from: Place, to: Place, steps: nat, bound: nat)
    requires
        done_in(doc, dialect, from, bound),
        leads_in(doc, dialect, from, to, steps),
    ensures
        steps <= bound,
        done_in(doc, dialect, to, (bound - steps) as nat),
    decreases steps,
{
    if steps > 0 {
        let next = choose|next: Place| #[trigger]
            arrow(doc, dialect, false, from, next) && leads_in(doc, dialect, next, to, (steps - 1) as nat);
        lemma_done_after(doc, dialect, next, to, (steps - 1) as nat, (bound - 1) as nat);
    }
}

proof fn lemma_no_circle(doc: JsonView, dialect: Dialect, place: Place, steps: nat, bound: nat)
    requires
        steps > 0,
        done_in(doc, dialect, place, bound),
    ensures
        !leads_in(doc, dialect, place, place, steps),
    decreases bound,
{
    if leads_in(doc, dialect, place, place, steps) {
        lemma_done_after(doc, dialect, place, place, steps, bound);
        lemma_no_circle(doc, dialect, place, steps, (bound - steps) as nat);
    }
}

/// What a usable schema makes at once never comes back to where it was.
pub proof fn law_references_do_not_circle(doc: JsonView, dialect: Dialect, place: Place, steps: nat)
    requires
        usable(doc),
        dialect_of(doc) == Some(dialect),
        refers(doc) || gathers(doc),
        visited(doc, dialect, place),
        steps > 0,
    ensures
        !leads_in(doc, dialect, place, place, steps),
{
    assert(done(doc, dialect, place));
    let bound = choose|bound: nat| done_in(doc, dialect, place, bound);
    lemma_no_circle(doc, dialect, place, steps, bound);
}

/// A schema without references, and without keywords for what nothing else speaks of, is usable.
pub proof fn law_plain_schemas_are_usable(doc: JsonView)
    requires
        !refers(doc),
        !gathers(doc),
    ensures
        usable(doc),
{
}

/// Only references, and keywords for what nothing else speaks of, can make a schema unusable: without any of
/// them, at whatever depth, it is usable.
pub proof fn law_schemas_without_references_are_usable(doc: JsonView)
    requires
        forall|part: JsonView| #[trigger]
            part_of(doc, part) ==> member(part, "$ref"@) is None && member(part, "$dynamicRef"@) is None && member(
                part,
                "$recursiveRef"@,
            ) is None && member(part, "unevaluatedProperties"@) is None && member(part, "unevaluatedItems"@) is None,
    ensures
        usable(doc),
{
}

/// A schema that asks of a value, through any of its combinations, just what it asks already has no end, and is
/// not usable.
pub proof fn law_schemas_that_ask_for_themselves_are_refused(
    entries: Map<Seq<char>, JsonView>,
    key: Seq<char>,
    items: Seq<JsonView>,
    i: int,
)
    requires
        !entries.dom().contains("$schema"@),
        key == "allOf"@ || key == "anyOf"@ || key == "oneOf"@,
        entries.dom().contains(key),
        entries[key] == JsonView::Array(items),
        0 <= i < items.len(),
        member(items[i], "$ref"@) == Some(JsonView::Text("#"@)),
    ensures
        !usable(JsonView::Object(entries)),
{
    reveal_strlit("#");
    let doc = JsonView::Object(entries);
    let list = JsonView::Array(items);
    let part = items[i];
    let dialect = Dialect::Draft2020;
    assert(dialect_of(doc) == Some(dialect));
    assert(member(doc, key) == Some(list));
    assert(items.contains(part));
    assert(child_of(list, part));
    lemma_member_is_child(entries, key);
    lemma_inside(list, part);
    lemma_inside(doc, part);
    assert(inside(doc, part));
    assert(part_of(doc, part));
    assert(held(doc, "$ref"@));
    lemma_child_is_smaller(doc, list);
    lemma_child_is_smaller(list, part);
    assert(part != doc);
    let read = Place { mode: Mode::Read, part: doc };
    let whole = Place { mode: Mode::Check, part: doc };
    let inner = Place { mode: Mode::Check, part };
    assert(arrow(doc, dialect, true, read, whole));
    assert(visited_in(doc, dialect, read, 0));
    assert(visited_in(doc, dialect, whole, 1));
    assert(visited(doc, dialect, whole));
    assert(by_member(dialect, Mode::Check, doc, key, list, inner));
    assert(arrow(doc, dialect, false, whole, inner));
    let mark = "#"@;
    assert(mark[0] == '#');
    assert(address_part(mark) =~= Seq::<char>::empty());
    assert(fragment_part(mark) =~= Seq::<char>::empty());
    assert(begins(doc, dialect, part, address_part(mark), doc));
    assert(lands(doc, dialect, doc, fragment_part(mark), doc));
    assert(may_lead(doc, dialect, part, mark, doc));
    assert(by_reference(doc, dialect, false, Mode::Check, part, "$ref"@, doc));
    assert(arrow(doc, dialect, false, inner, whole));
    assert(leads_in(doc, dialect, whole, whole, 0));
    assert(leads_in(doc, dialect, inner, whole, 1));
    assert(leads_in(doc, dialect, whole, whole, 2));
    if usable(doc) {
        law_references_do_not_circle(doc, dialect, whole, 2);
    }
}

} // verus!
