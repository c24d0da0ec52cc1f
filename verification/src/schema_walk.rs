//! How a checker goes through a JSON Schema document.
//!
//! A place is a part of the document together with what is done with it. A checker reads a part to build
//! its checks, holds the checks against a value, and, for `unevaluatedProperties` and `unevaluatedItems`,
//! goes once more through what bears on the same value.

use vstd::prelude::*;
use crate::json::{member, text_at, Json, JsonView};
use crate::parts::{child_of, children, entries_of, inside, members, part_of, same_json, views};
use crate::references::{
    find_leads, find_resources, is_modern, lemma_inside_of_inside, lemma_leads_inside, may_lead, modern, resource, Dialect,
};
use crate::text::same;

verus! {

/// What is done with a part.
#[derive(Debug, Clone, Copy, PartialEq, Eq, Structural)]
pub enum Mode {
    /// It is held against a value.
    Check,
    /// It is read.
    Read,
    /// It is gone through for the properties it speaks of.
    Props,
    /// It is gone through for the items it speaks of.
    Items,
}

pub struct Place {
    pub mode: Mode,
    pub part: JsonView,
}

/// A reference that hides everything beside it.
pub open spec fn hides(dialect: Dialect, part: JsonView) -> bool {
    !modern(dialect) && member(part, "$ref"@) is Some
}

pub open spec fn combines(key: Seq<char>) -> bool {
    key == "allOf"@ || key == "anyOf"@ || key == "oneOf"@
}

/// The keywords of a condition; without `if` the others say nothing.
pub open spec fn conditions(part: JsonView, key: Seq<char>) -> bool {
    key == "if"@ || (key == "then"@ || key == "else"@) && member(part, "if"@) is Some
}

/// The keywords of a condition that is held against the value: one that decides something, or one that
/// tells what else is spoken of.
pub open spec fn decides(dialect: Dialect, part: JsonView, key: Seq<char>) -> bool {
    &&& conditions(part, key)
    &&& modern(dialect) || dialect == Dialect::Draft7 && (member(part, "then"@) is Some || member(part, "else"@) is Some)
}

/// The keywords whose schemas are held against the same value.
pub open spec fn in_place(dialect: Dialect, part: JsonView, key: Seq<char>) -> bool {
    ||| combines(key) || key == "not"@
    ||| decides(dialect, part, key)
}

/// The keywords whose schemas are held against what the value holds.
pub open spec fn below(dialect: Dialect, key: Seq<char>) -> bool {
    ||| key == "additionalProperties"@ || key == "additionalItems"@ || key == "items"@
    ||| dialect != Dialect::Draft4 && (key == "contains"@ || key == "propertyNames"@)
    ||| dialect == Dialect::Draft2020 && key == "prefixItems"@
}

/// What stands under `key` is a schema, or a list of schemas, that is gone to in `next`.
pub open spec fn visits(dialect: Dialect, mode: Mode, part: JsonView, key: Seq<char>, next: Mode) -> bool {
    !hides(dialect, part) && match mode {
        Mode::Check => next == Mode::Check && in_place(dialect, part, key),
        Mode::Read => next == Mode::Read && (in_place(dialect, part, key) || below(dialect, key)),
        Mode::Props => {
            ||| next == Mode::Props && (combines(key) || conditions(part, key))
            ||| next == Mode::Read && (combines(key) || key == "if"@ || key == "additionalProperties"@ || key
                == "unevaluatedProperties"@)
        },
        Mode::Items => {
            ||| next == Mode::Items && (combines(key) || conditions(part, key))
            ||| next == Mode::Read && (combines(key) || key == "if"@ || key == "contains"@ || key == "unevaluatedItems"@)
        },
    }
}

/// The members of what stands under `key` are schemas that are gone to in `next`.
pub open spec fn visits_members(dialect: Dialect, mode: Mode, part: JsonView, key: Seq<char>, next: Mode) -> bool {
    !hides(dialect, part) && match mode {
        Mode::Check => next == Mode::Check && (key == "dependencies"@ || modern(dialect) && key == "dependentSchemas"@),
        Mode::Read => next == Mode::Read && (key == "dependencies"@ || modern(dialect) && key == "dependentSchemas"@ || key
            == "properties"@ || key == "patternProperties"@),
        Mode::Props => {
            ||| next == Mode::Props && key == "dependentSchemas"@
            ||| next == Mode::Read && (key == "properties"@ || key == "patternProperties"@)
        },
        Mode::Items => false,
    }
}

/// The keyword is there and asks for something.
pub open spec fn active(part: JsonView, key: Seq<char>) -> bool {
    member(part, key) matches Some(value) && value != JsonView::Bool(true)
}

/// What else is done with a part that is read.
pub open spec fn turns(dialect: Dialect, mode: Mode, part: JsonView, next: Mode) -> bool {
    mode == Mode::Read && match next {
        Mode::Check => true,
        Mode::Read => false,
        Mode::Props => modern(dialect) && active(part, "unevaluatedProperties"@),
        Mode::Items => modern(dialect) && active(part, "unevaluatedItems"@),
    }
}

/// `next` is the schema `value`, or one of a list of schemas.
pub open spec fn listed(value: JsonView, next: JsonView) -> bool {
    if value is Array {
        child_of(value, next)
    } else {
        next == value
    }
}

/// The member `value` under `key` takes the walk from `part` to `to`.
pub open spec fn by_member(dialect: Dialect, mode: Mode, part: JsonView, key: Seq<char>, value: JsonView, to: Place) -> bool {
    ||| visits(dialect, mode, part, key, to.mode) && listed(value, to.part)
    ||| visits_members(dialect, mode, part, key, to.mode) && value is Object && child_of(value, to.part)
}

/// A reference that is followed anew each time it is met.
pub open spec fn repeats(part: JsonView) -> bool {
    member(part, "$recursiveAnchor"@) == Some(JsonView::Bool(true))
}

/// Whether the reference under `key` is followed. While a part is read, a reference that was met before is
/// left until a value asks for it; with `all` it is followed all the same. A part that refers to itself in
/// the same words is taken to say nothing by that, except where its properties are gone through.
pub open spec fn taken(dialect: Dialect, all: bool, mode: Mode, part: JsonView, key: Seq<char>, next: JsonView) -> bool {
    if key == "$ref"@ {
        match mode {
            Mode::Check => next != part || repeats(part),
            Mode::Read => all || repeats(part),
            Mode::Props => all || dialect == Dialect::Draft2019 || next == part,
            Mode::Items => true,
        }
    } else {
        key == "$dynamicRef"@ && dialect == Dialect::Draft2020 && match mode {
            Mode::Check => next != part || repeats(part),
            Mode::Read => all || repeats(part),
            Mode::Props => true,
            Mode::Items => true,
        }
    }
}

/// The reference under `key` takes the walk from `part` to `next`.
pub open spec fn by_reference(
    doc: JsonView,
    dialect: Dialect,
    all: bool,
    mode: Mode,
    part: JsonView,
    key: Seq<char>,
    next: JsonView,
) -> bool {
    text_at(part, key) matches Some(reference) && taken(dialect, all, mode, part, key, next) && may_lead(
        doc,
        dialect,
        part,
        reference,
        next,
    )
}

/// A `$recursiveRef` takes the walk from `part` to `next`, which may be any whole.
pub open spec fn by_recursion(doc: JsonView, dialect: Dialect, all: bool, mode: Mode, part: JsonView, next: JsonView) -> bool {
    &&& dialect == Dialect::Draft2019 && member(part, "$recursiveRef"@) is Some
    &&& all || mode == Mode::Check || mode == Mode::Items
    &&& resource(doc, dialect, next)
}

/// A reference of `part` takes the walk to `next`.
pub open spec fn linked(doc: JsonView, dialect: Dialect, all: bool, mode: Mode, part: JsonView, next: JsonView) -> bool {
    ||| by_reference(doc, dialect, all, mode, part, "$ref"@, next)
    ||| by_reference(doc, dialect, all, mode, part, "$dynamicRef"@, next)
    ||| by_recursion(doc, dialect, all, mode, part, next)
}

/// One step of the walk. With `all` it is any step that is ever made; without, only the steps that one
/// place makes at once, before anything else is asked for.
pub open spec fn arrow(doc: JsonView, dialect: Dialect, all: bool, from: Place, to: Place) -> bool {
    ||| from.part == to.part && turns(dialect, from.mode, from.part, to.mode)
    ||| exists|key: Seq<char>| #[trigger]
        member(from.part, key) matches Some(value) && by_member(dialect, from.mode, from.part, key, value, to)
    ||| from.mode == to.mode && linked(doc, dialect, all, from.mode, from.part, to.part)
}

/// The walk stays in the document.
pub proof fn lemma_arrow_inside(doc: JsonView, dialect: Dialect, all: bool, from: Place, to: Place)
    requires
        part_of(doc, from.part),
        arrow(doc, dialect, all, from, to),
    ensures
        part_of(doc, to.part),
{
    if from.part == to.part && turns(dialect, from.mode, from.part, to.mode) {
    } else if from.mode == to.mode && linked(doc, dialect, all, from.mode, from.part, to.part) {
        if by_reference(doc, dialect, all, from.mode, from.part, "$ref"@, to.part) {
            lemma_leads_inside(doc, dialect, from.part, text_at(from.part, "$ref"@)->0, to.part);
        } else if by_reference(doc, dialect, all, from.mode, from.part, "$dynamicRef"@, to.part) {
            lemma_leads_inside(doc, dialect, from.part, text_at(from.part, "$dynamicRef"@)->0, to.part);
        }
    } else {
        let key = choose|key: Seq<char>| #[trigger]
            member(from.part, key) matches Some(value) && by_member(dialect, from.mode, from.part, key, value, to);
        let value = member(from.part, key)->0;
        let entries = from.part->Object_0;
        assert(entries.dom().contains(key) && entries[key] == value);
        assert(inside(from.part, value));
        lemma_inside_of_inside(doc, from.part, value);
        if to.part != value {
            lemma_child_inside(value, to.part);
            lemma_inside_of_inside(doc, value, to.part);
        }
    }
}

proof fn lemma_child_inside(value: JsonView, child: JsonView)
    requires
        child_of(value, child),
    ensures
        inside(value, child),
{
    match value {
        JsonView::Array(items) => {
            let i = choose|i: int| 0 <= i < items.len() && items[i] == child;
            assert(items[i] == child);
        },
        JsonView::Object(entries) => {
            let k = choose|k: Seq<char>| #[trigger] member(value, k) == Some(child);
            assert(entries.dom().contains(k) && entries[k] == child);
        },
        _ => {},
    }
}

pub open spec fn places(list: Seq<(Mode, &Json)>) -> Seq<Place> {
    list.map_values(|entry: (Mode, &Json)| Place { mode: entry.0, part: entry.1@ })
}

fn does_hide(dialect: Dialect, part: &Json) -> (r: bool)
    ensures
        r == hides(dialect, part@),
{
    !is_modern(dialect) && part.get("$ref").is_some()
}

fn does_combine(key: &str) -> (r: bool)
    ensures
        r == combines(key@),
{
    same(key, "allOf") || same(key, "anyOf") || same(key, "oneOf")
}

fn is_condition(part: &Json, key: &str) -> (r: bool)
    ensures
        r == conditions(part@, key@),
{
    same(key, "if") || ((same(key, "then") || same(key, "else")) && part.get("if").is_some())
}

fn does_decide(dialect: Dialect, part: &Json, key: &str) -> (r: bool)
    ensures
        r == decides(dialect, part@, key@),
{
    is_condition(part, key) && (is_modern(dialect) || (dialect == Dialect::Draft7 && (part.get("then").is_some() || part.get(
        "else",
    ).is_some())))
}

fn is_in_place(dialect: Dialect, part: &Json, key: &str) -> (r: bool)
    ensures
        r == in_place(dialect, part@, key@),
{
    does_combine(key) || same(key, "not") || does_decide(dialect, part, key)
}

fn is_below(dialect: Dialect, key: &str) -> (r: bool)
    ensures
        r == below(dialect, key@),
{
    same(key, "additionalProperties") || same(key, "additionalItems") || same(key, "items") || (dialect != Dialect::Draft4 && (
    same(key, "contains") || same(key, "propertyNames"))) || (dialect == Dialect::Draft2020 && same(key, "prefixItems"))
}

fn does_visit(dialect: Dialect, mode: Mode, part: &Json, key: &str, next: Mode) -> (r: bool)
    ensures
        r == visits(dialect, mode, part@, key@, next),
{
    if does_hide(dialect, part) {
        return false;
    }
    match mode {
        Mode::Check => next == Mode::Check && is_in_place(dialect, part, key),
        Mode::Read => next == Mode::Read && (is_in_place(dialect, part, key) || is_below(dialect, key)),
        Mode::Props => (next == Mode::Props && (does_combine(key) || is_condition(part, key))) || (next == Mode::Read && (
        does_combine(key) || same(key, "if") || same(key, "additionalProperties") || same(key, "unevaluatedProperties"))),
        Mode::Items => (next == Mode::Items && (does_combine(key) || is_condition(part, key))) || (next == Mode::Read && (
        does_combine(key) || same(key, "if") || same(key, "contains") || same(key, "unevaluatedItems"))),
    }
}

fn does_visit_members(dialect: Dialect, mode: Mode, part: &Json, key: &str, next: Mode) -> (r: bool)
    ensures
        r == visits_members(dialect, mode, part@, key@, next),
{
    if does_hide(dialect, part) {
        return false;
    }
    match mode {
        Mode::Check => next == Mode::Check && (same(key, "dependencies") || (is_modern(dialect) && same(key, "dependentSchemas"))),
        Mode::Read => next == Mode::Read && (same(key, "dependencies") || (is_modern(dialect) && same(key, "dependentSchemas"))
            || same(key, "properties") || same(key, "patternProperties")),
        Mode::Props => (next == Mode::Props && same(key, "dependentSchemas")) || (next == Mode::Read && (same(key, "properties")
            || same(key, "patternProperties"))),
        Mode::Items => false,
    }
}

fn is_active(part: &Json, key: &str) -> (r: bool)
    ensures
        r == active(part@, key@),
{
    match part.get(key) {
        Some(value) => !matches!(value, Json::Bool(true)),
        None => false,
    }
}

fn does_repeat(part: &Json) -> (r: bool)
    ensures
        r == repeats(part@),
{
    match part.get("$recursiveAnchor") {
        Some(value) => matches!(value, Json::Bool(true)),
        None => false,
    }
}

/// A list of places holds what it held before one more was put at its end, and that one.
proof fn lemma_place_pushed(list: Seq<Place>, one: Place)
    ensures
        forall|to: Place| #[trigger] list.push(one).contains(to) <==> list.contains(to) || to == one,
{
    assert forall|to: Place| #[trigger] list.push(one).contains(to) <==> list.contains(to) || to == one by {
        let all = list.push(one);
        if list.contains(to) {
            let at = choose|at: int| 0 <= at < list.len() && list[at] == to;
            assert(all[at] == to);
        }
        assert(all[list.len() as int] == one);
        if all.contains(to) {
            let at = choose|at: int| 0 <= at < all.len() && all[at] == to;
            assert(at < list.len() ==> list[at] == to);
        }
    }
}

fn add_place<'a>(out: &mut Vec<(Mode, &'a Json)>, mode: Mode, part: &'a Json)
    ensures
        forall|to: Place| #[trigger]
            places(final(out)@).contains(to) <==> places(old(out)@).contains(to) || to == (Place { mode, part: part@ }),
{
    let ghost before = places(out@);
    out.push((mode, part));
    proof {
        assert(places(out@) =~= before.push(Place { mode, part: part@ }));
        lemma_place_pushed(before, Place { mode, part: part@ });
    }
}

/// Puts the same done with each part of a list at the end of a list of places.
pub(crate) fn add_places<'a>(out: &mut Vec<(Mode, &'a Json)>, mode: Mode, list: &Vec<&'a Json>)
    ensures
        forall|to: Place| #[trigger]
            places(final(out)@).contains(to) <==> places(old(out)@).contains(to) || to.mode == mode && views(list@).contains(
                to.part,
            ),
{
    let ghost before = places(out@);
    let mut i: usize = 0;
    while i < list.len()
        invariant
            i <= list@.len(),
            before == places(old(out)@),
            forall|to: Place| #[trigger]
                places(out@).contains(to) <==> before.contains(to) || to.mode == mode && exists|n: int|
                    0 <= n < i && #[trigger] views(list@)[n] == to.part,
        decreases list@.len() - i,
    {
        assert(views(list@)[i as int] == list@[i as int]@);
        let ghost sofar = places(out@);
        add_place(out, mode, list[i]);
        assert forall|to: Place| #[trigger]
            places(out@).contains(to) <==> before.contains(to) || to.mode == mode && exists|n: int|
                0 <= n < i + 1 && #[trigger] views(list@)[n] == to.part by {
            if sofar.contains(to) && !before.contains(to) {
                let n = choose|n: int| 0 <= n < i && #[trigger] views(list@)[n] == to.part;
                assert(views(list@)[n] == to.part);
            }
        }
        i += 1;
    }
    assert forall|to: Place| #[trigger]
        places(out@).contains(to) <==> before.contains(to) || to.mode == mode && views(list@).contains(to.part) by {
        if views(list@).contains(to.part) {
            let n = choose|n: int| 0 <= n < views(list@).len() && views(list@)[n] == to.part;
            assert(views(list@)[n] == to.part);
        }
    }
}

/// Adds where a member takes the walk in the mode `next`.
fn add_by_member<'a>(
    out: &mut Vec<(Mode, &'a Json)>,
    dialect: Dialect,
    mode: Mode,
    part: &Json,
    key: &str,
    value: &'a Json,
    next: Mode,
)
    ensures
        forall|to: Place| #[trigger]
            places(final(out)@).contains(to) <==> places(old(out)@).contains(to) || to.mode == next && by_member(
                dialect,
                mode,
                part@,
                key@,
                value@,
                to,
            ),
{
    if does_visit(dialect, mode, part, key, next) {
        if matches!(value, Json::Array(_)) {
            let list = children(value);
            add_places(out, next, &list);
        } else {
            add_place(out, next, value);
        }
    }
    if does_visit_members(dialect, mode, part, key, next) && matches!(value, Json::Object(_)) {
        let list = children(value);
        add_places(out, next, &list);
    }
}

/// Adds where the reference under a key takes the walk.
fn add_by_reference<'a>(
    out: &mut Vec<(Mode, &'a Json)>,
    doc: &'a Json,
    dialect: Dialect,
    all: bool,
    mode: Mode,
    part: &Json,
    key: &str,
)
    ensures
        forall|to: Place| #[trigger]
            places(final(out)@).contains(to) <==> places(old(out)@).contains(to) || to.mode == mode && by_reference(
                doc@,
                dialect,
                all,
                mode,
                part@,
                key@,
                to.part,
            ),
{
    let reference = match part.text_at(key) {
        Some(reference) => reference,
        None => {
            return;
        },
    };
    let is_ref = same(key, "$ref");
    if !is_ref && !(same(key, "$dynamicRef") && dialect == Dialect::Draft2020) {
        return;
    }
    let repeated = does_repeat(part);
    // Whether a reference to the part itself is followed, and whether any other is.
    let itself = match mode {
        Mode::Check => repeated,
        Mode::Read => all || repeated,
        Mode::Props => true,
        Mode::Items => true,
    };
    let other = match mode {
        Mode::Check => true,
        Mode::Read => all || repeated,
        Mode::Props => !is_ref || all || dialect == Dialect::Draft2019,
        Mode::Items => true,
    };
    assert forall|next: JsonView| #[trigger] taken(dialect, all, mode, part@, key@, next) == (if next == part@ {
        itself
    } else {
        other
    }) by {
        if is_ref {
            assert(key@ == "$ref"@);
        }
    }
    if !itself && !other {
        return;
    }
    let list = find_leads(doc, dialect, part, reference);
    let ghost before = places(out@);
    let mut i: usize = 0;
    while i < list.len()
        invariant
            i <= list@.len(),
            before == places(old(out)@),
            text_at(part@, key@) == Some(reference@),
            forall|next: JsonView| #[trigger] views(list@).contains(next) <==> may_lead(doc@, dialect, part@, reference@, next),
            forall|next: JsonView| #[trigger]
                taken(dialect, all, mode, part@, key@, next) == (if next == part@ {
                    itself
                } else {
                    other
                }),
            forall|to: Place| #[trigger]
                places(out@).contains(to) ==> before.contains(to) || to.mode == mode && by_reference(
                    doc@,
                    dialect,
                    all,
                    mode,
                    part@,
                    key@,
                    to.part,
                ),
            forall|to: Place| #[trigger] before.contains(to) ==> places(out@).contains(to),
            forall|n: int|
                0 <= n < i && taken(dialect, all, mode, part@, key@, #[trigger] views(list@)[n]) ==> places(out@).contains(
                    (Place { mode, part: views(list@)[n] }),
                ),
        decreases list@.len() - i,
    {
        let next = list[i];
        assert(views(list@)[i as int] == next@);
        assert(views(list@).contains(next@));
        let follow = if itself == other {
            itself
        } else if same_json(next, part) {
            itself
        } else {
            other
        };
        assert(follow == taken(dialect, all, mode, part@, key@, next@));
        let ghost sofar = places(out@);
        if follow {
            add_place(out, mode, next);
        }
        assert forall|n: int|
            0 <= n < i + 1 && taken(dialect, all, mode, part@, key@, #[trigger] views(list@)[n]) implies places(out@).contains(
            (Place { mode, part: views(list@)[n] }),
        ) by {
            if n < i {
                assert(sofar.contains(Place { mode, part: views(list@)[n] }));
            }
        }
        i += 1;
    }
    assert forall|to: Place| #[trigger]
        places(out@).contains(to) <==> before.contains(to) || to.mode == mode && by_reference(
            doc@,
            dialect,
            all,
            mode,
            part@,
            key@,
            to.part,
        ) by {
        if to.mode == mode && by_reference(doc@, dialect, all, mode, part@, key@, to.part) {
            assert(views(list@).contains(to.part));
            let n = choose|n: int| 0 <= n < views(list@).len() && views(list@)[n] == to.part;
            assert(places(out@).contains(Place { mode, part: views(list@)[n] }));
        }
    }
}

/// Where the walk goes from a place.
pub fn onward<'a>(doc: &'a Json, dialect: Dialect, all: bool, mode: Mode, part: &'a Json) -> (r: Vec<(Mode, &'a Json)>)
    ensures
        forall|to: Place| #[trigger]
            places(r@).contains(to) <==> arrow(doc@, dialect, all, Place { mode, part: part@ }, to),
{
    let mut out: Vec<(Mode, &'a Json)> = Vec::new();
    assert(places(out@).len() == 0);
    if mode == Mode::Read {
        add_place(&mut out, Mode::Check, part);
        if is_modern(dialect) && is_active(part, "unevaluatedProperties") {
            add_place(&mut out, Mode::Props, part);
        }
        if is_modern(dialect) && is_active(part, "unevaluatedItems") {
            add_place(&mut out, Mode::Items, part);
        }
    }
    let ghost turned = places(out@);
    assert forall|to: Place| #[trigger] turned.contains(to) <==> to.part == part@ && turns(dialect, mode, part@, to.mode) by {}
    let list = members(part);
    let mut i: usize = 0;
    while i < list.len()
        invariant
            i <= list@.len(),
            forall|to: Place| #[trigger] turned.contains(to) <==> to.part == part@ && turns(dialect, mode, part@, to.mode),
            forall|to: Place| #[trigger]
                places(out@).contains(to) <==> turned.contains(to) || exists|n: int|
                    0 <= n < i && by_member(
                        dialect,
                        mode,
                        part@,
                        (#[trigger] entries_of(list@)[n]).0,
                        entries_of(list@)[n].1,
                        to,
                    ),
        decreases list@.len() - i,
    {
        let (key, value) = list[i];
        assert(entries_of(list@)[i as int] == (key@, value@));
        let ghost sofar = places(out@);
        add_by_member(&mut out, dialect, mode, part, key, value, Mode::Check);
        add_by_member(&mut out, dialect, mode, part, key, value, Mode::Read);
        add_by_member(&mut out, dialect, mode, part, key, value, Mode::Props);
        add_by_member(&mut out, dialect, mode, part, key, value, Mode::Items);
        assert forall|to: Place| #[trigger]
            places(out@).contains(to) <==> turned.contains(to) || exists|n: int|
                0 <= n < i + 1 && by_member(
                    dialect,
                    mode,
                    part@,
                    (#[trigger] entries_of(list@)[n]).0,
                    entries_of(list@)[n].1,
                    to,
                ) by {
            assert(places(out@).contains(to) <==> sofar.contains(to) || by_member(dialect, mode, part@, key@, value@, to));
            if sofar.contains(to) && !turned.contains(to) {
                let n = choose|n: int|
                    0 <= n < i && by_member(
                        dialect,
                        mode,
                        part@,
                        (#[trigger] entries_of(list@)[n]).0,
                        entries_of(list@)[n].1,
                        to,
                    );
                assert(by_member(dialect, mode, part@, entries_of(list@)[n].0, entries_of(list@)[n].1, to));
            }
        }
        i += 1;
    }
    let ghost stepped = places(out@);
    assert forall|to: Place| #[trigger] stepped.contains(to) <==> turned.contains(to) || exists|key: Seq<char>| #[trigger]
        member(part@, key) matches Some(value) && by_member(dialect, mode, part@, key, value, to) by {
        if stepped.contains(to) && !turned.contains(to) {
            let n = choose|n: int|
                0 <= n < list@.len() && by_member(
                    dialect,
                    mode,
                    part@,
                    (#[trigger] entries_of(list@)[n]).0,
                    entries_of(list@)[n].1,
                    to,
                );
            let pair = entries_of(list@)[n];
            assert(entries_of(list@).contains((pair.0, pair.1)));
            assert(member(part@, pair.0) == Some(pair.1));
        }
        if exists|key: Seq<char>| #[trigger]
            member(part@, key) matches Some(value) && by_member(dialect, mode, part@, key, value, to) {
            let key = choose|key: Seq<char>| #[trigger]
                member(part@, key) matches Some(value) && by_member(dialect, mode, part@, key, value, to);
            let value = member(part@, key)->0;
            assert(entries_of(list@).contains((key, value)));
            let n = choose|n: int| 0 <= n < entries_of(list@).len() && entries_of(list@)[n] == (key, value);
            assert(by_member(dialect, mode, part@, entries_of(list@)[n].0, entries_of(list@)[n].1, to));
        }
    }
    add_by_reference(&mut out, doc, dialect, all, mode, part, "$ref");
    add_by_reference(&mut out, doc, dialect, all, mode, part, "$dynamicRef");
    if dialect == Dialect::Draft2019 && part.get("$recursiveRef").is_some() && (all || mode == Mode::Check || mode == Mode::Items) {
        let roots = find_resources(doc, dialect);
        add_places(&mut out, mode, &roots);
    }
    out
}

} // verus!
