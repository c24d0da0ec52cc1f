//! The parts of a JSON document.

use vstd::prelude::*;
use crate::json::{array_view, json_view, lemma_array_view, lemma_object_lookup, member, object_view, Json, JsonView};
use crate::text::same;

verus! {

/// `part` is held by `value`, at whatever depth.
pub open spec fn inside(value: JsonView, part: JsonView) -> bool
    decreases value,
{
    match value {
        JsonView::Array(items) => exists|i: int|
            0 <= i < items.len() && ((#[trigger] items[i]) == part || inside(items[i], part)),
        JsonView::Object(entries) => exists|k: Seq<char>|
            entries.dom().contains(k) && ((#[trigger] entries[k]) == part || inside(entries[k], part)),
        _ => false,
    }
}

/// `part` is the document itself or is held by it.
pub open spec fn part_of(value: JsonView, part: JsonView) -> bool {
    part == value || inside(value, part)
}

/// Some part of the document has a member `key`.
pub open spec fn held(value: JsonView, key: Seq<char>) -> bool {
    exists|part: JsonView| #[trigger] part_of(value, part) && member(part, key) is Some
}

/// The entry at `i` counts: no later entry names the same key.
spec fn live(entries: Seq<(String, Json)>, i: int) -> bool {
    0 <= i < entries.len() && forall|k: int| i < k < entries.len() ==> (#[trigger] entries[k]).0@ != entries[i].0@
}

/// Every member comes from an entry that counts.
proof fn lemma_live_entry(entries: Seq<(String, Json)>, key: Seq<char>) -> (i: int)
    requires
        object_view(entries).dom().contains(key),
    ensures
        live(entries, i),
        entries[i].0@ == key,
    decreases entries.len(),
{
    let last = entries.len() - 1;
    if entries[last].0@ == key {
        last
    } else {
        let i = lemma_live_entry(entries.drop_last(), key);
        assert(entries.drop_last()[i] == entries[i]);
        assert forall|k: int| i < k < entries.len() implies (#[trigger] entries[k]).0@ != entries[i].0@ by {
            if k < last {
                assert(entries.drop_last()[k] == entries[k]);
            }
        }
        i
    }
}

fn is_live(entries: &Vec<(String, Json)>, i: usize) -> (r: bool)
    requires
        i < entries@.len(),
    ensures
        r == live(entries@, i as int),
{
    let end: usize = entries.len();
    let mut k: usize = i + 1;
    while k < end
        invariant
            end == entries@.len(),
            i < k <= end,
            forall|n: int| i < n < k ==> (#[trigger] entries@[n]).0@ != entries@[i as int].0@,
        decreases end - k,
    {
        if same(entries[k].0.as_str(), entries[i].0.as_str()) {
            assert(entries@[k as int].0@ == entries@[i as int].0@);
            return false;
        }
        k += 1;
    }
    true
}

pub open spec fn views(list: Seq<&Json>) -> Seq<JsonView> {
    list.map_values(|part: &Json| part@)
}

/// The items or members of a document, as a relation.
pub open spec fn child_of(value: JsonView, part: JsonView) -> bool {
    match value {
        JsonView::Array(items) => items.contains(part),
        JsonView::Object(_) => exists|k: Seq<char>| #[trigger] member(value, k) == Some(part),
        _ => false,
    }
}

/// A member is a child.
pub proof fn lemma_member_is_child(entries: Map<Seq<char>, JsonView>, key: Seq<char>)
    requires
        entries.dom().contains(key),
    ensures
        child_of(JsonView::Object(entries), entries[key]),
{
    assert(member(JsonView::Object(entries), key) == Some(entries[key]));
}

/// The items or members of a document.
pub fn children<'a>(value: &'a Json) -> (r: Vec<&'a Json>)
    ensures
        forall|part: JsonView| child_of(value@, part) <==> #[trigger] views(r@).contains(part),
{
    let mut out: Vec<&'a Json> = Vec::new();
    match value {
        Json::Array(items) => {
            proof {
                lemma_array_view(items@);
            }
            let mut i: usize = 0;
            while i < items.len()
                invariant
                    i <= items@.len(),
                    out@.len() == i,
                    forall|k: int| 0 <= k < i ==> (#[trigger] out@[k])@ == json_view(items@[k]),
                decreases items@.len() - i,
            {
                out.push(&items[i]);
                i += 1;
            }
            assert(views(out@) =~= array_view(items@));
            assert(value@ == JsonView::Array(views(out@)));
        },
        Json::Object(entries) => {
            let ghost map = object_view(entries@);
            let mut i: usize = 0;
            while i < entries.len()
                invariant
                    i <= entries@.len(),
                    map == object_view(entries@),
                    value@ == JsonView::Object(map),
                    forall|part: JsonView| #[trigger] views(out@).contains(part) ==> child_of(value@, part),
                    forall|n: int| 0 <= n < i && live(entries@, n) ==> views(out@).contains(json_view((#[trigger] entries@[n]).1)),
                decreases entries@.len() - i,
            {
                if is_live(entries, i) {
                    let ghost before = views(out@);
                    let ghost found = json_view(entries@[i as int].1);
                    let ghost key = entries@[i as int].0@;
                    proof {
                        lemma_object_lookup(entries@, key, i as int);
                        assert(map.dom().contains(key) && map[key] == found);
                        lemma_member_is_child(map, key);
                    }
                    out.push(&entries[i].1);
                    assert(views(out@) =~= before.push(found));
                    proof {
                        lemma_pushed(before, found);
                        assert forall|part: JsonView| #[trigger] views(out@).contains(part) implies child_of(value@, part) by {
                            assert(before.push(found).contains(part));
                        }
                    }
                }
                i += 1;
            }
            assert forall|part: JsonView| child_of(value@, part) implies #[trigger] views(out@).contains(part) by {
                let k = choose|k: Seq<char>| #[trigger] member(value@, k) == Some(part);
                let n = lemma_live_entry(entries@, k);
                lemma_object_lookup(entries@, k, n);
                assert(views(out@).contains(json_view(entries@[n].1)));
            }
        },
        _ => {
            assert(views(out@).len() == 0);
        },
    }
    out
}

/// A list holds what it held before one more was put at its end, and that one.
pub proof fn lemma_pushed(list: Seq<JsonView>, one: JsonView)
    ensures
        forall|part: JsonView| #[trigger] list.push(one).contains(part) <==> list.contains(part) || part == one,
{
    assert forall|part: JsonView| #[trigger] list.push(one).contains(part) <==> list.contains(part) || part == one by {
        let all = list.push(one);
        if list.contains(part) {
            let at = choose|at: int| 0 <= at < list.len() && list[at] == part;
            assert(all[at] == part);
        }
        assert(all[list.len() as int] == one);
        if all.contains(part) {
            let at = choose|at: int| 0 <= at < all.len() && all[at] == part;
            assert(at < list.len() ==> list[at] == part);
        }
    }
}

/// What a document holds is held by a child, or is one.
pub proof fn lemma_inside(value: JsonView, part: JsonView)
    ensures
        inside(value, part) <==> exists|child: JsonView| #[trigger]
            child_of(value, child) && (child == part || inside(child, part)),
{
    match value {
        JsonView::Array(items) => {
            if inside(value, part) {
                let i = choose|i: int| 0 <= i < items.len() && ((#[trigger] items[i]) == part || inside(items[i], part));
                assert(child_of(value, items[i]));
            }
        },
        JsonView::Object(entries) => {
            if inside(value, part) {
                let k = choose|k: Seq<char>|
                    entries.dom().contains(k) && ((#[trigger] entries[k]) == part || inside(entries[k], part));
                lemma_member_is_child(entries, k);
            }
        },
        _ => {},
    }
}

/// A child is smaller than the document that holds it.
pub proof fn lemma_child_is_smaller(value: JsonView, child: JsonView)
    requires
        child_of(value, child),
    ensures
        decreases_to!(value => child),
{
    match value {
        JsonView::Array(items) => {
            let i = choose|i: int| 0 <= i < items.len() && (#[trigger] items[i]) == child;
            assert(decreases_to!(value => items));
            assert(decreases_to!(items => items[i]));
        },
        JsonView::Object(entries) => {
            let k = choose|k: Seq<char>| #[trigger] member(value, k) == Some(child);
            assert(decreases_to!(value => entries[k]));
        },
        _ => {},
    }
}

/// Everything that a document holds, at whatever depth.
pub fn parts_inside<'a>(value: &'a Json) -> (r: Vec<&'a Json>)
    ensures
        forall|part: JsonView| inside(value@, part) <==> #[trigger] views(r@).contains(part),
    decreases value@,
{
    let own = children(value);
    let ghost kids = views(own@);
    let mut out: Vec<&'a Json> = Vec::new();
    let mut i: usize = 0;
    while i < own.len()
        invariant
            i <= own@.len(),
            kids == views(own@),
            forall|child: JsonView| child_of(value@, child) <==> #[trigger] kids.contains(child),
            forall|part: JsonView|
                #[trigger] views(out@).contains(part) <==> exists|n: int|
                    0 <= n < i && ((#[trigger] kids[n]) == part || inside(kids[n], part)),
        decreases own@.len() - i,
    {
        let child = own[i];
        assert(kids[i as int] == child@);
        proof {
            assert(kids.contains(child@));
            lemma_child_is_smaller(value@, child@);
        }
        let below = parts_inside(child);
        let ghost before = views(out@);
        out.push(child);
        assert(views(out@) =~= before.push(child@));
        let mut n: usize = 0;
        while n < below.len()
            invariant
                n <= below@.len(),
                views(out@) == before.push(child@) + views(below@).take(n as int),
            decreases below@.len() - n,
        {
            let ghost sofar = views(out@);
            out.push(below[n]);
            assert(views(below@)[n as int] == below@[n as int]@);
            assert(views(out@) =~= sofar.push(below@[n as int]@));
            assert(views(out@) =~= before.push(child@) + views(below@).take(n + 1));
            n += 1;
        }
        assert(views(below@).take(n as int) =~= views(below@));
        assert forall|part: JsonView| #[trigger] views(out@).contains(part) <==> exists|n: int|
            0 <= n < i + 1 && ((#[trigger] kids[n]) == part || inside(kids[n], part)) by {
            let all = views(out@);
            let lower = views(below@);
            lemma_pushed(before, child@);
            let head = before.push(child@);
            assert(all.contains(part) <==> head.contains(part) || lower.contains(part)) by {
                if all.contains(part) {
                    let at = choose|at: int| 0 <= at < all.len() && all[at] == part;
                    assert(at < head.len() ==> head[at] == part);
                    assert(at >= head.len() ==> lower[at - head.len()] == part);
                }
                if head.contains(part) {
                    let at = choose|at: int| 0 <= at < head.len() && head[at] == part;
                    assert(all[at] == part);
                }
                if lower.contains(part) {
                    let at = choose|at: int| 0 <= at < lower.len() && lower[at] == part;
                    assert(all[head.len() + at] == part);
                }
            }
            assert(before.contains(part) <==> exists|n: int|
                0 <= n < i && ((#[trigger] kids[n]) == part || inside(kids[n], part)));
            assert(kids[i as int] == child@);
        }
        i += 1;
    }
    assert forall|part: JsonView| inside(value@, part) <==> #[trigger] views(out@).contains(part) by {
        lemma_inside(value@, part);
        if inside(value@, part) {
            let child = choose|child: JsonView| #[trigger] child_of(value@, child) && (child == part || inside(child, part));
            assert(kids.contains(child));
            let n = choose|n: int| 0 <= n < kids.len() && kids[n] == child;
            assert(kids[n] == part || inside(kids[n], part));
        }
        if views(out@).contains(part) {
            let n = choose|n: int| 0 <= n < own@.len() && ((#[trigger] kids[n]) == part || inside(kids[n], part));
            assert(kids.contains(kids[n]));
            assert(child_of(value@, kids[n]));
        }
    }
    out
}

/// The document and everything that it holds.
pub fn parts<'a>(value: &'a Json) -> (r: Vec<&'a Json>)
    ensures
        forall|part: JsonView| part_of(value@, part) <==> #[trigger] views(r@).contains(part),
{
    let mut out = parts_inside(value);
    let ghost before = views(out@);
    out.push(value);
    proof {
        assert(views(out@) =~= before.push(value@));
        lemma_pushed(before, value@);
    }
    out
}

/// Whether some part of the document has a member `key`.
pub fn holds(value: &Json, key: &str) -> (r: bool)
    ensures
        r == held(value@, key@),
{
    let list = parts(value);
    let mut i: usize = 0;
    while i < list.len()
        invariant
            i <= list@.len(),
            forall|part: JsonView| part_of(value@, part) <==> #[trigger] views(list@).contains(part),
            forall|n: int| 0 <= n < i ==> member(#[trigger] views(list@)[n], key@) is None,
        decreases list@.len() - i,
    {
        assert(views(list@)[i as int] == list@[i as int]@);
        if list[i].get(key).is_some() {
            assert(views(list@).contains(list@[i as int]@));
            assert(part_of(value@, list@[i as int]@));
            return true;
        }
        i += 1;
    }
    assert forall|part: JsonView| #[trigger] part_of(value@, part) implies member(part, key@) is None by {
        assert(views(list@).contains(part));
        let n = choose|n: int| 0 <= n < views(list@).len() && views(list@)[n] == part;
        assert(member(views(list@)[n], key@) is None);
    }
    false
}

pub open spec fn entries_of(list: Seq<(&str, &Json)>) -> Seq<(Seq<char>, JsonView)> {
    list.map_values(|entry: (&str, &Json)| (entry.0@, entry.1@))
}

/// The members of an object, each with its key; none of any other document.
pub fn members<'a>(value: &'a Json) -> (r: Vec<(&'a str, &'a Json)>)
    ensures
        forall|k: Seq<char>, v: JsonView| member(value@, k) == Some(v) <==> #[trigger] entries_of(r@).contains((k, v)),
{
    let mut out: Vec<(&'a str, &'a Json)> = Vec::new();
    match value {
        Json::Object(entries) => {
            let ghost map = object_view(entries@);
            let mut i: usize = 0;
            while i < entries.len()
                invariant
                    i <= entries@.len(),
                    map == object_view(entries@),
                    value@ == JsonView::Object(map),
                    forall|n: int|
                        0 <= n < out@.len() ==> member(value@, (#[trigger] entries_of(out@)[n]).0) == Some(
                            entries_of(out@)[n].1,
                        ),
                    forall|n: int|
                        0 <= n < i && live(entries@, n) ==> entries_of(out@).contains(
                            ((#[trigger] entries@[n]).0@, json_view(entries@[n].1)),
                        ),
                decreases entries@.len() - i,
            {
                if is_live(entries, i) {
                    let ghost before = entries_of(out@);
                    let ghost pair = (entries@[i as int].0@, json_view(entries@[i as int].1));
                    proof {
                        lemma_object_lookup(entries@, pair.0, i as int);
                        assert(member(value@, pair.0) == Some(pair.1));
                    }
                    out.push((entries[i].0.as_str(), &entries[i].1));
                    assert(entries_of(out@) =~= before.push(pair));
                    assert forall|n: int| 0 <= n < i + 1 && live(entries@, n) implies entries_of(out@).contains(
                        ((#[trigger] entries@[n]).0@, json_view(entries@[n].1)),
                    ) by {
                        if n < i {
                            let one = (entries@[n].0@, json_view(entries@[n].1));
                            let at = choose|at: int| 0 <= at < before.len() && before[at] == one;
                            assert(entries_of(out@)[at] == one);
                        } else {
                            assert(entries_of(out@)[before.len() as int] == pair);
                        }
                    }
                }
                i += 1;
            }
            assert forall|k: Seq<char>, v: JsonView|
                member(value@, k) == Some(v) <==> #[trigger] entries_of(out@).contains((k, v)) by {
                if member(value@, k) == Some(v) {
                    let n = lemma_live_entry(entries@, k);
                    lemma_object_lookup(entries@, k, n);
                    assert(entries_of(out@).contains((entries@[n].0@, json_view(entries@[n].1))));
                }
                if entries_of(out@).contains((k, v)) {
                    let at = choose|at: int| 0 <= at < entries_of(out@).len() && entries_of(out@)[at] == (k, v);
                    assert(member(value@, entries_of(out@)[at].0) == Some(v));
                }
            }
        },
        _ => {
            assert(entries_of(out@).len() == 0);
        },
    }
    out
}

/// Whether two documents mean the same.
pub fn same_json(a: &Json, b: &Json) -> (r: bool)
    ensures
        r == (a@ == b@),
    decreases a@,
{
    match (a, b) {
        (Json::Null, Json::Null) => true,
        (Json::Bool(x), Json::Bool(y)) => *x == *y,
        (Json::Unsigned(x), Json::Unsigned(y)) => *x == *y,
        (Json::Signed(x), Json::Signed(y)) => *x == *y,
        (Json::Unsigned(x), Json::Signed(y)) => *x as i128 == *y as i128,
        (Json::Signed(x), Json::Unsigned(y)) => *x as i128 == *y as i128,
        (Json::Decimal(x), Json::Decimal(y)) => same(x.as_str(), y.as_str()),
        (Json::Text(x), Json::Text(y)) => same(x.as_str(), y.as_str()),
        (Json::Array(x), Json::Array(y)) => {
            proof {
                lemma_array_view(x@);
                lemma_array_view(y@);
            }
            if x.len() != y.len() {
                return false;
            }
            let mut i: usize = 0;
            while i < x.len()
                invariant
                    i <= x@.len() == y@.len(),
                    a@ == JsonView::Array(array_view(x@)),
                    b@ == JsonView::Array(array_view(y@)),
                    array_view(x@).len() == x@.len(),
                    array_view(y@).len() == y@.len(),
                    forall|n: int| 0 <= n < x@.len() ==> #[trigger] array_view(x@)[n] == x@[n]@,
                    forall|n: int| 0 <= n < y@.len() ==> #[trigger] array_view(y@)[n] == y@[n]@,
                    forall|n: int| 0 <= n < i ==> #[trigger] array_view(x@)[n] == array_view(y@)[n],
                decreases x@.len() - i,
            {
                assert(array_view(x@)[i as int] == x@[i as int]@);
                assert(array_view(y@)[i as int] == y@[i as int]@);
                proof {
                    assert(child_of(a@, array_view(x@)[i as int]));
                    lemma_child_is_smaller(a@, x@[i as int]@);
                }
                if !same_json(&x[i], &y[i]) {
                    return false;
                }
                i += 1;
            }
            assert(array_view(x@) =~= array_view(y@));
            true
        },
        (Json::Object(mine), Json::Object(theirs)) => {
            let mut i: usize = 0;
            while i < mine.len()
                invariant
                    i <= mine@.len(),
                    a@ == JsonView::Object(object_view(mine@)),
                    forall|n: int|
                        0 <= n < i ==> member(a@, (#[trigger] mine@[n]).0@) == member(b@, mine@[n].0@),
                decreases mine@.len() - i,
            {
                match (a.get(mine[i].0.as_str()), b.get(mine[i].0.as_str())) {
                    (Some(left), Some(right)) => {
                        proof {
                            lemma_member_is_child(a@->Object_0, mine@[i as int].0@);
                            lemma_child_is_smaller(a@, left@);
                        }
                        if !same_json(left, right) {
                            return false;
                        }
                    },
                    (None, None) => {},
                    _ => {
                        return false;
                    },
                }
                i += 1;
            }
            let mut j: usize = 0;
            while j < theirs.len()
                invariant
                    j <= theirs@.len(),
                    b@ == JsonView::Object(object_view(theirs@)),
                    forall|n: int| 0 <= n < j ==> (member(b@, (#[trigger] theirs@[n]).0@) is Some ==> member(a@, theirs@[n].0@) is Some),
                decreases theirs@.len() - j,
            {
                if a.get(theirs[j].0.as_str()).is_none() && b.get(theirs[j].0.as_str()).is_some() {
                    return false;
                }
                j += 1;
            }
            proof {
                let left = a@->Object_0;
                let right = b@->Object_0;
                assert forall|k: Seq<char>| #[trigger] left.dom().contains(k) <==> right.dom().contains(k) by {
                    if left.dom().contains(k) {
                        let n = lemma_live_entry(mine@, k);
                        assert(member(a@, mine@[n].0@) == Some(left[k]));
                    }
                    if right.dom().contains(k) {
                        let n = lemma_live_entry(theirs@, k);
                        assert(member(b@, theirs@[n].0@) == Some(right[k]));
                    }
                }
                assert forall|k: Seq<char>| #[trigger] left.dom().contains(k) implies left[k] == right[k] by {
                    let n = lemma_live_entry(mine@, k);
                    assert(member(a@, mine@[n].0@) == Some(left[k]));
                    assert(member(b@, mine@[n].0@) == Some(left[k]));
                }
                assert(left.dom() =~= right.dom());
                assert(left =~= right);
            }
            true
        },
        _ => false,
    }
}

/// Tells whether a value is, or holds at whatever depth, a part.
pub fn is_part_of(value: &Json, part: &Json) -> (r: bool)
    ensures
        r == part_of(value@, part@),
{
    let list = parts(value);
    let mut i: usize = 0;
    while i < list.len()
        invariant
            i <= list@.len(),
            forall|p: JsonView| part_of(value@, p) <==> #[trigger] views(list@).contains(p),
            forall|n: int| 0 <= n < i ==> #[trigger] views(list@)[n] != part@,
        decreases list@.len() - i,
    {
        assert(views(list@)[i as int] == list@[i as int]@);
        if same_json(list[i], part) {
            assert(views(list@).contains(part@));
            return true;
        }
        i += 1;
    }
    assert(!views(list@).contains(part@));
    false
}

} // verus!
