//! Values whose items can be told apart without looking at how their hash values come out.

use vstd::prelude::*;
use crate::json::{lemma_array_view, Json, JsonView};
use crate::parts::{child_of, inside, lemma_inside, part_of, parts, parts_inside, views};
use crate::text::chars_of;

verus! {

/// An array that is compared by hash values has more items than this.
pub const FEW_ITEMS: usize = 15;

/// A decimal that certainly does not denote negative zero: it has no sign, or it is short, has a
/// digit other than zero before any exponent, and has an exponent of two digits at most.
pub open spec fn surely_no_negative_zero(decimal: Seq<char>) -> bool {
    ||| decimal.len() == 0
    ||| decimal[0] != '-'
    ||| decimal.len() <= 100 && exists|i: int| #[trigger] counts_at(decimal, i)
}

/// The digit at `i` keeps the number from being zero.
pub open spec fn counts_at(decimal: Seq<char>, i: int) -> bool {
    &&& 0 <= i < decimal.len()
    &&& '1' <= decimal[i] && decimal[i] <= '9'
    &&& forall|j: int|
        0 <= j < decimal.len() && ((#[trigger] decimal[j]) == 'e' || decimal[j] == 'E') ==> i < j && decimal.len() - j <= 4
}

/// Whether two items of a long array are equal does not hang on how their hash values come out: no
/// array of more than fifteen items holds a decimal that might be negative zero.
pub open spec fn steady(value: JsonView) -> bool {
    forall|list: JsonView, part: JsonView| #[trigger]
        part_of(value, list) && long(list) && #[trigger] inside(list, part) ==> !doubtful(part)
}

pub open spec fn long(value: JsonView) -> bool {
    value matches JsonView::Array(items) && items.len() > FEW_ITEMS
}

pub open spec fn doubtful(value: JsonView) -> bool {
    value matches JsonView::Decimal(text) && !surely_no_negative_zero(text)
}

fn is_doubtful(value: &Json) -> (r: bool)
    ensures
        r == doubtful(value@),
{
    let text = match value {
        Json::Decimal(text) => chars_of(text.as_str()),
        _ => {
            return false;
        },
    };
    if text.len() == 0 || text[0] != '-' {
        return false;
    }
    if text.len() > 100 {
        return true;
    }
    let mut i: usize = 0;
    while i < text.len()
        invariant
            i <= text@.len() <= 100,
            value@ == JsonView::Decimal(text@),
            forall|k: int| 0 <= k < i ==> !counts_at(text@, k),
        decreases text@.len() - i,
    {
        if '1' <= text[i] && text[i] <= '9' {
            let mut good = true;
            let mut j: usize = 0;
            while j < text.len()
                invariant
                    i < text@.len() <= 100,
                    j <= text@.len(),
                    good == (forall|k: int|
                        0 <= k < j && ((#[trigger] text@[k]) == 'e' || text@[k] == 'E') ==> i < k && text@.len() - k <= 4),
                decreases text@.len() - j,
            {
                if (text[j] == 'e' || text[j] == 'E') && !(i < j && text.len() - j <= 4) {
                    good = false;
                }
                j += 1;
            }
            if good {
                assert(counts_at(text@, i as int));
                return false;
            }
        }
        i += 1;
    }
    true
}

pub fn is_steady(value: &Json) -> (r: bool)
    ensures
        r == steady(value@),
{
    let list = parts(value);
    let mut i: usize = 0;
    while i < list.len()
        invariant
            i <= list@.len(),
            forall|part: JsonView| part_of(value@, part) <==> #[trigger] views(list@).contains(part),
            forall|n: int, part: JsonView|
                0 <= n < i && long(#[trigger] views(list@)[n]) && #[trigger] inside(views(list@)[n], part) ==> !doubtful(part),
        decreases list@.len() - i,
    {
        let here = list[i];
        assert(views(list@)[i as int] == here@);
        let is_long = match here {
            Json::Array(items) => {
                proof {
                    lemma_array_view(items@);
                }
                items.len() > FEW_ITEMS
            },
            _ => false,
        };
        if is_long {
            let below = parts_inside(here);
            let mut n: usize = 0;
            while n < below.len()
                invariant
                    n <= below@.len(),
                    i < list@.len(),
                    here@ == views(list@)[i as int],
                    long(here@),
                    forall|part: JsonView| part_of(value@, part) <==> #[trigger] views(list@).contains(part),
                    forall|part: JsonView| inside(here@, part) <==> #[trigger] views(below@).contains(part),
                    forall|k: int| 0 <= k < n ==> !doubtful(#[trigger] views(below@)[k]),
                decreases below@.len() - n,
            {
                assert(views(below@)[n as int] == below@[n as int]@);
                if is_doubtful(below[n]) {
                    assert(views(list@).contains(here@));
                    assert(views(below@).contains(below@[n as int]@));
                    assert(part_of(value@, here@) && inside(here@, below@[n as int]@));
                    return false;
                }
                n += 1;
            }
            assert forall|part: JsonView| #[trigger] inside(here@, part) implies !doubtful(part) by {
                assert(views(below@).contains(part));
                let k = choose|k: int| 0 <= k < views(below@).len() && views(below@)[k] == part;
                assert(!doubtful(views(below@)[k]));
            }
        }
        i += 1;
    }
    assert forall|long_part: JsonView, part: JsonView| #[trigger]
        part_of(value@, long_part) && long(long_part) && #[trigger] inside(long_part, part) implies !doubtful(part) by {
        assert(views(list@).contains(long_part));
        let n = choose|n: int| 0 <= n < views(list@).len() && views(list@)[n] == long_part;
        assert(long(views(list@)[n]) && inside(views(list@)[n], part));
    }
    true
}

/// Short lists need no care: a value none of whose lists has more than fifteen items is steady, whatever decimals
/// it holds.
pub proof fn law_short_lists_are_steady(value: JsonView)
    requires
        forall|list: JsonView| #[trigger]
            part_of(value, list) ==> (list matches JsonView::Array(items) ==> items.len() <= 15),
    ensures
        steady(value),
{
}

/// A list of more than fifteen items with a negative zero among them is not steady.
pub proof fn law_negative_zeros_in_long_lists_are_not_steady(items: Seq<JsonView>, i: int, zero: Seq<char>)
    requires
        items.len() > 15,
        0 <= i < items.len(),
        items[i] == JsonView::Decimal(zero),
        zero.len() > 0,
        zero[0] == '-',
        forall|k: int| 0 < k < zero.len() ==> #[trigger] zero[k] == '0' || zero[k] == '.',
    ensures
        !steady(JsonView::Array(items)),
{
    let list = JsonView::Array(items);
    assert(part_of(list, list));
    assert(items.contains(items[i]));
    assert(child_of(list, items[i]));
    lemma_inside(list, items[i]);
    assert(!surely_no_negative_zero(zero)) by {
        if exists|k: int| #[trigger] counts_at(zero, k) {
            let k = choose|k: int| #[trigger] counts_at(zero, k);
            assert('1' <= zero[k]);
            if k > 0 {
                assert(zero[k] == '0' || zero[k] == '.');
            }
        }
    }
    assert(doubtful(items[i]));
}

/// Numbers without a sign are never in doubt.
pub proof fn law_positive_decimals_are_steady(items: Seq<JsonView>)
    requires
        forall|i: int| 0 <= i < items.len() ==> (#[trigger] items[i] matches JsonView::Decimal(text) && text.len() > 0 && text[0] != '-'),
    ensures
        steady(JsonView::Array(items)),
{
    let list = JsonView::Array(items);
    assert forall|whole: JsonView, part: JsonView| #[trigger] part_of(list, whole) && long(whole) && #[trigger] inside(
        whole,
        part,
    ) implies !doubtful(part) by {
        if whole != list {
            let i = choose|i: int| 0 <= i < items.len() && ((#[trigger] items[i]) == whole || inside(items[i], whole));
            assert(items[i] is Decimal);
        }
        let i = choose|i: int| 0 <= i < items.len() && ((#[trigger] items[i]) == part || inside(items[i], part));
        assert(items[i] is Decimal);
    }
}

} // verus!
