//! Walks in a finite directed graph: which places are reached, and from which every walk ends.

use vstd::prelude::*;

verus! {

/// A graph as the list of arcs that leave each place.
pub open spec fn arc(arcs: Seq<Vec<usize>>, from: int, to: int) -> bool {
    0 <= from < arcs.len() && exists|k: int| 0 <= k < arcs[from]@.len() && #[trigger] arcs[from]@[k] == to
}

/// Every arc leads to a place of the graph.
pub open spec fn closed_graph(arcs: Seq<Vec<usize>>) -> bool {
    forall|i: int, k: int| 0 <= i < arcs.len() && 0 <= k < arcs[i]@.len() ==> (#[trigger] arcs[i]@[k]) < arcs.len()
}

/// `to` is reached from `start` over `steps` arcs.
pub open spec fn reached_in(arcs: Seq<Vec<usize>>, start: int, to: int, steps: nat) -> bool
    decreases steps,
{
    if steps == 0 {
        to == start
    } else {
        exists|before: int| reached_in(arcs, start, before, (steps - 1) as nat) && #[trigger] arc(arcs, before, to)
    }
}

pub open spec fn reached(arcs: Seq<Vec<usize>>, start: int, to: int) -> bool {
    exists|steps: nat| reached_in(arcs, start, to, steps)
}

/// No walk from `from` is longer than `steps`.
pub open spec fn ends_in(arcs: Seq<Vec<usize>>, from: int, steps: nat) -> bool
    decreases steps,
{
    forall|to: int| #[trigger] arc(arcs, from, to) ==> steps > 0 && ends_in(arcs, to, (steps - 1) as nat)
}

/// Every walk from `from` ends.
pub open spec fn ends(arcs: Seq<Vec<usize>>, from: int) -> bool {
    exists|steps: nat| ends_in(arcs, from, steps)
}

spec fn unmarked(flags: Seq<bool>) -> nat
    decreases flags.len(),
{
    if flags.len() == 0 {
        0
    } else {
        unmarked(flags.drop_last()) + (if flags.last() {
            0nat
        } else {
            1nat
        })
    }
}

/// Marking one more leaves one less unmarked.
proof fn lemma_mark(flags: Seq<bool>, i: int)
    requires
        0 <= i < flags.len(),
        !flags[i],
    ensures
        unmarked(flags.update(i, true)) + 1 == unmarked(flags),
    decreases flags.len(),
{
    let marked = flags.update(i, true);
    if i == flags.len() - 1 {
        assert(marked.drop_last() =~= flags.drop_last());
    } else {
        lemma_mark(flags.drop_last(), i);
        assert(marked.drop_last() =~= flags.drop_last().update(i, true));
    }
}

proof fn lemma_one_more(arcs: Seq<Vec<usize>>, start: int, before: int, to: int)
    requires
        reached(arcs, start, before),
        arc(arcs, before, to),
    ensures
        reached(arcs, start, to),
{
    let steps = choose|steps: nat| reached_in(arcs, start, before, steps);
    assert(reached_in(arcs, start, before, ((steps + 1) - 1) as nat));
    assert(reached_in(arcs, start, to, steps + 1));
}

/// What is closed under arcs and holds the start holds everything reached.
proof fn lemma_closure(arcs: Seq<Vec<usize>>, start: int, to: int, steps: nat, flags: Seq<bool>)
    requires
        closed_graph(arcs),
        flags.len() == arcs.len(),
        0 <= start < arcs.len(),
        flags[start],
        forall|i: int, j: int| 0 <= i < flags.len() && flags[i] && #[trigger] arc(arcs, i, j) ==> flags[j],
        reached_in(arcs, start, to, steps),
    ensures
        0 <= to < arcs.len(),
        flags[to],
    decreases steps,
{
    if steps > 0 {
        let before = choose|before: int|
            reached_in(arcs, start, before, (steps - 1) as nat) && #[trigger] arc(arcs, before, to);
        lemma_closure(arcs, start, before, (steps - 1) as nat, flags);
        let k = choose|k: int| 0 <= k < arcs[before]@.len() && #[trigger] arcs[before]@[k] == to;
        assert(arcs[before]@[k] < arcs.len());
    }
}

/// The places reached from `start`.
pub fn find_reached(arcs: &Vec<Vec<usize>>, start: usize) -> (r: Vec<bool>)
    requires
        closed_graph(arcs@),
        start < arcs@.len(),
    ensures
        r@.len() == arcs@.len(),
        forall|i: int| 0 <= i < r@.len() ==> (#[trigger] r@[i] <==> reached(arcs@, start as int, i)),
{
    let mut flags: Vec<bool> = Vec::new();
    let mut i: usize = 0;
    while i < arcs.len()
        invariant
            i <= arcs@.len(),
            flags@.len() == i,
            forall|k: int| 0 <= k < i ==> #[trigger] flags@[k] == (k == start),
        decreases arcs@.len() - i,
    {
        flags.push(i == start);
        i += 1;
    }
    assert(reached_in(arcs@, start as int, start as int, 0));
    let mut changed = true;
    while changed
        invariant
            closed_graph(arcs@),
            start < arcs@.len(),
            flags@.len() == arcs@.len(),
            flags@[start as int],
            forall|k: int| 0 <= k < flags@.len() && #[trigger] flags@[k] ==> reached(arcs@, start as int, k),
            !changed ==> forall|i: int, j: int|
                0 <= i < flags@.len() && flags@[i] && #[trigger] arc(arcs@, i, j) ==> flags@[j],
        decreases unmarked(flags@) + if changed { 1int } else { 0int },
    {
        changed = false;
        let ghost before = unmarked(flags@);
        let mut i: usize = 0;
        while i < arcs.len()
            invariant
                closed_graph(arcs@),
                start < arcs@.len(),
                i <= arcs@.len(),
                flags@.len() == arcs@.len(),
                flags@[start as int],
                forall|k: int| 0 <= k < flags@.len() && #[trigger] flags@[k] ==> reached(arcs@, start as int, k),
                unmarked(flags@) <= before,
                changed ==> unmarked(flags@) < before,
                !changed ==> forall|a: int, b: int|
                    0 <= a < i && flags@[a] && #[trigger] arc(arcs@, a, b) ==> flags@[b],
            decreases arcs@.len() - i,
        {
            if flags[i] {
                let mut k: usize = 0;
                while k < arcs[i].len()
                    invariant
                        closed_graph(arcs@),
                        start < arcs@.len(),
                        i < arcs@.len(),
                        k <= arcs@[i as int]@.len(),
                        flags@.len() == arcs@.len(),
                        flags@[start as int],
                        flags@[i as int],
                        forall|k: int| 0 <= k < flags@.len() && #[trigger] flags@[k] ==> reached(arcs@, start as int, k),
                        unmarked(flags@) <= before,
                        changed ==> unmarked(flags@) < before,
                        !changed ==> forall|a: int, b: int|
                            0 <= a < i && flags@[a] && #[trigger] arc(arcs@, a, b) ==> flags@[b],
                        forall|n: int| 0 <= n < k ==> flags@[#[trigger] arcs@[i as int]@[n] as int],
                    decreases arcs@[i as int]@.len() - k,
                {
                    let to: usize = arcs[i][k];
                    assert(arcs@[i as int]@[k as int] == to);
                    if !flags[to] {
                        proof {
                            assert(arc(arcs@, i as int, to as int));
                            lemma_one_more(arcs@, start as int, i as int, to as int);
                            lemma_mark(flags@, to as int);
                        }
                        flags.set(to, true);
                        changed = true;
                    }
                    k += 1;
                }
                assert forall|b: int| #[trigger] arc(arcs@, i as int, b) implies flags@[b] by {
                    let n = choose|n: int| 0 <= n < arcs@[i as int]@.len() && #[trigger] arcs@[i as int]@[n] == b;
                    assert(flags@[arcs@[i as int]@[n] as int]);
                }
            }
            i += 1;
        }
    }
    proof {
        assert forall|i: int| 0 <= i < flags@.len() && reached(arcs@, start as int, i) implies #[trigger] flags@[i] by {
            let steps = choose|steps: nat| reached_in(arcs@, start as int, i, steps);
            lemma_closure(arcs@, start as int, i, steps, flags@);
        }
    }
    flags
}

/// More steps do no harm.
proof fn lemma_ends_in_more(arcs: Seq<Vec<usize>>, from: int, steps: nat, more: nat)
    requires
        ends_in(arcs, from, steps),
        steps <= more,
    ensures
        ends_in(arcs, from, more),
    decreases steps,
{
    assert forall|to: int| #[trigger] arc(arcs, from, to) implies more > 0 && ends_in(arcs, to, (more - 1) as nat) by {
        lemma_ends_in_more(arcs, to, (steps - 1) as nat, (more - 1) as nat);
    }
}

/// Where every place outside a set leads to another outside it, no place outside ends.
proof fn lemma_outside(arcs: Seq<Vec<usize>>, flags: Seq<bool>, from: int, steps: nat)
    requires
        flags.len() == arcs.len(),
        0 <= from < flags.len(),
        !flags[from],
        forall|i: int| 0 <= i < flags.len() && !(#[trigger] flags[i]) ==> exists|j: int|
            0 <= j < flags.len() && #[trigger] arc(arcs, i, j) && !flags[j],
    ensures
        !ends_in(arcs, from, steps),
    decreases steps,
{
    let to = choose|j: int| 0 <= j < flags.len() && #[trigger] arc(arcs, from, j) && !flags[j];
    if steps > 0 {
        lemma_outside(arcs, flags, to, (steps - 1) as nat);
    }
}

/// The places from which every walk ends.
pub fn find_ends(arcs: &Vec<Vec<usize>>) -> (r: Vec<bool>)
    requires
        closed_graph(arcs@),
    ensures
        r@.len() == arcs@.len(),
        forall|i: int| 0 <= i < r@.len() ==> (#[trigger] r@[i] <==> ends(arcs@, i)),
{
    let mut flags: Vec<bool> = Vec::new();
    let mut i: usize = 0;
    while i < arcs.len()
        invariant
            i <= arcs@.len(),
            flags@.len() == i,
            forall|k: int| 0 <= k < i ==> !(#[trigger] flags@[k]),
        decreases arcs@.len() - i,
    {
        flags.push(false);
        i += 1;
    }
    let ghost mut bound: nat = 0;
    let mut changed = true;
    while changed
        invariant
            closed_graph(arcs@),
            flags@.len() == arcs@.len(),
            forall|k: int| 0 <= k < flags@.len() && #[trigger] flags@[k] ==> ends_in(arcs@, k, bound),
            !changed ==> forall|i: int|
                0 <= i < flags@.len() && !(#[trigger] flags@[i]) ==> exists|j: int|
                    0 <= j < flags@.len() && #[trigger] arc(arcs@, i, j) && !flags@[j],
        decreases unmarked(flags@) + if changed { 1int } else { 0int },
    {
        changed = false;
        let ghost before = unmarked(flags@);
        let mut i: usize = arcs.len();
        while i > 0
            invariant
                closed_graph(arcs@),
                i <= arcs@.len(),
                flags@.len() == arcs@.len(),
                forall|k: int| 0 <= k < flags@.len() && #[trigger] flags@[k] ==> ends_in(arcs@, k, bound),
                unmarked(flags@) <= before,
                changed ==> unmarked(flags@) < before,
                !changed ==> forall|a: int|
                    i <= a < flags@.len() && !(#[trigger] flags@[a]) ==> exists|j: int|
                        0 <= j < flags@.len() && #[trigger] arc(arcs@, a, j) && !flags@[j],
            decreases i,
        {
            i -= 1;
            if !flags[i] {
                let mut settled = true;
                let mut k: usize = 0;
                while k < arcs[i].len() && settled
                    invariant
                        closed_graph(arcs@),
                        i < arcs@.len(),
                        k <= arcs@[i as int]@.len(),
                        flags@.len() == arcs@.len(),
                        settled ==> forall|n: int| 0 <= n < k ==> flags@[#[trigger] arcs@[i as int]@[n] as int],
                        !settled ==> exists|j: int| 0 <= j < flags@.len() && #[trigger] arc(arcs@, i as int, j) && !flags@[j],
                    decreases arcs@[i as int]@.len() - k,
                {
                    let to: usize = arcs[i][k];
                    assert(arcs@[i as int]@[k as int] == to);
                    if !flags[to] {
                        assert(arc(arcs@, i as int, to as int));
                        settled = false;
                    }
                    k += 1;
                }
                if settled {
                    proof {
                        assert forall|to: int| #[trigger] arc(arcs@, i as int, to) implies ends_in(arcs@, to, bound) by {
                            let n = choose|n: int| 0 <= n < arcs@[i as int]@.len() && #[trigger] arcs@[i as int]@[n] == to;
                            assert(flags@[arcs@[i as int]@[n] as int]);
                        }
                        assert(ends_in(arcs@, i as int, bound + 1));
                        assert forall|k: int| 0 <= k < flags@.len() && #[trigger] flags@[k] implies ends_in(
                            arcs@,
                            k,
                            bound + 1,
                        ) by {
                            lemma_ends_in_more(arcs@, k, bound, bound + 1);
                        }
                        lemma_mark(flags@, i as int);
                        bound = bound + 1;
                    }
                    flags.set(i, true);
                    changed = true;
                }
            }
        }
    }
    proof {
        assert forall|i: int| 0 <= i < flags@.len() && ends(arcs@, i) implies #[trigger] flags@[i] by {
            if !flags@[i] {
                let steps = choose|steps: nat| ends_in(arcs@, i, steps);
                lemma_outside(arcs@, flags@, i, steps);
            }
        }
    }
    flags
}

} // verus!
