//! The dependency resolver: a pure function from a collection of
//! services with `before`/`after` hints to a valid start order, or a
//! cycle error.
//!
//! A directed ordering edge `a -> b` exists when service `a` names `b`
//! in its `before` set, or `b` names `a` in its `after` set; an edge
//! naming no service of the collection is an unresolved dependency and
//! constrains nothing.  The resolver repeatedly selects the lowest-index
//! service whose predecessors are all placed, so ties break by insertion
//! order.  On success every edge's predecessor precedes its successor;
//! when the graph contains a cycle no such order exists at all and the
//! resolver reports `CyclicDependency` with no partial work.

use vstd::prelude::*;
use vstd::set_lib::lemma_int_range;
use vstd::set_lib::lemma_len_subset;
use vstd::set_lib::set_int_range;

use crate::service::Service;
use crate::ErrorType;

verus! {

/// Some entry of `list` reads as the name `n`.
pub open spec fn contains_name(list: Seq<String>, n: Seq<char>) -> bool {
    exists|k: int| 0 <= k < list.len() && (#[trigger] list[k])@ == n
}

/// The directed ordering edge `a -> b`: service `a` must start before
/// service `b`, because `a` lists `b` in `before` or `b` lists `a` in
/// `after`.
pub open spec fn dep_edge(svcs: Seq<Service>, a: int, b: int) -> bool {
    &&& 0 <= a < svcs.len()
    &&& 0 <= b < svcs.len()
    &&& (contains_name(svcs[a].before@, svcs[b].name@) || contains_name(
        svcs[b].after@,
        svcs[a].name@,
    ))
}

/// Every edge of `svcs` goes forward in `order`: a predecessor's
/// position precedes its successor's.
pub open spec fn respects_edges(svcs: Seq<Service>, order: Seq<usize>) -> bool {
    forall|i: int, j: int|
        0 <= i < order.len() && 0 <= j < order.len() && #[trigger] dep_edge(
            svcs,
            order[i] as int,
            order[j] as int,
        ) ==> i < j
}

/// `order` is a valid total start order for `svcs`: it places each
/// service exactly once and every ordering edge goes forward.
pub open spec fn valid_order(svcs: Seq<Service>, order: Seq<usize>) -> bool {
    &&& order.len() == svcs.len()
    &&& forall|i: int| 0 <= i < order.len() ==> (#[trigger] order[i] as int) < svcs.len()
    &&& forall|i: int, j: int| 0 <= i < j < order.len() ==> order[i] != order[j]
    &&& respects_edges(svcs, order)
}

/// Service `v` occurs in the already-placed prefix `done`.
pub open spec fn placed_in(done: Seq<usize>, v: int) -> bool {
    exists|p: int| 0 <= p < done.len() && (#[trigger] done[p] as int) == v
}

/// Service `v` may start once the services of `done` have: it is not
/// yet placed and every predecessor of it is.
pub open spec fn ready_after(svcs: Seq<Service>, done: Seq<usize>, v: int) -> bool {
    &&& 0 <= v < svcs.len()
    &&& !placed_in(done, v)
    &&& forall|u: int| #[trigger] dep_edge(svcs, u, v) ==> placed_in(done, u)
}

/// Position `p` of `order` holds the lowest-index service that was
/// ready after the prefix before `p`.
pub open spec fn stable_at(svcs: Seq<Service>, order: Seq<usize>, p: int) -> bool {
    &&& ready_after(svcs, order.subrange(0, p), order[p] as int)
    &&& forall|v: int| 0 <= v < order[p] as int ==> !ready_after(svcs, order.subrange(0, p), v)
}

/// The order is the stable one: ties between ready services always
/// break toward the lower index, so the whole order is determined by
/// the edges and the insertion order alone.
pub open spec fn stable_order(svcs: Seq<Service>, order: Seq<usize>) -> bool {
    forall|p: int| 0 <= p < order.len() ==> #[trigger] stable_at(svcs, order, p)
}

/// Stable orders of equal length agree position by position: with the
/// prefixes equal, each next entry is the unique lowest-index ready
/// service.
proof fn lemma_stable_prefixes_agree(svcs: Seq<Service>, o1: Seq<usize>, o2: Seq<usize>, p: int)
    requires
        o1.len() == o2.len(),
        stable_order(svcs, o1),
        stable_order(svcs, o2),
        0 <= p <= o1.len(),
    ensures
        o1.subrange(0, p) =~= o2.subrange(0, p),
    decreases p,
{
    if p > 0 {
        lemma_stable_prefixes_agree(svcs, o1, o2, p - 1);
        let pre = o1.subrange(0, p - 1);
        assert(o2.subrange(0, p - 1) == pre);
        assert(stable_at(svcs, o1, p - 1));
        assert(stable_at(svcs, o2, p - 1));
        if (o1[p - 1] as int) < (o2[p - 1] as int) {
            assert(ready_after(svcs, pre, o1[p - 1] as int));
            assert(false);
        }
        if (o2[p - 1] as int) < (o1[p - 1] as int) {
            assert(ready_after(svcs, pre, o2[p - 1] as int));
            assert(false);
        }
        assert(o1[p - 1] == o2[p - 1]);
    }
}

/// The resolver's order is deterministic: for one collection of
/// services there is at most one stable total order, so two runs over
/// the same registry contents always produce the same result.
pub proof fn lemma_stable_order_unique(svcs: Seq<Service>, o1: Seq<usize>, o2: Seq<usize>)
    requires
        valid_order(svcs, o1),
        valid_order(svcs, o2),
        stable_order(svcs, o1),
        stable_order(svcs, o2),
    ensures
        o1 == o2,
{
    lemma_stable_prefixes_agree(svcs, o1, o2, o1.len() as int);
    assert(o1.subrange(0, o1.len() as int) =~= o1);
    assert(o2.subrange(0, o2.len() as int) =~= o2);
}

/// The default stop order for a batch: the reverse of its start
/// order, so that every service stops before the services it had to
/// start after.
pub fn stop_order(order: &Vec<usize>) -> (r: Vec<usize>)
    ensures
        r@ == order@.reverse(),
{
    let n = order.len();
    let mut r: Vec<usize> = Vec::new();
    let mut k: usize = 0;
    while k < n
        invariant
            n == order@.len(),
            k <= n,
            r@.len() == k,
            forall|m: int| 0 <= m < k ==> #[trigger] r@[m] == order@[n - 1 - m],
        decreases n - k,
    {
        r.push(order[n - 1 - k]);
        k += 1;
    }
    proof {
        assert(r@ =~= order@.reverse());
    }
    r
}

/// Whether `name` occurs in `list`.
fn name_in(list: &Vec<String>, name: &String) -> (r: bool)
    ensures
        r == contains_name(list@, name@),
{
    let mut k: usize = 0;
    while k < list.len()
        invariant
            k <= list@.len(),
            forall|m: int| 0 <= m < k ==> (#[trigger] list@[m])@ != name@,
        decreases list@.len() - k,
    {
        if list[k] == *name {
            assert((list@[k as int])@ == name@);
            return true;
        }
        k += 1;
    }
    false
}

/// Whether the ordering edge `a -> b` exists.
fn has_edge(svcs: &Vec<Service>, a: usize, b: usize) -> (r: bool)
    requires
        a < svcs@.len(),
        b < svcs@.len(),
    ensures
        r == dep_edge(svcs@, a as int, b as int),
{
    name_in(&svcs[a].before, &svcs[b].name) || name_in(&svcs[b].after, &svcs[a].name)
}

/// Whether every predecessor of service `i` is already placed.
fn preds_placed(svcs: &Vec<Service>, placed: &Vec<bool>, i: usize) -> (r: bool)
    requires
        placed@.len() == svcs@.len(),
        i < svcs@.len(),
    ensures
        r ==> forall|j: int|
            0 <= j < svcs@.len() && #[trigger] dep_edge(svcs@, j, i as int) ==> placed@[j],
        !r ==> exists|j: int|
            0 <= j < svcs@.len() && #[trigger] dep_edge(svcs@, j, i as int) && !placed@[j],
{
    let n = svcs.len();
    let mut j: usize = 0;
    while j < n
        invariant
            n == svcs@.len(),
            placed@.len() == n,
            i < n,
            j <= n,
            forall|m: int| 0 <= m < j && #[trigger] dep_edge(svcs@, m, i as int) ==> placed@[m],
        decreases n - j,
    {
        if has_edge(svcs, j, i) && !placed[j] {
            assert(dep_edge(svcs@, j as int, i as int) && !placed@[j as int]);
            return false;
        }
        j += 1;
    }
    true
}

/// Finds the lowest-index unplaced service whose predecessors are all
/// placed, if one exists.
fn find_ready(svcs: &Vec<Service>, placed: &Vec<bool>) -> (r: Option<usize>)
    requires
        placed@.len() == svcs@.len(),
    ensures
        match r {
            Some(i) => i < svcs@.len() && !placed@[i as int] && (forall|j: int|
                0 <= j < svcs@.len() && #[trigger] dep_edge(svcs@, j, i as int) ==> placed@[j])
                && forall|m: int|
                0 <= m < i && !(#[trigger] placed@[m]) ==> exists|j: int|
                    0 <= j < svcs@.len() && #[trigger] dep_edge(svcs@, j, m) && !placed@[j],
            None => forall|i: int|
                0 <= i < svcs@.len() && !(#[trigger] placed@[i]) ==> exists|j: int|
                    0 <= j < svcs@.len() && #[trigger] dep_edge(svcs@, j, i) && !placed@[j],
        },
{
    let n = svcs.len();
    let mut i: usize = 0;
    while i < n
        invariant
            n == svcs@.len(),
            placed@.len() == n,
            i <= n,
            forall|m: int|
                0 <= m < i && !(#[trigger] placed@[m]) ==> exists|j: int|
                    0 <= j < n && #[trigger] dep_edge(svcs@, j, m) && !placed@[j],
        decreases n - i,
    {
        if !placed[i] {
            if preds_placed(svcs, placed, i) {
                return Some(i);
            }
        }
        i += 1;
    }
    None
}

/// Every value `0 <= v < n` occurs in a sequence of `n` distinct values
/// drawn from `0..n`.
proof fn lemma_distinct_covers(order: Seq<usize>, n: int, v: int)
    requires
        order.len() == n,
        forall|i: int| 0 <= i < n ==> (#[trigger] order[i] as int) < n,
        forall|i: int, j: int| 0 <= i < j < n ==> order[i] != order[j],
        0 <= v < n,
    ensures
        exists|p: int| 0 <= p < n && (#[trigger] order[p] as int) == v,
{
    let m = order.map_values(|u: usize| u as int);
    assert(m.no_duplicates()) by {
        assert forall|i: int, j: int|
            0 <= i < m.len() && 0 <= j < m.len() && i != j implies m[i] != m[j] by {
            if i < j {
                assert(order[i] != order[j]);
            } else {
                assert(order[j] != order[i]);
            }
        }
    }
    m.unique_seq_to_set();
    lemma_int_range(0, n);
    let range = set_int_range(0, n);
    assert(m.to_set().subset_of(range)) by {
        assert forall|x: int| m.to_set().contains(x) implies range.contains(x) by {
            let i = choose|i: int| 0 <= i < m.len() && m[i] == x;
            assert((order[i] as int) < n);
        }
    }
    if !m.to_set().contains(v) {
        m.to_set().lemma_subset_not_in_lt(range, v);
        assert(false);
    }
    let p = choose|p: int| 0 <= p < m.len() && m[p] == v;
    assert(order[p] as int == v);
}

/// The earliest position of `ord` holding a value not yet placed, given
/// one position `p` that holds such a value.
proof fn lemma_first_unplaced(ord: Seq<usize>, placed: Seq<bool>, p: int) -> (m: int)
    requires
        0 <= p < ord.len(),
        forall|q: int| 0 <= q < ord.len() ==> (#[trigger] ord[q] as int) < placed.len(),
        !placed[ord[p] as int],
    ensures
        0 <= m <= p,
        !placed[ord[m] as int],
        forall|q: int| 0 <= q < m ==> placed[#[trigger] ord[q] as int],
    decreases p,
{
    if exists|q: int| 0 <= q < p && !placed[#[trigger] ord[q] as int] {
        let q = choose|q: int| 0 <= q < p && !placed[#[trigger] ord[q] as int];
        lemma_first_unplaced(ord, placed, q)
    } else {
        p
    }
}

/// Computes a total start order over the given services, consistent
/// with every `before`/`after` edge, by repeatedly selecting the
/// lowest-index service with no unsatisfied incoming edge.
///
/// On success the order places every service exactly once with each
/// edge's predecessor before its successor.  When the edges contain a
/// cycle, no such order exists at all; the resolver reports
/// `CyclicDependency` and hands back no partial order.
pub fn resolve_order(svcs: &Vec<Service>) -> (r: Result<Vec<usize>, ErrorType>)
    ensures
        match r {
            Ok(order) => valid_order(svcs@, order@) && stable_order(svcs@, order@),
            Err(e) => {
                &&& e == ErrorType::CyclicDependency
                &&& forall|ord: Seq<usize>| !valid_order(svcs@, ord)
            },
        },
{
    let n = svcs.len();
    let mut placed: Vec<bool> = Vec::new();
    while placed.len() < n
        invariant
            placed@.len() <= n,
            forall|k: int| 0 <= k < placed@.len() ==> !(#[trigger] placed@[k]),
        decreases n - placed@.len(),
    {
        placed.push(false);
    }
    let mut order: Vec<usize> = Vec::new();
    while order.len() < n
        invariant
            n == svcs@.len(),
            placed@.len() == n,
            order@.len() <= n,
            forall|p: int| 0 <= p < order@.len() ==> (#[trigger] order@[p] as int) < n,
            forall|p: int, q: int| 0 <= p < q < order@.len() ==> order@[p] != order@[q],
            forall|v: int|
                0 <= v < n ==> ((#[trigger] placed@[v]) <==> exists|p: int|
                    0 <= p < order@.len() && (#[trigger] order@[p] as int) == v),
            forall|q: int, x: int|
                0 <= q < order@.len() && #[trigger] dep_edge(svcs@, x, order@[q] as int)
                    ==> exists|p: int| 0 <= p < q && (#[trigger] order@[p] as int) == x,
            forall|p: int| 0 <= p < order@.len() ==> #[trigger] stable_at(svcs@, order@, p),
        decreases n - order@.len(),
    {
        let ghost old_order = order@;
        let ghost old_placed = placed@;
        match find_ready(svcs, &placed) {
            Some(i) => {
                placed[i] = true;
                order.push(i);
                proof {
                    assert forall|v: int|
                        0 <= v < n implies ((#[trigger] placed@[v]) <==> exists|p: int|
                        0 <= p < order@.len() && (#[trigger] order@[p] as int) == v) by {
                        if v == i as int {
                            assert(order@[order@.len() - 1] as int == v);
                        } else {
                            assert(placed@[v] == old_placed[v]);
                            if placed@[v] {
                                let p = choose|p: int|
                                    0 <= p < old_order.len() && old_order[p] as int == v;
                                assert(order@[p] as int == v);
                            }
                            if exists|p: int|
                                0 <= p < order@.len() && (#[trigger] order@[p] as int) == v {
                                let p = choose|p: int|
                                    0 <= p < order@.len() && (order@[p] as int) == v;
                                assert(p < old_order.len());
                                assert(old_order[p] as int == v);
                            }
                        }
                    }
                    assert forall|p: int, q: int|
                        0 <= p < q < order@.len() implies order@[p] != order@[q] by {
                        if q == order@.len() - 1 {
                            assert(!old_placed[i as int]);
                            assert(old_order[p] as int != i as int);
                        }
                    }
                    assert forall|q: int, x: int|
                        0 <= q < order@.len() && #[trigger] dep_edge(svcs@, x, order@[q] as int)
                            implies exists|p: int|
                            0 <= p < q && (#[trigger] order@[p] as int) == x by {
                        if q == order@.len() - 1 {
                            assert(dep_edge(svcs@, x, i as int));
                            assert(old_placed[x]);
                            let p = choose|p: int|
                                0 <= p < old_order.len() && old_order[p] as int == x;
                            assert(order@[p] as int == x);
                        } else {
                            assert(dep_edge(svcs@, x, old_order[q] as int));
                            let p = choose|p: int| 0 <= p < q && old_order[p] as int == x;
                            assert(order@[p] as int == x);
                        }
                    }
                    assert forall|p: int|
                        0 <= p < order@.len() implies #[trigger] stable_at(svcs@, order@, p) by {
                        if p < old_order.len() {
                            assert(stable_at(svcs@, old_order, p));
                            assert(order@.subrange(0, p) =~= old_order.subrange(0, p));
                            assert(order@[p] == old_order[p]);
                        } else {
                            let prefix = order@.subrange(0, p);
                            assert(prefix =~= old_order);
                            assert(!placed_in(old_order, i as int)) by {
                                if placed_in(old_order, i as int) {
                                    assert(old_placed[i as int]);
                                }
                            }
                            assert forall|u: int|
                                #[trigger] dep_edge(svcs@, u, i as int) implies placed_in(
                                old_order,
                                u,
                            ) by {
                                assert(old_placed[u]);
                            }
                            assert(ready_after(svcs@, old_order, i as int));
                            assert forall|v: int|
                                0 <= v < i as int implies !ready_after(svcs@, old_order, v) by {
                                if old_placed[v] {
                                    assert(placed_in(old_order, v));
                                } else {
                                    let j = choose|j: int|
                                        0 <= j < n && dep_edge(svcs@, j, v) && !old_placed[j];
                                    assert(!placed_in(old_order, j)) by {
                                        if placed_in(old_order, j) {
                                            assert(old_placed[j]);
                                        }
                                    }
                                    assert(dep_edge(svcs@, j, v));
                                }
                            }
                        }
                    }
                }
            },
            None => {
                proof {
                    assert(exists|v: int| 0 <= v < n && !(#[trigger] placed@[v])) by {
                        if forall|v: int| 0 <= v < n ==> #[trigger] placed@[v] {
                            let ints = order@.map_values(|u: usize| u as int);
                            assert(set_int_range(0, n as int).subset_of(ints.to_set())) by {
                                assert forall|v: int|
                                    set_int_range(0, n as int).contains(v) implies ints.to_set()
                                    .contains(v) by {
                                    assert(placed@[v]);
                                    let p = choose|p: int|
                                        0 <= p < order@.len() && (order@[p] as int) == v;
                                    assert(ints[p] == v);
                                }
                            }
                            lemma_len_subset(set_int_range(0, n as int), ints.to_set());
                            ints.lemma_cardinality_of_set();
                            lemma_int_range(0, n as int);
                            assert(false);
                        }
                    }
                    let v0 = choose|v: int| 0 <= v < n && !placed@[v];
                    assert forall|ord: Seq<usize>| !valid_order(svcs@, ord) by {
                        if valid_order(svcs@, ord) {
                            lemma_distinct_covers(ord, n as int, v0);
                            let p0 = choose|p: int| 0 <= p < n && (ord[p] as int) == v0;
                            let m = lemma_first_unplaced(ord, placed@, p0);
                            let w = ord[m] as int;
                            assert(!placed@[w]);
                            let u = choose|j: int|
                                0 <= j < n && dep_edge(svcs@, j, w) && !placed@[j];
                            lemma_distinct_covers(ord, n as int, u);
                            let q = choose|p: int| 0 <= p < n && (ord[p] as int) == u;
                            assert(dep_edge(svcs@, ord[q] as int, ord[m] as int));
                            assert(q < m);
                            assert(placed@[ord[q] as int]);
                            assert(false);
                        }
                    }
                }
                return Err(ErrorType::CyclicDependency);
            },
        }
    }
    proof {
        assert(respects_edges(svcs@, order@)) by {
            assert forall|i: int, j: int|
                0 <= i < order@.len() && 0 <= j < order@.len() && #[trigger] dep_edge(
                    svcs@,
                    order@[i] as int,
                    order@[j] as int,
                ) implies i < j by {
                let p = choose|p: int| 0 <= p < j && (order@[p] as int) == order@[i] as int;
                if p != i {
                    if p < i {
                        assert(order@[p] != order@[i]);
                    } else {
                        assert(order@[i] != order@[p]);
                    }
                    assert(false);
                }
            }
        }
    }
    Ok(order)
}

} // verus!
