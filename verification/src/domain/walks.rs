use vstd::prelude::*;

use crate::domain::id::{lex_lt, NodeId};
use crate::domain::topology::{far_end, forwarding, PanLink};

verus! {

/// The identifier bytes of the node across `link` from `node`.
pub open spec fn far_key(link: PanLink, node: Seq<u8>) -> Option<Seq<u8>> {
    match far_end(link, node) {
        Some(other) => Some(other.0@),
        None => None,
    }
}

/// Some forwarding link leads from node `a` to node `b`.
pub open spec fn adjacent(links: Seq<PanLink>, a: Seq<u8>, b: Seq<u8>) -> bool {
    exists|i: int|
        #![trigger links[i]]
        0 <= i < links.len() && forwarding(links[i]) && far_key(links[i], a) == Some(b)
}

/// The identifier bytes of a sequence of nodes.
pub open spec fn node_keys(path: Seq<NodeId>) -> Seq<Seq<u8>> {
    path.map_values(|node: NodeId| node.0@)
}

/// A walk: one or more known nodes, each adjacent to the next.
pub open spec fn is_walk(present: Set<Seq<u8>>, links: Seq<PanLink>, walk: Seq<Seq<u8>>) -> bool {
    &&& walk.len() >= 1
    &&& forall|k: int| 0 <= k < walk.len() ==> present.contains(#[trigger] walk[k])
    &&& forall|k: int| 0 <= k < walk.len() - 1 ==> adjacent(links, #[trigger] walk[k], walk[k + 1])
}

/// A walk from `start` to `end`.
pub open spec fn walk_between(
    present: Set<Seq<u8>>,
    links: Seq<PanLink>,
    walk: Seq<Seq<u8>>,
    start: Seq<u8>,
    end: Seq<u8>,
) -> bool {
    is_walk(present, links, walk) && walk[0] == start && walk.last() == end
}

/// `a` comes before `b` when compared node by node, by identifier.
pub open spec fn walk_before(a: Seq<Seq<u8>>, b: Seq<Seq<u8>>) -> bool {
    exists|k: int|
        0 <= k < a.len() && k < b.len() && a.take(k) == b.take(k) && #[trigger] lex_lt(a[k], b[k])
}

/// Node `v` reaches `end` over at most `k` forwarding links.
pub open spec fn reach_within(links: Seq<PanLink>, v: Seq<u8>, end: Seq<u8>, k: nat) -> bool
    decreases k,
{
    if k == 0 {
        v == end
    } else {
        ||| reach_within(links, v, end, (k - 1) as nat)
        ||| exists|i: int|
            #![trigger links[i]]
            0 <= i < links.len() && forwarding(links[i]) && match far_key(links[i], v) {
                Some(u) => reach_within(links, u, end, (k - 1) as nat),
                None => false,
            }
    }
}

/// `d` is the fewest links over which `v` reaches `end`.
pub open spec fn least_distance(links: Seq<PanLink>, v: Seq<u8>, end: Seq<u8>, d: nat) -> bool {
    reach_within(links, v, end, d) && (d == 0 || !reach_within(links, v, end, (d - 1) as nat))
}

/// Every link ends at known nodes.
pub open spec fn endpoints_present(present: Set<Seq<u8>>, links: Seq<PanLink>) -> bool {
    forall|i: int|
        0 <= i < links.len() ==> present.contains((#[trigger] links[i]).nap.0@) && present.contains(
            links[i].panu.0@,
        )
}

pub proof fn lemma_reach_monotone(links: Seq<PanLink>, v: Seq<u8>, end: Seq<u8>, k: nat, m: nat)
    requires
        k <= m,
        reach_within(links, v, end, k),
    ensures
        reach_within(links, v, end, m),
    decreases m - k,
{
    if k < m {
        lemma_reach_monotone(links, v, end, k, (m - 1) as nat);
    }
}

/// One step along a forwarding link adds one to the reach.
pub proof fn lemma_reach_step(links: Seq<PanLink>, v: Seq<u8>, u: Seq<u8>, end: Seq<u8>, k: nat)
    requires
        adjacent(links, v, u),
        reach_within(links, u, end, k),
    ensures
        reach_within(links, v, end, k + 1),
{
    let i = choose|i: int|
        #![trigger links[i]]
        0 <= i < links.len() && forwarding(links[i]) && far_key(links[i], v) == Some(u);
    assert(0 <= i < links.len() && forwarding(links[i]) && match far_key(links[i], v) {
        Some(w) => reach_within(links, w, end, k),
        None => false,
    });
}

/// From a node that is not `end`, reaching `end` takes a first step to some neighbour.
pub proof fn lemma_reach_first_step(links: Seq<PanLink>, v: Seq<u8>, end: Seq<u8>, d: nat)
    requires
        d > 0,
        least_distance(links, v, end, d),
    ensures
        exists|i: int|
            #![trigger links[i]]
            0 <= i < links.len() && forwarding(links[i]) && far_key(links[i], v) is Some
                && least_distance(links, far_key(links[i], v).unwrap(), end, (d - 1) as nat),
{
    let i = choose|i: int|
        #![trigger links[i]]
        0 <= i < links.len() && forwarding(links[i]) && match far_key(links[i], v) {
            Some(u) => reach_within(links, u, end, (d - 1) as nat),
            None => false,
        };
    let u = far_key(links[i], v).unwrap();
    assert(adjacent(links, v, u));
    if d >= 2 && reach_within(links, u, end, (d - 2) as nat) {
        lemma_reach_step(links, v, u, end, (d - 2) as nat);
    }
}

/// The fewest-links count of a node is unique.
pub proof fn lemma_least_unique(links: Seq<PanLink>, v: Seq<u8>, end: Seq<u8>, d: nat, e: nat)
    requires
        least_distance(links, v, end, d),
        least_distance(links, v, end, e),
    ensures
        d == e,
{
    if d < e {
        lemma_reach_monotone(links, v, end, d, (e - 1) as nat);
    } else if e < d {
        lemma_reach_monotone(links, v, end, e, (d - 1) as nat);
    }
}

/// A walk that ends at `end` shows that its first node reaches `end` over its length.
pub proof fn lemma_walk_reaches(
    present: Set<Seq<u8>>,
    links: Seq<PanLink>,
    walk: Seq<Seq<u8>>,
    end: Seq<u8>,
)
    requires
        is_walk(present, links, walk),
        walk.last() == end,
    ensures
        reach_within(links, walk[0], end, (walk.len() - 1) as nat),
    decreases walk.len(),
{
    if walk.len() > 1 {
        let rest = walk.drop_first();
        assert forall|k: int| 0 <= k < rest.len() - 1 implies adjacent(
            links,
            #[trigger] rest[k],
            rest[k + 1],
        ) by {
            assert(rest[k] == walk[k + 1] && rest[k + 1] == walk[k + 2]);
        }
        assert forall|k: int| 0 <= k < rest.len() implies present.contains(#[trigger] rest[k]) by {
            assert(rest[k] == walk[k + 1]);
        }
        lemma_walk_reaches(present, links, rest, end);
        assert(adjacent(links, walk[0], walk[1]));
        lemma_reach_step(links, walk[0], rest[0], end, (rest.len() - 1) as nat);
    }
}

/// Reaching `end` from a node of a walk lets the walk's first node reach it too.
pub proof fn lemma_prefix_reaches(
    present: Set<Seq<u8>>,
    links: Seq<PanLink>,
    walk: Seq<Seq<u8>>,
    end: Seq<u8>,
    k: int,
    m: nat,
)
    requires
        is_walk(present, links, walk),
        0 <= k < walk.len(),
        reach_within(links, walk[k], end, m),
    ensures
        reach_within(links, walk[0], end, (m + k) as nat),
    decreases k,
{
    if k > 0 {
        assert(adjacent(links, walk[k - 1], walk[k]));
        lemma_reach_step(links, walk[k - 1], walk[k], end, m);
        lemma_prefix_reaches(present, links, walk, end, k - 1, m + 1);
    }
}

/// Along a walk of the fewest links, each node's fewest-links count drops by one per step.
pub proof fn lemma_shortest_walk_distances(
    present: Set<Seq<u8>>,
    links: Seq<PanLink>,
    walk: Seq<Seq<u8>>,
    end: Seq<u8>,
    k: int,
)
    requires
        is_walk(present, links, walk),
        walk.last() == end,
        least_distance(links, walk[0], end, (walk.len() - 1) as nat),
        0 <= k < walk.len(),
    ensures
        least_distance(links, walk[k], end, (walk.len() - 1 - k) as nat),
{
    let suffix = walk.skip(k);
    assert forall|j: int| 0 <= j < suffix.len() - 1 implies adjacent(
        links,
        #[trigger] suffix[j],
        suffix[j + 1],
    ) by {
        assert(suffix[j] == walk[k + j] && suffix[j + 1] == walk[k + j + 1]);
    }
    assert forall|j: int| 0 <= j < suffix.len() implies present.contains(#[trigger] suffix[j]) by {
        assert(suffix[j] == walk[k + j]);
    }
    lemma_walk_reaches(present, links, suffix, end);
    let d = (walk.len() - 1 - k) as nat;
    if d > 0 && reach_within(links, walk[k], end, (d - 1) as nat) {
        lemma_prefix_reaches(present, links, walk, end, k, (d - 1) as nat);
    }
}

/// Once one more link reaches no further, more links never do.
pub proof fn lemma_reach_fixpoint(
    present: Set<Seq<u8>>,
    links: Seq<PanLink>,
    end: Seq<u8>,
    k: nat,
    m: nat,
)
    requires
        endpoints_present(present, links),
        forall|v: Seq<u8>|
            present.contains(v) ==> (reach_within(links, v, end, k + 1) == reach_within(
                links,
                v,
                end,
                k,
            )),
        k <= m,
    ensures
        forall|v: Seq<u8>|
            present.contains(v) ==> (reach_within(links, v, end, m) == reach_within(
                links,
                v,
                end,
                k,
            )),
    decreases m - k,
{
    if m > k {
        lemma_reach_fixpoint(present, links, end, k, (m - 1) as nat);
        assert forall|v: Seq<u8>| present.contains(v) implies (reach_within(links, v, end, m)
            == reach_within(links, v, end, k)) by {
            if reach_within(links, v, end, m) && !reach_within(links, v, end, (m - 1) as nat) {
                let i = choose|i: int|
                    #![trigger links[i]]
                    0 <= i < links.len() && forwarding(links[i]) && match far_key(links[i], v) {
                        Some(u) => reach_within(links, u, end, (m - 1) as nat),
                        None => false,
                    };
                let u = far_key(links[i], v).unwrap();
                assert(present.contains(u));
                assert(adjacent(links, v, u));
                lemma_reach_step(links, v, u, end, k);
            }
            if reach_within(links, v, end, k) {
                lemma_reach_monotone(links, v, end, k, m);
            }
        }
    }
}

/// How many entries are filled in.
pub open spec fn count_filled(s: Seq<Option<usize>>) -> nat
    decreases s.len(),
{
    if s.len() == 0 {
        0
    } else {
        count_filled(s.drop_last()) + if s.last() is Some {
            1nat
        } else {
            0nat
        }
    }
}

pub proof fn lemma_count_filled_bound(s: Seq<Option<usize>>)
    ensures
        count_filled(s) <= s.len(),
    decreases s.len(),
{
    if s.len() > 0 {
        lemma_count_filled_bound(s.drop_last());
    }
}

/// Filling in more entries, and never clearing one, raises the count.
pub proof fn lemma_count_filled_grows(a: Seq<Option<usize>>, b: Seq<Option<usize>>, j: int)
    requires
        a.len() == b.len(),
        forall|i: int| 0 <= i < a.len() && (#[trigger] a[i]) is Some ==> b[i] is Some,
        0 <= j < a.len(),
        a[j] is None,
        b[j] is Some,
    ensures
        count_filled(a) < count_filled(b),
    decreases a.len(),
{
    lemma_count_filled_monotone(a.drop_last(), b.drop_last());
    if j < a.len() - 1 {
        assert(a.drop_last()[j] == a[j] && b.drop_last()[j] == b[j]);
        lemma_count_filled_grows(a.drop_last(), b.drop_last(), j);
    }
}

/// A table with an entry not filled in has fewer filled entries than entries.
pub proof fn lemma_count_filled_missing(s: Seq<Option<usize>>, j: int)
    requires
        0 <= j < s.len(),
        s[j] is None,
    ensures
        count_filled(s) < s.len(),
    decreases s.len(),
{
    lemma_count_filled_bound(s.drop_last());
    if j < s.len() - 1 {
        assert(s.drop_last()[j] == s[j]);
        lemma_count_filled_missing(s.drop_last(), j);
    }
}

pub proof fn lemma_count_filled_monotone(a: Seq<Option<usize>>, b: Seq<Option<usize>>)
    requires
        a.len() == b.len(),
        forall|i: int| 0 <= i < a.len() && (#[trigger] a[i]) is Some ==> b[i] is Some,
    ensures
        count_filled(a) <= count_filled(b),
    decreases a.len(),
{
    if a.len() > 0 {
        assert forall|i: int| 0 <= i < a.drop_last().len() && (#[trigger] a.drop_last()[i]) is Some implies b.drop_last()[i] is Some by {
            assert(a.drop_last()[i] == a[i] && b.drop_last()[i] == b[i]);
        }
        lemma_count_filled_monotone(a.drop_last(), b.drop_last());
    }
}

} // verus!
