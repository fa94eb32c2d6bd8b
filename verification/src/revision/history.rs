//! The history of revisions: their ancestors, how far away they are, and common ancestors.

use crate::revision::ids::RevisionId;
use crate::revision::revision::AgentRevisionView;
use crate::text::{lemma_text_less_irreflexive, lemma_text_less_transitive, text_less};
use crate::text_map::{ascending, TextMap};
use vstd::prelude::*;

verus! {

/// A path leads from one revision to another, each time from a revision to one of its parents.
pub open spec fn is_path(
    revisions: Map<Seq<char>, AgentRevisionView>,
    path: Seq<Seq<char>>,
    start: Seq<char>,
    id: Seq<char>,
) -> bool {
    &&& path.len() > 0
    &&& path[0] == start
    &&& path.last() == id
    &&& forall|i: int|
        0 <= i < path.len() - 1 ==> revisions.contains_key(#[trigger] path[i])
            && revisions[path[i]].parents.contains(path[i + 1])
}

/// One revision is reached from another in a number of steps.
pub open spec fn reached(
    revisions: Map<Seq<char>, AgentRevisionView>,
    start: Seq<char>,
    id: Seq<char>,
    steps: nat,
) -> bool {
    exists|path: Seq<Seq<char>>| #[trigger]
        is_path(revisions, path, start, id) && path.len() == steps + 1
}

proof fn lemma_one_more_step(
    revisions: Map<Seq<char>, AgentRevisionView>,
    start: Seq<char>,
    child: Seq<char>,
    id: Seq<char>,
    steps: nat,
)
    requires
        reached(revisions, start, child, steps),
        revisions.contains_key(child),
        revisions[child].parents.contains(id),
    ensures
        reached(revisions, start, id, steps + 1),
{
    let path = choose|path: Seq<Seq<char>>| #[trigger]
        is_path(revisions, path, start, child) && path.len() == steps + 1;
    let longer = path.push(id);
    assert forall|i: int| 0 <= i < longer.len() - 1 implies revisions.contains_key(
        #[trigger] longer[i],
    ) && revisions[longer[i]].parents.contains(longer[i + 1]) by {
        if i < path.len() - 1 {
            assert(longer[i] == path[i]);
            assert(longer[i + 1] == path[i + 1]);
        }
    }
    assert(is_path(revisions, longer, start, id));
}

/// One revision is an ancestor of another, or that revision itself.
pub open spec fn is_ancestor(
    revisions: Map<Seq<char>, AgentRevisionView>,
    start: Seq<char>,
    id: Seq<char>,
) -> bool {
    exists|steps: nat| reached(revisions, start, id, steps)
}

/// A number of steps is the smallest in which one revision is reached from another.
pub open spec fn is_distance(
    revisions: Map<Seq<char>, AgentRevisionView>,
    start: Seq<char>,
    id: Seq<char>,
    steps: nat,
) -> bool {
    &&& reached(revisions, start, id, steps)
    &&& forall|fewer: nat| fewer < steps ==> !reached(revisions, start, id, fewer)
}

/// The ancestors of a revision are these, at these distances.
pub open spec fn ancestors_are(
    revisions: Map<Seq<char>, AgentRevisionView>,
    start: Seq<char>,
    distances: Map<Seq<char>, usize>,
) -> bool {
    &&& forall|id: Seq<char>| #[trigger]
        distances.contains_key(id) <==> is_ancestor(revisions, start, id)
    &&& forall|id: Seq<char>| #[trigger]
        distances.contains_key(id) ==> is_distance(revisions, start, id, distances[id] as nat)
}

/// The revisions that are not seen yet get fewer with each that is.
pub proof fn lemma_one_more_seen(
    revisions: Map<Seq<char>, AgentRevisionView>,
    seen: Seq<Seq<char>>,
    id: Seq<char>,
)
    requires
        revisions.dom().finite(),
        revisions.contains_key(id),
        !seen.contains(id),
    ensures
        revisions.dom().difference(seen.push(id).to_set()).len() < revisions.dom().difference(
            seen.to_set(),
        ).len(),
{
    let before = revisions.dom().difference(seen.to_set());
    let after = revisions.dom().difference(seen.push(id).to_set());
    assert(before.contains(id));
    assert forall|k: Seq<char>| #[trigger] after.contains(k) <==> before.remove(id).contains(k) by {
        if seen.contains(k) {
            let i = choose|i: int| 0 <= i < seen.len() && seen[i] == k;
            assert(seen.push(id)[i] == k);
        }
        assert(seen.push(id)[seen.len() as int] == id);
        if seen.push(id).contains(k) && k != id {
            let i = choose|i: int| 0 <= i <= seen.len() && seen.push(id)[i] == k;
            assert(seen[i] == k);
        }
    }
    assert(after =~= before.remove(id));
}

/// The order in which revisions are visited: those that wait come first, each once, and the
/// parents of each wait after it. A revision that is not there ends the walk.
pub open spec fn visited(
    revisions: Map<Seq<char>, AgentRevisionView>,
    waiting: Seq<Seq<char>>,
    seen: Seq<Seq<char>>,
) -> Result<Seq<Seq<char>>, Seq<char>>
    decreases revisions.dom().difference(seen.to_set()).len(), waiting.len(),
    when revisions.dom().finite()
{
    if waiting.len() == 0 {
        Ok(seen)
    } else {
        let id = waiting[0];
        if seen.contains(id) {
            visited(revisions, waiting.drop_first(), seen)
        } else if !revisions.contains_key(id) {
            Err(id)
        } else {
            proof {
                lemma_one_more_seen(revisions, seen, id);
            }
            visited(revisions, waiting.drop_first() + revisions[id].parents, seen.push(id))
        }
    }
}

/// The history of a revision, the revision first.
pub open spec fn history(revisions: Map<Seq<char>, AgentRevisionView>, start: Seq<char>) -> Result<
    Seq<Seq<char>>,
    Seq<char>,
> {
    visited(revisions, seq![start], Seq::empty())
}

/// A revision that waits, and how far it is away.
pub type Waiting = (Seq<char>, nat);

/// What holds while the ancestors of a revision are collected, nearest first.
pub open spec fn collecting(
    revisions: Map<Seq<char>, AgentRevisionView>,
    start: Seq<char>,
    waiting: Seq<Waiting>,
    distances: Map<Seq<char>, nat>,
) -> bool {
    &&& forall|i: int|
        0 <= i < waiting.len() ==> reached(
            revisions,
            start,
            (#[trigger] waiting[i]).0,
            waiting[i].1,
        )
    &&& forall|i: int, j: int|
        0 <= i <= j < waiting.len() ==> (#[trigger] waiting[i]).1 <= (#[trigger] waiting[j]).1
            <= waiting[i].1 + 1
    &&& forall|id: Seq<char>| #[trigger]
        distances.contains_key(id) ==> revisions.contains_key(id) && reached(
            revisions,
            start,
            id,
            distances[id],
        )
    &&& forall|id: Seq<char>, i: int| #[trigger]
        distances.contains_key(id) && 0 <= i < waiting.len() ==> distances[id] <= (
        #[trigger] waiting[i]).1
    &&& awaited(waiting, distances, start, 0)
    &&& forall|id: Seq<char>, parent: Seq<char>| #[trigger]
        distances.contains_key(id) && #[trigger] revisions[id].parents.contains(parent)
            ==> awaited(waiting, distances, parent, distances[id] + 1)
}

/// A revision was collected, or waits, within a number of steps.
pub open spec fn awaited(
    waiting: Seq<Waiting>,
    distances: Map<Seq<char>, nat>,
    id: Seq<char>,
    steps: nat,
) -> bool {
    ||| distances.contains_key(id) && distances[id] <= steps
    ||| exists|i: int|
        0 <= i < waiting.len() && (#[trigger] waiting[i]).0 == id && waiting[i].1 <= steps
}

/// One that waits was collected before.
pub proof fn lemma_collected_before(
    revisions: Map<Seq<char>, AgentRevisionView>,
    start: Seq<char>,
    waiting: Seq<Waiting>,
    distances: Map<Seq<char>, nat>,
)
    requires
        collecting(revisions, start, waiting, distances),
        waiting.len() > 0,
        distances.contains_key(waiting[0].0),
    ensures
        collecting(revisions, start, waiting.drop_first(), distances),
{
    let rest = waiting.drop_first();
    assert(forall|i: int| 0 <= i < rest.len() ==> #[trigger] rest[i] == waiting[i + 1]);
    assert forall|id: Seq<char>, steps: nat| #[trigger]
        awaited(waiting, distances, id, steps) implies awaited(rest, distances, id, steps) by {
        if !(distances.contains_key(id) && distances[id] <= steps) {
            let i = choose|i: int|
                0 <= i < waiting.len() && (#[trigger] waiting[i]).0 == id && waiting[i].1 <= steps;
            if i == 0 {
                assert(distances[id] <= waiting[0].1);
            } else {
                assert(rest[i - 1] == waiting[i]);
            }
        }
    }
    assert(awaited(waiting, distances, start, 0));
}

/// One that waits is collected, and its parents wait.
pub proof fn lemma_collect(
    revisions: Map<Seq<char>, AgentRevisionView>,
    start: Seq<char>,
    waiting: Seq<Waiting>,
    distances: Map<Seq<char>, nat>,
    parents: Seq<Waiting>,
)
    requires
        collecting(revisions, start, waiting, distances),
        waiting.len() > 0,
        !distances.contains_key(waiting[0].0),
        revisions.contains_key(waiting[0].0),
        parents.len() == revisions[waiting[0].0].parents.len(),
        forall|i: int|
            0 <= i < parents.len() ==> #[trigger] parents[i] == (
                revisions[waiting[0].0].parents[i],
                waiting[0].1 + 1,
            ),
    ensures
        collecting(
            revisions,
            start,
            waiting.drop_first() + parents,
            distances.insert(waiting[0].0, waiting[0].1),
        ),
{
    let (id, steps) = waiting[0];
    let rest = waiting.drop_first() + parents;
    let now = distances.insert(id, steps);
    let n = waiting.len() - 1;
    assert forall|i: int| 0 <= i < rest.len() implies #[trigger] rest[i] == if i < n {
        waiting[i + 1]
    } else {
        parents[i - n]
    } by {
    }
    assert forall|i: int| 0 <= i < rest.len() implies reached(
        revisions,
        start,
        (#[trigger] rest[i]).0,
        rest[i].1,
    ) by {
        if i >= n {
            let parent = parents[i - n];
            assert(revisions[id].parents[i - n] == parent.0);
            assert(revisions[id].parents.contains(parent.0));
            lemma_one_more_step(revisions, start, id, parent.0, steps);
        } else {
            assert(rest[i] == waiting[i + 1]);
        }
    }
    assert forall|i: int, j: int| 0 <= i <= j < rest.len() implies (#[trigger] rest[i]).1 <= (
    #[trigger] rest[j]).1 <= rest[i].1 + 1 by {
        if i < n {
            assert(waiting[0].1 <= waiting[i + 1].1 <= waiting[0].1 + 1);
            if j < n {
                assert(waiting[i + 1].1 <= waiting[j + 1].1 <= waiting[i + 1].1 + 1);
            }
        }
    }
    assert forall|key: Seq<char>, i: int| #[trigger]
        now.contains_key(key) && 0 <= i < rest.len() implies now[key] <= (#[trigger] rest[i]).1 by {
        if key != id {
            assert(distances[key] <= waiting[0].1);
        }
        if i < n {
            assert(waiting[0].1 <= waiting[i + 1].1);
        }
    }
    assert forall|key: Seq<char>, within: nat| #[trigger]
        awaited(waiting, distances, key, within) implies awaited(rest, now, key, within) by {
        if distances.contains_key(key) && distances[key] <= within {
        } else {
            let i = choose|i: int|
                0 <= i < waiting.len()
                    && (#[trigger] waiting[i]).0 == key
                    && waiting[i].1 <= within;
            if i > 0 {
                assert(rest[i - 1] == waiting[i]);
            }
        }
    }
    assert(awaited(waiting, distances, start, 0));
    assert forall|key: Seq<char>, parent: Seq<char>| #[trigger]
        now.contains_key(key) && #[trigger] revisions[key].parents.contains(parent) implies awaited(
        rest,
        now,
        parent,
        now[key] + 1,
    ) by {
        if key == id {
            let i = choose|i: int|
                0 <= i < revisions[id].parents.len() && revisions[id].parents[i] == parent;
            assert(parents[i] == (parent, steps + 1));
            assert(rest[n + i] == parents[i]);
        } else {
            assert(awaited(waiting, distances, parent, distances[key] + 1));
        }
    }
}

proof fn lemma_path_collected(
    revisions: Map<Seq<char>, AgentRevisionView>,
    start: Seq<char>,
    distances: Map<Seq<char>, nat>,
    id: Seq<char>,
    path: Seq<Seq<char>>,
)
    requires
        collecting(revisions, start, Seq::empty(), distances),
        is_path(revisions, path, start, id),
    ensures
        distances.contains_key(id),
        distances[id] < path.len(),
    decreases path.len(),
{
    if path.len() == 1 {
        assert(awaited(Seq::empty(), distances, start, 0));
    } else {
        let shorter = path.drop_last();
        let child = shorter.last();
        assert(is_path(revisions, shorter, start, child)) by {
            assert forall|i: int| 0 <= i < shorter.len() - 1 implies revisions.contains_key(
                #[trigger] shorter[i],
            ) && revisions[shorter[i]].parents.contains(shorter[i + 1]) by {
                assert(shorter[i] == path[i]);
            }
        }
        assert(child == path[path.len() - 2]);
        lemma_path_collected(revisions, start, distances, child, shorter);
        assert(awaited(Seq::empty(), distances, id, distances[child] + 1));
    }
}

proof fn lemma_all_collected(
    revisions: Map<Seq<char>, AgentRevisionView>,
    start: Seq<char>,
    distances: Map<Seq<char>, nat>,
    id: Seq<char>,
    steps: nat,
)
    requires
        collecting(revisions, start, Seq::empty(), distances),
        reached(revisions, start, id, steps),
    ensures
        distances.contains_key(id),
        distances[id] <= steps,
{
    let path = choose|path: Seq<Seq<char>>| #[trigger]
        is_path(revisions, path, start, id) && path.len() == steps + 1;
    lemma_path_collected(revisions, start, distances, id, path);
}

/// When nothing waits, what was collected are the ancestors at their distances.
pub proof fn lemma_collected(
    revisions: Map<Seq<char>, AgentRevisionView>,
    start: Seq<char>,
    distances: Map<Seq<char>, usize>,
)
    requires
        collecting(
            revisions,
            start,
            Seq::empty(),
            distances.map_values(|distance: usize| distance as nat),
        ),
    ensures
        ancestors_are(revisions, start, distances),
{
    let wide = distances.map_values(|distance: usize| distance as nat);
    assert forall|id: Seq<char>| #[trigger]
        distances.contains_key(id) <==> is_ancestor(revisions, start, id) by {
        if is_ancestor(revisions, start, id) {
            let steps = choose|steps: nat| reached(revisions, start, id, steps);
            lemma_all_collected(revisions, start, wide, id, steps);
            assert(wide.contains_key(id));
        }
        if distances.contains_key(id) {
            assert(wide.contains_key(id));
            assert(reached(revisions, start, id, wide[id]));
        }
    }
    assert forall|id: Seq<char>| #[trigger] distances.contains_key(id) implies is_distance(
        revisions,
        start,
        id,
        distances[id] as nat,
    ) by {
        assert(wide.contains_key(id));
        assert forall|fewer: nat| fewer < wide[id] implies !reached(revisions, start, id, fewer) by {
            if reached(revisions, start, id, fewer) {
                lemma_all_collected(revisions, start, wide, id, fewer);
            }
        }
    }
}

/// A common ancestor with the smallest sum of the two distances; of those with the same sum the
/// one whose name comes first.
pub open spec fn is_merge_base(
    ours: Map<Seq<char>, usize>,
    theirs: Map<Seq<char>, usize>,
    base: Seq<char>,
) -> bool {
    &&& ours.contains_key(base)
    &&& theirs.contains_key(base)
    &&& forall|id: Seq<char>| #[trigger]
        ours.contains_key(id) && theirs.contains_key(id) && id != base ==> comes_first(
            ours,
            theirs,
            base,
            id,
        )
}

/// One common ancestor is nearer than another, or as near and its name comes first.
pub open spec fn comes_first(
    ours: Map<Seq<char>, usize>,
    theirs: Map<Seq<char>, usize>,
    a: Seq<char>,
    b: Seq<char>,
) -> bool {
    let near = ours[a] + theirs[a];
    let far = ours[b] + theirs[b];
    near < far || (near == far && text_less(a, b))
}

/// The common ancestor that a merge starts from, if there is one.
pub fn choose_merge_base(ours: &TextMap<usize>, theirs: &TextMap<usize>) -> (r: Option<RevisionId>)
    ensures
        match r {
            Some(base) => is_merge_base(ours@, theirs@, base.deep_view()),
            None => forall|id: Seq<char>|
                !(#[trigger] ours@.contains_key(id) && theirs@.contains_key(id)),
        },
{
    let n: usize = ours.walk();
    let ghost keys = ours.keys();
    let mut best: Option<(usize, u128)> = None;
    for i in 0..n
        invariant
            n == keys.len(),
            keys == ours.keys(),
            ascending(keys),
            match best {
                None => forall|j: int|
                    0 <= j < i ==> !theirs@.contains_key(#[trigger] keys[j]),
                Some((at, near)) => {
                    &&& at < i
                    &&& ours@.contains_key(keys[at as int])
                    &&& theirs@.contains_key(keys[at as int])
                    &&& near == ours@[keys[at as int]] + theirs@[keys[at as int]]
                    &&& forall|j: int|
                        0 <= j < i && j != at && theirs@.contains_key(#[trigger] keys[j])
                            ==> comes_first(ours@, theirs@, keys[at as int], keys[j])
                },
            },
    {
        let id = ours.key_at(i);
        if let Some(other) = theirs.get(id.as_str()) {
            let sum: u128 = *ours.value_at(i) as u128 + *other as u128;
            match best {
                None => {
                    best = Some((i, sum));
                },
                Some((at, near)) => {
                    if sum < near {
                        assert forall|j: int|
                            0 <= j < i + 1 && j != i && theirs@.contains_key(
                                #[trigger] keys[j],
                            ) implies comes_first(ours@, theirs@, keys[i as int], keys[j]) by {
                            if j != at {
                                assert(comes_first(ours@, theirs@, keys[at as int], keys[j]));
                            }
                        }
                        best = Some((i, sum));
                    }
                },
            }
        }
    }
    match best {
        None => {
            assert forall|id: Seq<char>| !(#[trigger] ours@.contains_key(id) && theirs@.contains_key(
                id,
            )) by {
                if ours@.contains_key(id) {
                    assert(keys.contains(id));
                    let j = choose|j: int| 0 <= j < keys.len() && keys[j] == id;
                    assert(keys[j] == id);
                }
            }
            None
        },
        Some((at, near)) => {
            assert forall|id: Seq<char>| #[trigger]
                ours@.contains_key(id)
                    && theirs@.contains_key(id)
                    && id != keys[at as int] implies comes_first(
                ours@,
                theirs@,
                keys[at as int],
                id,
            ) by {
                assert(keys.contains(id));
                let j = choose|j: int| 0 <= j < keys.len() && keys[j] == id;
                assert(keys[j] == id);
            }
            Some(RevisionId(ours.key_at(at).clone()))
        },
    }
}

/// There is at most one common ancestor that a merge starts from.
pub proof fn law_merge_base_is_unique(
    ours: Map<Seq<char>, usize>,
    theirs: Map<Seq<char>, usize>,
    a: Seq<char>,
    b: Seq<char>,
)
    requires
        is_merge_base(ours, theirs, a),
        is_merge_base(ours, theirs, b),
    ensures
        a == b,
{
    if a != b {
        lemma_text_less_irreflexive(a);
        if text_less(a, b) && text_less(b, a) {
            lemma_text_less_transitive(a, b, a);
        }
        assert(comes_first(ours, theirs, a, b));
        assert(comes_first(ours, theirs, b, a));
    }
}

/// Both sides agree on the common ancestor that a merge starts from.
pub proof fn law_merge_base_is_symmetric(
    ours: Map<Seq<char>, usize>,
    theirs: Map<Seq<char>, usize>,
    base: Seq<char>,
)
    requires
        is_merge_base(ours, theirs, base),
    ensures
        is_merge_base(theirs, ours, base),
{
    assert forall|id: Seq<char>| #[trigger]
        theirs.contains_key(id) && ours.contains_key(id) && id != base implies comes_first(
        theirs,
        ours,
        base,
        id,
    ) by {
        assert(ours.contains_key(id));
        assert(comes_first(ours, theirs, base, id));
    }
}

/// How far an ancestor is away.
pub open spec fn distance(
    revisions: Map<Seq<char>, AgentRevisionView>,
    start: Seq<char>,
    id: Seq<char>,
) -> nat {
    choose|steps: nat| is_distance(revisions, start, id, steps)
}

/// A common ancestor of two revisions is nearer to both together than any other; of those that are
/// as near, its name comes first.
pub open spec fn is_nearest(
    revisions: Map<Seq<char>, AgentRevisionView>,
    ours: Seq<char>,
    theirs: Seq<char>,
    base: Seq<char>,
) -> bool {
    let near = distance(revisions, ours, base) + distance(revisions, theirs, base);
    &&& is_ancestor(revisions, ours, base)
    &&& is_ancestor(revisions, theirs, base)
    &&& forall|id: Seq<char>| #[trigger]
        is_ancestor(revisions, ours, id) && is_ancestor(revisions, theirs, id) && id != base ==> {
            let far = distance(revisions, ours, id) + distance(revisions, theirs, id);
            near < far || (near == far && text_less(base, id))
        }
}

/// The common ancestor that a merge of two revisions starts from.
pub open spec fn merge_base(
    revisions: Map<Seq<char>, AgentRevisionView>,
    ours: Seq<char>,
    theirs: Seq<char>,
) -> Option<Seq<char>> {
    if exists|base: Seq<char>| is_nearest(revisions, ours, theirs, base) {
        Some(choose|base: Seq<char>| is_nearest(revisions, ours, theirs, base))
    } else {
        None
    }
}

proof fn lemma_distance(
    revisions: Map<Seq<char>, AgentRevisionView>,
    start: Seq<char>,
    id: Seq<char>,
    steps: nat,
)
    requires
        is_distance(revisions, start, id, steps),
    ensures
        distance(revisions, start, id) == steps,
{
    let other = distance(revisions, start, id);
    assert(is_distance(revisions, start, id, other));
    if other < steps {
        assert(!reached(revisions, start, id, other));
    }
    if steps < other {
        assert(!reached(revisions, start, id, steps));
    }
}

/// A common ancestor is the nearest exactly where it is by the collected distances.
pub proof fn lemma_nearest(
    revisions: Map<Seq<char>, AgentRevisionView>,
    ours: Seq<char>,
    theirs: Seq<char>,
    our_distances: Map<Seq<char>, usize>,
    their_distances: Map<Seq<char>, usize>,
    base: Seq<char>,
)
    requires
        ancestors_are(revisions, ours, our_distances),
        ancestors_are(revisions, theirs, their_distances),
    ensures
        is_nearest(revisions, ours, theirs, base) <==> is_merge_base(
            our_distances,
            their_distances,
            base,
        ),
{
    assert forall|id: Seq<char>|
        our_distances.contains_key(id) && their_distances.contains_key(id) implies distance(
        revisions,
        ours,
        id,
    ) == our_distances[id] && distance(revisions, theirs, id) == their_distances[id] by {
        lemma_distance(revisions, ours, id, our_distances[id] as nat);
        lemma_distance(revisions, theirs, id, their_distances[id] as nat);
    }
    if is_merge_base(our_distances, their_distances, base) {
        assert(our_distances.contains_key(base));
        assert forall|id: Seq<char>| #[trigger]
            is_ancestor(revisions, ours, id)
                && is_ancestor(revisions, theirs, id)
                && id != base implies ({
            let near = distance(revisions, ours, base) + distance(revisions, theirs, base);
            let far = distance(revisions, ours, id) + distance(revisions, theirs, id);
            near < far || (near == far && text_less(base, id))
        }) by {
            assert(our_distances.contains_key(id));
            assert(their_distances.contains_key(id));
            assert(comes_first(our_distances, their_distances, base, id));
        }
    }
    if is_nearest(revisions, ours, theirs, base) {
        assert(our_distances.contains_key(base));
        assert(their_distances.contains_key(base));
        assert forall|id: Seq<char>| #[trigger]
            our_distances.contains_key(id)
                && their_distances.contains_key(id)
                && id != base implies comes_first(
            our_distances,
            their_distances,
            base,
            id,
        ) by {
            assert(is_ancestor(revisions, ours, id));
            assert(is_ancestor(revisions, theirs, id));
        }
    }
}

/// What is chosen by the collected distances is the common ancestor that a merge starts from.
pub proof fn lemma_merge_base(
    revisions: Map<Seq<char>, AgentRevisionView>,
    ours: Seq<char>,
    theirs: Seq<char>,
    our_distances: Map<Seq<char>, usize>,
    their_distances: Map<Seq<char>, usize>,
    chosen: Option<Seq<char>>,
)
    requires
        ancestors_are(revisions, ours, our_distances),
        ancestors_are(revisions, theirs, their_distances),
        match chosen {
            Some(base) => is_merge_base(our_distances, their_distances, base),
            None => forall|id: Seq<char>|
                !(#[trigger] our_distances.contains_key(id) && their_distances.contains_key(id)),
        },
    ensures
        merge_base(revisions, ours, theirs) == chosen,
{
    match chosen {
        Some(base) => {
            lemma_nearest(revisions, ours, theirs, our_distances, their_distances, base);
            let other = merge_base(revisions, ours, theirs)->Some_0;
            assert(is_nearest(revisions, ours, theirs, other));
            lemma_nearest(revisions, ours, theirs, our_distances, their_distances, other);
            law_merge_base_is_unique(our_distances, their_distances, base, other);
        },
        None => {
            if merge_base(revisions, ours, theirs) is Some {
                let other = merge_base(revisions, ours, theirs)->Some_0;
                assert(is_nearest(revisions, ours, theirs, other));
                lemma_nearest(revisions, ours, theirs, our_distances, their_distances, other);
                assert(our_distances.contains_key(other));
            }
        },
    }
}

} // verus!
