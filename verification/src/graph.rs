//! The order in which steps run so that each one follows what it depends on.

use crate::sorted::{same_members, sort_and_dedup, sorted_unique, sorted_unique_is_sorted};
use crate::text::{push_text, same, texts};
use vstd::prelude::*;

verus! {

/// A step as the traversal sees it: its identifier and the identifiers of the
/// steps that have to come first.
#[derive(Debug)]
pub struct Node {
    /// Identifier of the step.
    pub id: String,
    /// Identifiers of the steps that it depends on.
    pub dependencies: Vec<String>,
}

/// The identifiers and dependencies of a list of steps.
pub open spec fn graph_of(nodes: Seq<Node>) -> Seq<(Seq<char>, Seq<Seq<char>>)> {
    nodes.map_values(|node: Node| (node.id@, texts(node.dependencies@)))
}

/// The identifiers of a list of steps, in the order of the list.
pub open spec fn ids(graph: Seq<(Seq<char>, Seq<Seq<char>>)>) -> Seq<Seq<char>> {
    graph.map_values(|node: (Seq<char>, Seq<Seq<char>>)| node.0)
}

/// Whether a step of that identifier exists.
pub open spec fn is_step(graph: Seq<(Seq<char>, Seq<Seq<char>>)>, id: Seq<char>) -> bool {
    ids(graph).contains(id)
}

/// What the step of that identifier depends on.
pub open spec fn dependencies_of(
    graph: Seq<(Seq<char>, Seq<Seq<char>>)>,
    id: Seq<char>,
) -> Seq<Seq<char>> {
    graph[ids(graph).index_of(id)].1
}

/// Whether one step directly depends on another.
pub open spec fn depends(
    graph: Seq<(Seq<char>, Seq<Seq<char>>)>,
    step: Seq<char>,
    dependency: Seq<char>,
) -> bool {
    is_step(graph, step) && dependencies_of(graph, step).contains(dependency)
}

/// Every dependency of every step is a step.
pub open spec fn is_closed(graph: Seq<(Seq<char>, Seq<Seq<char>>)>) -> bool {
    forall|i: int, j: int|
        0 <= i < graph.len() && 0 <= j < graph[i].1.len() ==> is_step(graph, #[trigger] graph[i].1[j])
}

/// A list of steps of which each one directly depends on the next.
pub open spec fn is_walk(
    graph: Seq<(Seq<char>, Seq<Seq<char>>)>,
    walk: Seq<Seq<char>>,
) -> bool {
    forall|i: int| 0 <= i < walk.len() - 1 ==> depends(graph, #[trigger] walk[i], walk[i + 1])
}

/// Whether a step depends on itself, directly or through other steps.
pub open spec fn on_cycle(graph: Seq<(Seq<char>, Seq<Seq<char>>)>, id: Seq<char>) -> bool {
    exists|walk: Seq<Seq<char>>|
        #![trigger is_walk(graph, walk)]
        is_walk(graph, walk) && walk.len() >= 2 && walk[0] == id && walk.last() == id
}

/// An order in which each step of the graph stands once, behind everything
/// that it depends on.
pub open spec fn is_topological(
    graph: Seq<(Seq<char>, Seq<Seq<char>>)>,
    order: Seq<Seq<char>>,
) -> bool {
    &&& order.no_duplicates()
    &&& same_members(order, ids(graph))
    &&& respects_dependencies(graph, order)
}

/// Each step of the list stands behind everything that it depends on.
pub open spec fn respects_dependencies(
    graph: Seq<(Seq<char>, Seq<Seq<char>>)>,
    order: Seq<Seq<char>>,
) -> bool {
    forall|k: int, d: Seq<char>|
        0 <= k < order.len() && #[trigger] depends(graph, order[k], d) ==> order.take(k).contains(d)
}

/// Depth-first traversal. The steps of `todo` are taken up one after the other;
/// a step is added to `order` once everything that it depends on is there, with
/// dependencies taken in sorted order. `path` holds the steps that wait for the
/// one at hand: meeting one of them again is a cycle, which is reported by the
/// step that was met.
pub open spec fn traverse(
    graph: Seq<(Seq<char>, Seq<Seq<char>>)>,
    todo: Seq<Seq<char>>,
    path: Seq<Seq<char>>,
    order: Seq<Seq<char>>,
) -> Result<Seq<Seq<char>>, Seq<char>>
    decreases graph.len() - path.len(), todo.len(),
{
    if todo.len() == 0 {
        Ok(order)
    } else if order.contains(todo[0]) {
        traverse(graph, todo.drop_first(), path, order)
    } else if path.contains(todo[0]) || path.len() >= graph.len() {
        Err(todo[0])
    } else {
        match traverse(
            graph,
            sorted_unique(dependencies_of(graph, todo[0])),
            path.push(todo[0]),
            order,
        ) {
            Ok(extended) => traverse(graph, todo.drop_first(), path, extended.push(todo[0])),
            Err(id) => Err(id),
        }
    }
}

/// The order of all steps of a graph, or a step that is on a cycle.
pub open spec fn step_order(
    graph: Seq<(Seq<char>, Seq<Seq<char>>)>,
) -> Result<Seq<Seq<char>>, Seq<char>> {
    traverse(graph, ids(graph), Seq::empty(), Seq::empty())
}

spec fn all_steps(graph: Seq<(Seq<char>, Seq<Seq<char>>)>, list: Seq<Seq<char>>) -> bool {
    forall|i: int| 0 <= i < list.len() ==> is_step(graph, #[trigger] list[i])
}

/// What holds of the traversal's arguments at every call.
spec fn traversal_state(
    graph: Seq<(Seq<char>, Seq<Seq<char>>)>,
    todo: Seq<Seq<char>>,
    path: Seq<Seq<char>>,
    order: Seq<Seq<char>>,
) -> bool {
    &&& ids(graph).no_duplicates()
    &&& is_closed(graph)
    &&& all_steps(graph, todo)
    &&& all_steps(graph, path)
    &&& all_steps(graph, order)
    &&& path.no_duplicates()
    &&& order.no_duplicates()
    &&& is_walk(graph, path)
    &&& (path.len() > 0 ==> forall|i: int|
        0 <= i < todo.len() ==> depends(graph, path.last(), #[trigger] todo[i]))
    &&& respects_dependencies(graph, order)
    &&& forall|i: int| 0 <= i < path.len() ==> !order.contains(#[trigger] path[i])
}

proof fn lemma_distinct_steps_fit(graph: Seq<(Seq<char>, Seq<Seq<char>>)>, list: Seq<Seq<char>>)
    requires
        list.no_duplicates(),
        all_steps(graph, list),
    ensures
        list.len() <= graph.len(),
{
    list.unique_seq_to_set();
    ids(graph).lemma_cardinality_of_set();
    vstd::seq_lib::seq_to_set_is_finite(ids(graph));
    assert(list.to_set().subset_of(ids(graph).to_set())) by {
        assert forall|x: Seq<char>| list.to_set().contains(x) implies ids(graph).to_set().contains(
            x,
        ) by {
            let i = choose|i: int| 0 <= i < list.len() && list[i] == x;
            assert(is_step(graph, list[i]));
        }
    }
    vstd::set_lib::lemma_len_subset(list.to_set(), ids(graph).to_set());
}

proof fn lemma_dependencies_are_steps(
    graph: Seq<(Seq<char>, Seq<Seq<char>>)>,
    id: Seq<char>,
)
    requires
        is_closed(graph),
        is_step(graph, id),
    ensures
        all_steps(graph, sorted_unique(dependencies_of(graph, id))),
        forall|i: int|
            #![trigger sorted_unique(dependencies_of(graph, id))[i]]
            0 <= i < sorted_unique(dependencies_of(graph, id)).len() ==> depends(
                graph,
                id,
                sorted_unique(dependencies_of(graph, id))[i],
            ),
        forall|d: Seq<char>| #[trigger]
            depends(graph, id, d) ==> sorted_unique(dependencies_of(graph, id)).contains(d),
{
    let deps = dependencies_of(graph, id);
    let sorted = sorted_unique(deps);
    sorted_unique_is_sorted(deps);
    let at = ids(graph).index_of(id);
    assert(0 <= at < graph.len() && graph[at].1 == deps);
    assert forall|i: int| 0 <= i < sorted.len() implies is_step(graph, #[trigger] sorted[i]) && depends(
        graph,
        id,
        sorted[i],
    ) by {
        assert(sorted.contains(sorted[i]));
        assert(deps.contains(sorted[i]));
        let j = choose|j: int| 0 <= j < deps.len() && deps[j] == sorted[i];
        assert(is_step(graph, graph[at].1[j]));
    }
    assert forall|d: Seq<char>| #[trigger] depends(graph, id, d) implies sorted.contains(d) by {
        assert(deps.contains(d));
    }
}

/// The traversal can descend into the first open step.
proof fn lemma_descend(
    graph: Seq<(Seq<char>, Seq<Seq<char>>)>,
    todo: Seq<Seq<char>>,
    path: Seq<Seq<char>>,
    order: Seq<Seq<char>>,
)
    requires
        traversal_state(graph, todo, path, order),
        todo.len() > 0,
        !order.contains(todo[0]),
        !path.contains(todo[0]),
    ensures
        path.len() < graph.len(),
        traversal_state(
            graph,
            sorted_unique(dependencies_of(graph, todo[0])),
            path.push(todo[0]),
            order,
        ),
{
    let id = todo[0];
    let longer = path.push(id);
    assert(is_step(graph, todo[0]));
    assert(all_steps(graph, longer));
    assert(longer.no_duplicates());
    lemma_distinct_steps_fit(graph, longer);
    lemma_dependencies_are_steps(graph, id);
    assert(longer.last() == id);
    assert forall|i: int| 0 <= i < longer.len() - 1 implies depends(
        graph,
        #[trigger] longer[i],
        longer[i + 1],
    ) by {
        if i + 1 == path.len() {
            assert(depends(graph, path.last(), todo[0]));
        } else {
            assert(longer[i] == path[i] && longer[i + 1] == path[i + 1]);
        }
    }
    assert forall|i: int| 0 <= i < longer.len() implies !order.contains(#[trigger] longer[i]) by {
        if i < path.len() {
            assert(longer[i] == path[i]);
        }
    }
}

/// Once its dependencies are ordered a step joins the order.
proof fn lemma_ascend(
    graph: Seq<(Seq<char>, Seq<Seq<char>>)>,
    todo: Seq<Seq<char>>,
    path: Seq<Seq<char>>,
    order: Seq<Seq<char>>,
    extended: Seq<Seq<char>>,
)
    requires
        traversal_state(graph, todo, path, order),
        todo.len() > 0,
        traversal_state(
            graph,
            sorted_unique(dependencies_of(graph, todo[0])),
            path.push(todo[0]),
            extended,
        ),
        forall|i: int|
            #![trigger sorted_unique(dependencies_of(graph, todo[0]))[i]]
            0 <= i < sorted_unique(dependencies_of(graph, todo[0])).len() ==> extended.contains(
                sorted_unique(dependencies_of(graph, todo[0]))[i],
            ),
    ensures
        traversal_state(graph, todo.drop_first(), path, extended.push(todo[0])),
{
    let id = todo[0];
    let longer = path.push(id);
    let deps = sorted_unique(dependencies_of(graph, id));
    let next = extended.push(id);
    lemma_dependencies_are_steps(graph, id);
    let rest = todo.drop_first();
    assert(is_step(graph, todo[0]));
    assert forall|i: int| 0 <= i < rest.len() implies is_step(graph, #[trigger] rest[i]) && (path.len()
        > 0 ==> depends(graph, path.last(), rest[i])) by {
        assert(rest[i] == todo[i + 1]);
    }
    assert(!extended.contains(longer[path.len() as int]));
    assert(all_steps(graph, next));
    assert(next.no_duplicates());
    assert forall|k: int, d: Seq<char>|
        0 <= k < next.len() && #[trigger] depends(graph, next[k], d) implies next.take(k).contains(
        d,
    ) by {
        if k < extended.len() {
            assert(depends(graph, extended[k], d));
            assert(extended.take(k).contains(d));
            assert(next.take(k) =~= extended.take(k));
        } else {
            assert(deps.contains(d));
            let m = choose|m: int| 0 <= m < deps.len() && deps[m] == d;
            assert(extended.contains(deps[m]));
            assert(next.take(k) =~= extended);
        }
    }
    assert forall|i: int| 0 <= i < path.len() implies !next.contains(#[trigger] path[i]) by {
        assert(longer[i] == path[i]);
        assert(!extended.contains(longer[i]));
        if next.contains(path[i]) {
            let m = choose|m: int| 0 <= m < next.len() && next[m] == path[i];
            if m < extended.len() {
                assert(extended[m] == path[i]);
            }
        }
    }
}

proof fn lemma_traverse(
    graph: Seq<(Seq<char>, Seq<Seq<char>>)>,
    todo: Seq<Seq<char>>,
    path: Seq<Seq<char>>,
    order: Seq<Seq<char>>,
)
    requires
        traversal_state(graph, todo, path, order),
    ensures
        traverse(graph, todo, path, order) matches Ok(result) ==> {
            &&& order.is_prefix_of(result)
            &&& traversal_state(graph, todo, path, result)
            &&& forall|i: int| 0 <= i < todo.len() ==> result.contains(#[trigger] todo[i])
        },
        traverse(graph, todo, path, order) matches Err(id) ==> on_cycle(graph, id),
    decreases graph.len() - path.len(), todo.len(),
{
    if todo.len() == 0 {
        assert(order.is_prefix_of(order));
    } else {
        let id = todo[0];
        let rest = todo.drop_first();
        assert(is_step(graph, id));
        assert forall|i: int| 0 <= i < rest.len() implies is_step(graph, #[trigger] rest[i]) && (
        path.len() > 0 ==> depends(graph, path.last(), rest[i])) by {
            assert(rest[i] == todo[i + 1]);
        }
        if order.contains(id) {
            lemma_traverse(graph, rest, path, order);
            if let Ok(result) = traverse(graph, rest, path, order) {
                let k = choose|k: int| 0 <= k < order.len() && order[k] == id;
                assert(result[k] == id);
                assert forall|i: int| 0 <= i < todo.len() implies result.contains(
                    #[trigger] todo[i],
                ) by {
                    if i > 0 {
                        assert(todo[i] == rest[i - 1]);
                    }
                }
            }
        } else if path.contains(id) {
            let k = choose|k: int| 0 <= k < path.len() && path[k] == id;
            let walk = path.skip(k).push(id);
            assert(depends(graph, path.last(), todo[0]));
            assert forall|i: int| 0 <= i < walk.len() - 1 implies depends(
                graph,
                #[trigger] walk[i],
                walk[i + 1],
            ) by {
                assert(walk[i] == path[k + i]);
                if i + 1 < walk.len() - 1 {
                    assert(walk[i + 1] == path[k + i + 1]);
                }
            }
            assert(is_walk(graph, walk));
            assert(walk[0] == id && walk.last() == id);
        } else {
            lemma_descend(graph, todo, path, order);
            let longer = path.push(id);
            let deps = sorted_unique(dependencies_of(graph, id));
            lemma_traverse(graph, deps, longer, order);
            match traverse(graph, deps, longer, order) {
                Ok(extended) => {
                    let next = extended.push(id);
                    lemma_ascend(graph, todo, path, order, extended);
                    lemma_traverse(graph, rest, path, next);
                    if let Ok(result) = traverse(graph, rest, path, next) {
                        assert(next[extended.len() as int] == id);
                        assert(result[extended.len() as int] == id);
                        assert(order.is_prefix_of(result)) by {
                            assert(order =~= result.subrange(0, order.len() as int));
                        }
                        assert forall|i: int| 0 <= i < todo.len() implies result.contains(
                            #[trigger] todo[i],
                        ) by {
                            if i > 0 {
                                assert(todo[i] == rest[i - 1]);
                            }
                        }
                    }
                },
                Err(_) => {},
            }
        }
    }
}

/// Where the steps can be ordered the order is topological, and where the
/// traversal reports a step that step is on a cycle.
pub proof fn step_order_is_topological(graph: Seq<(Seq<char>, Seq<Seq<char>>)>)
    requires
        ids(graph).no_duplicates(),
        is_closed(graph),
    ensures
        step_order(graph) matches Ok(order) ==> is_topological(graph, order),
        step_order(graph) matches Err(id) ==> on_cycle(graph, id),
{
    let all = ids(graph);
    assert(all_steps(graph, all)) by {
        assert forall|i: int| 0 <= i < all.len() implies is_step(graph, #[trigger] all[i]) by {
            assert(all.contains(all[i]));
        }
    }
    lemma_traverse(graph, all, Seq::empty(), Seq::empty());
    if let Ok(order) = step_order(graph) {
        assert forall|x: Seq<char>| #[trigger] order.contains(x) <==> all.contains(x) by {
            if order.contains(x) {
                let i = choose|i: int| 0 <= i < order.len() && order[i] == x;
                assert(is_step(graph, order[i]));
            }
            if all.contains(x) {
                let i = choose|i: int| 0 <= i < all.len() && all[i] == x;
                assert(order.contains(all[i]));
            }
        }
    }
}

proof fn lemma_walk_goes_back(
    graph: Seq<(Seq<char>, Seq<Seq<char>>)>,
    order: Seq<Seq<char>>,
    walk: Seq<Seq<char>>,
    k: int,
)
    requires
        is_topological(graph, order),
        is_walk(graph, walk),
        0 <= k < order.len(),
        walk.len() >= 2,
        walk[0] == order[k],
    ensures
        order.take(k).contains(walk.last()),
    decreases walk.len(),
{
    assert(depends(graph, walk[0], walk[1]));
    assert(depends(graph, order[k], walk[1]));
    assert(order.take(k).contains(walk[1]));
    let j = choose|j: int| 0 <= j < k && order.take(k)[j] == walk[1];
    assert(order[j] == walk[1]);
    if walk.len() == 2 {
        assert(walk.last() == walk[1]);
    } else {
        let tail = walk.drop_first();
        assert forall|i: int| 0 <= i < tail.len() - 1 implies depends(
            graph,
            #[trigger] tail[i],
            tail[i + 1],
        ) by {
            assert(tail[i] == walk[i + 1]);
            assert(tail[i + 1] == walk[i + 2]);
        }
        lemma_walk_goes_back(graph, order, tail, j);
        let m = choose|m: int| 0 <= m < j && order.take(j)[m] == walk.last();
        assert(order.take(k)[m] == walk.last());
    }
}

/// The steps can be ordered exactly where none of them is on a cycle.
pub proof fn steps_are_ordered_unless_one_is_on_a_cycle(graph: Seq<(Seq<char>, Seq<Seq<char>>)>)
    requires
        ids(graph).no_duplicates(),
        is_closed(graph),
    ensures
        step_order(graph) is Ok <==> forall|id: Seq<char>| !#[trigger] on_cycle(graph, id),
{
    step_order_is_topological(graph);
    if let Ok(order) = step_order(graph) {
        assert forall|id: Seq<char>| !#[trigger] on_cycle(graph, id) by {
            if on_cycle(graph, id) {
                let walk = choose|walk: Seq<Seq<char>>|
                    #![trigger is_walk(graph, walk)]
                    is_walk(graph, walk) && walk.len() >= 2 && walk[0] == id && walk.last() == id;
                assert(depends(graph, walk[0], walk[1]));
                assert(ids(graph).contains(id));
                assert(order.contains(id));
                let k = choose|k: int| 0 <= k < order.len() && order[k] == id;
                lemma_walk_goes_back(graph, order, walk, k);
                let m = choose|m: int| 0 <= m < k && order.take(k)[m] == id;
                assert(order[m] == order[k]);
            }
        }
    }
}

/// Position `i` is the first at which an identifier occurs again.
pub open spec fn is_first_repeat(list: Seq<Seq<char>>, i: int) -> bool {
    &&& 0 <= i < list.len()
    &&& list.take(i).no_duplicates()
    &&& list.take(i).contains(list[i])
}

/// Dependency `j` of step `i` is the first, in the order of the list, that is
/// no step of the graph.
pub open spec fn is_first_missing(
    graph: Seq<(Seq<char>, Seq<Seq<char>>)>,
    i: int,
    j: int,
) -> bool {
    &&& 0 <= i < graph.len()
    &&& 0 <= j < graph[i].1.len()
    &&& !is_step(graph, graph[i].1[j])
    &&& forall|a: int, b: int|
        0 <= a < graph.len() && 0 <= b < graph[a].1.len() && (a < i || (a == i && b < j)) ==> is_step(
            graph,
            #[trigger] graph[a].1[b],
        )
}

/// Whether a list holds a text.
pub fn contains_text(list: &Vec<String>, text: &str) -> (found: bool)
    ensures
        found == texts(list@).contains(text@),
{
    let mut i: usize = 0;
    while i < list.len()
        invariant
            i <= list@.len(),
            forall|k: int| 0 <= k < i ==> texts(list@)[k] != text@,
        decreases list.len() - i,
    {
        if same(list[i].as_str(), text) {
            assert(texts(list@)[i as int] == text@);
            return true;
        }
        i = i + 1;
    }
    false
}

fn position_of(nodes: &Vec<Node>, id: &str) -> (position: Option<usize>)
    ensures
        match position {
            Some(i) => i < nodes@.len() && nodes@[i as int].id@ == id@ && !ids(
                graph_of(nodes@),
            ).take(i as int).contains(id@),
            None => !is_step(graph_of(nodes@), id@),
        },
{
    let ghost all = ids(graph_of(nodes@));
    let mut i: usize = 0;
    while i < nodes.len()
        invariant
            i <= nodes@.len(),
            all == ids(graph_of(nodes@)),
            forall|k: int| 0 <= k < i ==> all[k] != id@,
        decreases nodes.len() - i,
    {
        assert(all[i as int] == nodes@[i as int].id@);
        if same(nodes[i].id.as_str(), id) {
            return Some(i);
        }
        i = i + 1;
    }
    None
}

/// The first step whose identifier an earlier step has as well.
pub fn first_repeat(nodes: &Vec<Node>) -> (position: Option<usize>)
    ensures
        match position {
            Some(i) => is_first_repeat(ids(graph_of(nodes@)), i as int),
            None => ids(graph_of(nodes@)).no_duplicates(),
        },
{
    let ghost all = ids(graph_of(nodes@));
    let mut i: usize = 0;
    while i < nodes.len()
        invariant
            i <= nodes@.len(),
            all == ids(graph_of(nodes@)),
            all.take(i as int).no_duplicates(),
        decreases nodes.len() - i,
    {
        assert(all[i as int] == nodes@[i as int].id@);
        if let Some(k) = position_of(nodes, nodes[i].id.as_str()) {
            assert(all[k as int] == all[i as int]);
            if k < i {
                assert(all.take(i as int)[k as int] == all[i as int]);
                return Some(i);
            }
            assert(all.take(i + 1).no_duplicates()) by {
                let next = all.take(i + 1);
                assert forall|a: int, b: int| 0 <= a < b < next.len() implies #[trigger] next[a]
                    != #[trigger] next[b] by {
                    if b < i {
                        assert(all.take(i as int)[a] != all.take(i as int)[b]);
                    } else {
                        assert(all.take(k as int)[a] == all[a]);
                    }
                }
            }
        } else {
            assert(all.contains(all[i as int]));
        }
        i = i + 1;
    }
    assert(all.take(i as int) =~= all);
    None
}

/// The first dependency that is no step, by the position of its step and its
/// own position there.
pub fn first_missing(nodes: &Vec<Node>) -> (position: Option<(usize, usize)>)
    ensures
        match position {
            Some((i, j)) => is_first_missing(graph_of(nodes@), i as int, j as int),
            None => is_closed(graph_of(nodes@)),
        },
{
    let ghost graph = graph_of(nodes@);
    let mut i: usize = 0;
    while i < nodes.len()
        invariant
            i <= nodes@.len(),
            graph == graph_of(nodes@),
            forall|a: int, b: int|
                0 <= a < i && 0 <= b < graph[a].1.len() ==> is_step(graph, #[trigger] graph[a].1[b]),
        decreases nodes.len() - i,
    {
        let mut j: usize = 0;
        while j < nodes[i].dependencies.len()
            invariant
                i < nodes@.len(),
                j <= nodes@[i as int].dependencies@.len(),
                graph == graph_of(nodes@),
                forall|a: int, b: int|
                    0 <= a < i && 0 <= b < graph[a].1.len() ==> is_step(
                        graph,
                        #[trigger] graph[a].1[b],
                    ),
                forall|b: int| 0 <= b < j ==> is_step(graph, #[trigger] graph[i as int].1[b]),
            decreases nodes@[i as int].dependencies@.len() - j,
        {
            assert(graph[i as int].1[j as int] == nodes@[i as int].dependencies@[j as int]@);
            match position_of(nodes, nodes[i].dependencies[j].as_str()) {
                Some(k) => {
                    assert(ids(graph)[k as int] == graph[i as int].1[j as int]);
                },
                None => {
                    return Some((i, j));
                },
            }
            j = j + 1;
        }
        i = i + 1;
    }
    None
}

fn traverse_nodes(
    nodes: &Vec<Node>,
    todo: &Vec<String>,
    path: &mut Vec<String>,
    order: &mut Vec<String>,
) -> (result: Result<(), String>)
    requires
        traversal_state(
            graph_of(nodes@),
            texts(todo@),
            texts(old(path)@),
            texts(old(order)@),
        ),
    ensures
        texts(final(path)@) == texts(old(path)@) || result is Err,
        match result {
            Ok(_) => traverse(
                graph_of(nodes@),
                texts(todo@),
                texts(old(path)@),
                texts(old(order)@),
            ) == Ok::<Seq<Seq<char>>, Seq<char>>(texts(final(order)@)),
            Err(id) => traverse(
                graph_of(nodes@),
                texts(todo@),
                texts(old(path)@),
                texts(old(order)@),
            ) == Err::<Seq<Seq<char>>, Seq<char>>(id@),
        },
    decreases graph_of(nodes@).len() - texts(old(path)@).len(),
{
    let ghost graph = graph_of(nodes@);
    let ghost all = texts(todo@);
    let ghost path0 = texts(path@);
    let ghost outcome = traverse(graph, all, path0, texts(order@));
    let mut i: usize = 0;
    assert(all.skip(0) =~= all);
    while i < todo.len()
        invariant
            i <= todo@.len(),
            graph == graph_of(nodes@),
            all == texts(todo@),
            path0 == texts(old(path)@),
            texts(path@) == path0,
            traversal_state(graph, all.skip(i as int), path0, texts(order@)),
            outcome == traverse(graph, all.skip(i as int), path0, texts(order@)),
            outcome == traverse(graph, all, path0, texts(old(order)@)),
        decreases todo.len() - i,
    {
        let ghost here = all.skip(i as int);
        let ghost order0 = texts(order@);
        let id = todo[i].as_str();
        assert(here[0] == id@);
        assert(here.drop_first() =~= all.skip(i + 1));
        assert(is_step(graph, here[0]));
        proof {
            assert forall|k: int| 0 <= k < all.skip(i + 1).len() implies is_step(
                graph,
                #[trigger] all.skip(i + 1)[k],
            ) && (path0.len() > 0 ==> depends(graph, path0.last(), all.skip(i + 1)[k])) by {
                assert(all.skip(i + 1)[k] == here[k + 1]);
            }
        }
        if !contains_text(order, id) {
            if contains_text(path, id) {
                return Err(id.to_owned());
            }
            match position_of(nodes, id) {
                Some(at) => {
                    proof {
                        assert(ids(graph)[at as int] == id@);
                        assert(ids(graph).index_of(id@) == at);
                        assert(dependencies_of(graph, id@) == texts(
                            nodes@[at as int].dependencies@,
                        ));
                        lemma_descend(graph, here, path0, order0);
                    }
                    let dependencies = sort_and_dedup(&nodes[at].dependencies);
                    push_text(path, id);
                    match traverse_nodes(nodes, &dependencies, path, order) {
                        Ok(_) => {
                            proof {
                                lemma_traverse(graph, texts(dependencies@), path0.push(id@), order0);
                                lemma_ascend(graph, here, path0, order0, texts(order@));
                            }
                            let ghost full = path@;
                            path.pop();
                            proof {
                                assert(texts(full) == path0.push(id@));
                                assert(texts(full).len() == full.len());
                                assert forall|k: int| 0 <= k < path0.len() implies texts(path@)[k]
                                    == #[trigger] path0[k] by {
                                    assert(texts(full)[k] == full[k]@);
                                    assert(texts(full)[k] == path0[k]);
                                }
                                assert(texts(path@) =~= path0);
                            }
                            push_text(order, id);
                        },
                        Err(cycle) => {
                            return Err(cycle);
                        },
                    }
                },
                None => {
                    assert(false);
                },
            }
        }
        i = i + 1;
    }
    assert(all.skip(i as int) =~= Seq::empty());
    Ok(())
}

/// Orders the steps so that each one follows what it depends on, or names a
/// step on a cycle.
pub fn order_steps(nodes: &Vec<Node>) -> (result: Result<Vec<String>, String>)
    requires
        ids(graph_of(nodes@)).no_duplicates(),
        is_closed(graph_of(nodes@)),
    ensures
        match result {
            Ok(order) => step_order(graph_of(nodes@)) == Ok::<Seq<Seq<char>>, Seq<char>>(
                texts(order@),
            ) && is_topological(graph_of(nodes@), texts(order@)),
            Err(id) => step_order(graph_of(nodes@)) == Err::<Seq<Seq<char>>, Seq<char>>(id@)
                && on_cycle(graph_of(nodes@), id@),
        },
{
    let ghost graph = graph_of(nodes@);
    let mut todo: Vec<String> = Vec::new();
    let mut i: usize = 0;
    assert(texts(todo@) =~= ids(graph).take(0));
    while i < nodes.len()
        invariant
            i <= nodes@.len(),
            graph == graph_of(nodes@),
            texts(todo@) == ids(graph).take(i as int),
        decreases nodes.len() - i,
    {
        push_text(&mut todo, nodes[i].id.as_str());
        assert(ids(graph).take(i + 1) =~= ids(graph).take(i as int).push(nodes@[i as int].id@));
        i = i + 1;
    }
    assert(ids(graph).take(i as int) =~= ids(graph));
    let mut path: Vec<String> = Vec::new();
    let mut order: Vec<String> = Vec::new();
    proof {
        step_order_is_topological(graph);
        assert(texts(path@) =~= Seq::empty());
        assert(texts(order@) =~= Seq::empty());
        let all = ids(graph);
        assert forall|k: int| 0 <= k < all.len() implies is_step(graph, #[trigger] all[k]) by {
            assert(all.contains(all[k]));
        }
    }
    match traverse_nodes(nodes, &todo, &mut path, &mut order) {
        Ok(_) => Ok(order),
        Err(id) => Err(id),
    }
}

/// A step comes after everything that it depends on, and every step comes, once.
pub proof fn dependencies_come_first(
    graph: Seq<(Seq<char>, Seq<Seq<char>>)>,
    order: Seq<Seq<char>>,
    at: int,
    node: int,
    dependency: int,
)
    requires
        ids(graph).no_duplicates(),
        step_order(graph) == Ok::<Seq<Seq<char>>, Seq<char>>(order),
        is_closed(graph),
        0 <= node < graph.len(),
        0 <= dependency < graph[node].1.len(),
        0 <= at < order.len(),
        order[at] == graph[node].0,
    ensures
        exists|before: int|
            0 <= before < at && #[trigger] order[before] == graph[node].1[dependency],
        order.contains(graph[node].0),
        order.no_duplicates(),
{
    step_order_is_topological(graph);
    let id = graph[node].0;
    assert(ids(graph)[node] == id);
    assert(ids(graph).contains(id));
    assert(ids(graph).index_of(id) == node);
    let wanted = graph[node].1[dependency];
    assert(dependencies_of(graph, id) == graph[node].1);
    assert(graph[node].1.contains(wanted));
    assert(depends(graph, order[at], wanted));
    assert(order.take(at).contains(wanted));
    let before = order.take(at).index_of(wanted);
    assert(order[before] == wanted);
}

/// Every step is in the order, and nothing else is.
pub proof fn every_step_is_ordered(
    graph: Seq<(Seq<char>, Seq<Seq<char>>)>,
    order: Seq<Seq<char>>,
    id: Seq<char>,
)
    requires
        ids(graph).no_duplicates(),
        is_closed(graph),
        step_order(graph) == Ok::<Seq<Seq<char>>, Seq<char>>(order),
    ensures
        order.contains(id) <==> exists|node: int|
            0 <= node < graph.len() && (#[trigger] graph[node]).0 == id,
{
    step_order_is_topological(graph);
    if exists|node: int| 0 <= node < graph.len() && (#[trigger] graph[node]).0 == id {
        let node = choose|node: int| 0 <= node < graph.len() && (#[trigger] graph[node]).0 == id;
        assert(ids(graph)[node] == id);
        assert(ids(graph).contains(id));
    }
    if ids(graph).contains(id) {
        let node = ids(graph).index_of(id);
        assert(graph[node].0 == id);
    }
}

/// A step that depends on itself is never ordered.
pub proof fn steps_cannot_depend_on_themselves(
    graph: Seq<(Seq<char>, Seq<Seq<char>>)>,
    node: int,
)
    requires
        ids(graph).no_duplicates(),
        is_closed(graph),
        0 <= node < graph.len(),
        graph[node].1.contains(graph[node].0),
    ensures
        step_order(graph) is Err,
{
    let id = graph[node].0;
    assert(ids(graph)[node] == id);
    assert(ids(graph).contains(id));
    assert(ids(graph).index_of(id) == node);
    let walk = seq![id, id];
    assert(depends(graph, id, id));
    assert(is_walk(graph, walk));
    assert(on_cycle(graph, id));
    steps_are_ordered_unless_one_is_on_a_cycle(graph);
}

} // verus!
