//! Which parts hang together: subtrees of a craft and the groups of parts that
//! share propellant.
use std::collections::BTreeSet;
use vstd::prelude::*;
use vstd::set_lib::*;

verus! {

/// A part as a node of the craft's tree.
#[derive(Debug, Clone, Copy, PartialEq, Eq, Structural)]
pub struct Node {
    pub id: u64,
    pub parent: Option<u64>,
    /// Whether propellant passes through this part.
    pub open: bool,
}

/// Whether each identifier on the path is joined to the next.
pub open spec fn is_path(edge: spec_fn(u64, u64) -> bool, path: Seq<u64>) -> bool {
    &&& path.len() > 0
    &&& forall|i: int| 0 <= i < path.len() - 1 ==> edge(#[trigger] path[i], path[i + 1])
}

/// Whether a path leads from `from` to `to`.
pub open spec fn reaches(edge: spec_fn(u64, u64) -> bool, from: u64, to: u64) -> bool {
    exists|path: Seq<u64>| #[trigger]
        is_path(edge, path) && path[0] == from && path.last() == to
}

/// Joins a part to the parts attached to it.
pub open spec fn child_edge(nodes: Seq<Node>) -> spec_fn(u64, u64) -> bool {
    |a: u64, b: u64| has_child(nodes, a, b)
}

/// Whether some part with the identifier `b` is attached to `a`.
pub open spec fn has_child(nodes: Seq<Node>, a: u64, b: u64) -> bool {
    exists|i: int|
        0 <= i < nodes.len() && (#[trigger] nodes[i]).id == b && nodes[i].parent == Some(a)
}

/// Joins a part to the open parts on either end of an attachment.
pub open spec fn feed_edge(nodes: Seq<Node>) -> spec_fn(u64, u64) -> bool {
    |a: u64, b: u64| feeds(nodes, a, b)
}

/// Whether propellant passes from `a` on to `b`.
pub open spec fn feeds(nodes: Seq<Node>, a: u64, b: u64) -> bool {
    exists|i: int|
        0 <= i < nodes.len() && (#[trigger] nodes[i]).id == b && nodes[i].open && (
        nodes[i].parent == Some(a) || has_child(nodes, b, a))
}

/// Whether some open part has this identifier.
pub open spec fn is_open(nodes: Seq<Node>, id: u64) -> bool {
    exists|i: int| 0 <= i < nodes.len() && (#[trigger] nodes[i]).id == id && nodes[i].open
}

/// The identifiers of the subtree under `root`, `root` included.
pub open spec fn subtree(nodes: Seq<Node>, root: u64) -> Set<u64> {
    Set::new(|id: u64| reaches(child_edge(nodes), root, id))
}

/// The identifiers of the parts that share propellant with `start`.
pub open spec fn network(nodes: Seq<Node>, start: u64) -> Set<u64> {
    Set::new(|id: u64| is_open(nodes, start) && reaches(feed_edge(nodes), start, id))
}

pub proof fn lemma_reaches_self(edge: spec_fn(u64, u64) -> bool, a: u64)
    ensures
        reaches(edge, a, a),
{
    let path = seq![a];
    assert(is_path(edge, path) && path[0] == a && path.last() == a);
}

proof fn lemma_reaches_step(edge: spec_fn(u64, u64) -> bool, a: u64, b: u64, c: u64)
    requires
        reaches(edge, a, b),
        edge(b, c),
    ensures
        reaches(edge, a, c),
{
    let path = choose|path: Seq<u64>| #[trigger]
        is_path(edge, path) && path[0] == a && path.last() == b;
    let longer = path.push(c);
    assert forall|i: int| 0 <= i < longer.len() - 1 implies edge(
        #[trigger] longer[i],
        longer[i + 1],
    ) by {
        if i < path.len() - 1 {
            assert(edge(path[i], path[i + 1]));
        }
    }
    assert(is_path(edge, longer) && longer[0] == a && longer.last() == c);
}

/// A set that holds the start and that no edge leaves holds all that is reached.
proof fn lemma_closed_holds_reached(
    edge: spec_fn(u64, u64) -> bool,
    held: Set<u64>,
    a: u64,
    b: u64,
)
    requires
        held.contains(a),
        forall|x: u64, y: u64| held.contains(x) && #[trigger] edge(x, y) ==> held.contains(y),
        reaches(edge, a, b),
    ensures
        held.contains(b),
{
    let path = choose|path: Seq<u64>| #[trigger]
        is_path(edge, path) && path[0] == a && path.last() == b;
    lemma_closed_holds_path(edge, held, path, path.len() - 1);
}

proof fn lemma_closed_holds_path(
    edge: spec_fn(u64, u64) -> bool,
    held: Set<u64>,
    path: Seq<u64>,
    n: int,
)
    requires
        is_path(edge, path),
        held.contains(path[0]),
        forall|x: u64, y: u64| held.contains(x) && #[trigger] edge(x, y) ==> held.contains(y),
        0 <= n < path.len(),
    ensures
        held.contains(path[n]),
    decreases n,
{
    if n > 0 {
        lemma_closed_holds_path(edge, held, path, n - 1);
        assert(edge(path[n - 1], path[n - 1 + 1]));
    }
}

/// All identifiers that occur, and one more.
spec fn known(nodes: Seq<Node>, root: u64) -> Seq<u64> {
    Seq::new(nodes.len(), |i: int| nodes[i].id).push(root)
}

proof fn lemma_known_bounds(nodes: Seq<Node>, root: u64, held: Set<u64>)
    requires
        held.finite(),
        forall|x: u64| held.contains(x) ==> known(nodes, root).contains(x),
    ensures
        held.len() <= nodes.len() + 1,
{
    let all = known(nodes, root);
    vstd::seq_lib::seq_to_set_is_finite(all);
    all.lemma_cardinality_of_set();
    assert(held.subset_of(all.to_set()));
    lemma_len_subset(held, all.to_set());
}

proof fn lemma_known_root(nodes: Seq<Node>, root: u64)
    ensures
        known(nodes, root).contains(root),
{
    assert(known(nodes, root).last() == root);
}

proof fn lemma_known_id(nodes: Seq<Node>, root: u64, i: int)
    requires
        0 <= i < nodes.len(),
    ensures
        known(nodes, root).contains(nodes[i].id),
{
    assert(known(nodes, root)[i] == nodes[i].id);
}

/// The identifiers of the subtree under `root`, `root` included.
pub fn descend(nodes: &Vec<Node>, root: u64) -> (result: BTreeSet<u64>)
    ensures
        result@ == subtree(nodes@, root),
        result@.finite(),
{
    let ghost edge = child_edge(nodes@);
    let mut result: BTreeSet<u64> = BTreeSet::new();
    result.insert(root);
    proof {
        lemma_reaches_self(edge, root);
        lemma_known_root(nodes@, root);
        lemma_known_bounds(nodes@, root, result@);
    }
    loop
        invariant
            edge == child_edge(nodes@),
            result@.contains(root),
            result@.finite(),
            forall|x: u64| result@.contains(x) ==> #[trigger] reaches(edge, root, x),
            forall|x: u64| result@.contains(x) ==> #[trigger] known(nodes@, root).contains(x),
            result@.len() <= nodes@.len() + 1,
        decreases nodes@.len() + 1 - result@.len(),
    {
        let before: usize = result.len();
        let ghost start = result@;
        let mut i: usize = 0;
        while i < nodes.len()
            invariant
                edge == child_edge(nodes@),
                i <= nodes@.len(),
                start.finite(),
                start.subset_of(result@),
                result@.contains(root),
                result@.finite(),
                forall|x: u64| result@.contains(x) ==> #[trigger] reaches(edge, root, x),
                forall|x: u64| result@.contains(x) ==> #[trigger] known(nodes@, root).contains(x),
                result@ == start ==> forall|j: int|
                    0 <= j < i && (#[trigger] nodes@[j]).parent is Some && start.contains(
                        nodes@[j].parent->0,
                    ) ==> start.contains(nodes@[j].id),
            decreases nodes@.len() - i,
        {
            let node = nodes[i];
            if let Some(parent) = node.parent {
                if result.contains(&parent) {
                    proof {
                        assert(nodes@[i as int].parent == Some(parent));
                        assert(has_child(nodes@, parent, node.id));
                        lemma_reaches_step(edge, root, parent, node.id);
                        lemma_known_id(nodes@, root, i as int);
                    }
                    let ghost prior = result@;
                    result.insert(node.id);
                    assert(result@ == start ==> prior =~= start);
                }
            }
            i = i + 1;
        }
        proof {
            lemma_len_subset(start, result@);
            lemma_known_bounds(nodes@, root, result@);
        }
        if result.len() == before {
            proof {
                lemma_subset_equality(start, result@);
                assert forall|x: u64, y: u64|
                    result@.contains(x) && #[trigger] edge(x, y) implies result@.contains(y) by {
                    assert(has_child(nodes@, x, y));
                }
                assert forall|x: u64| subtree(nodes@, root).contains(x) implies result@.contains(
                    x,
                ) by {
                    lemma_closed_holds_reached(edge, result@, root, x);
                }
                assert(result@ =~= subtree(nodes@, root));
            }
            return result;
        }
    }
}

/// The identifiers of the parts that share propellant with `start`; none
/// unless `start` is open itself.
pub fn feed_group(nodes: &Vec<Node>, start: u64) -> (result: BTreeSet<u64>)
    ensures
        result@ == network(nodes@, start),
        result@.finite(),
{
    let mut found: bool = false;
    let mut k: usize = 0;
    while k < nodes.len()
        invariant
            k <= nodes@.len(),
            found <==> exists|i: int|
                0 <= i < k && (#[trigger] nodes@[i]).id == start && nodes@[i].open,
        decreases nodes@.len() - k,
    {
        if nodes[k].id == start && nodes[k].open {
            found = true;
        }
        k = k + 1;
    }
    let mut result: BTreeSet<u64> = BTreeSet::new();
    if !found {
        assert(result@ =~= network(nodes@, start));
        return result;
    }
    let ghost edge = feed_edge(nodes@);
    result.insert(start);
    proof {
        lemma_reaches_self(edge, start);
        lemma_known_root(nodes@, start);
        lemma_known_bounds(nodes@, start, result@);
    }
    loop
        invariant
            is_open(nodes@, start),
            edge == feed_edge(nodes@),
            result@.contains(start),
            result@.finite(),
            forall|x: u64| result@.contains(x) ==> #[trigger] reaches(edge, start, x),
            forall|x: u64| result@.contains(x) ==> #[trigger] known(nodes@, start).contains(x),
            result@.len() <= nodes@.len() + 1,
        decreases nodes@.len() + 1 - result@.len(),
    {
        let before: usize = result.len();
        let ghost earlier = result@;
        let mut i: usize = 0;
        while i < nodes.len()
            invariant
                edge == feed_edge(nodes@),
                i <= nodes@.len(),
                earlier.finite(),
                earlier.subset_of(result@),
                result@.contains(start),
                result@.finite(),
                forall|x: u64| result@.contains(x) ==> #[trigger] reaches(edge, start, x),
                forall|x: u64| result@.contains(x) ==> #[trigger] known(nodes@, start).contains(x),
                result@ == earlier ==> forall|j: int|
                    0 <= j < i && (#[trigger] nodes@[j]).open && touches(
                        nodes@,
                        earlier,
                        nodes@[j],
                    ) ==> earlier.contains(nodes@[j].id),
            decreases nodes@.len() - i,
        {
            let node = nodes[i];
            if node.open && !result.contains(&node.id) && connected(nodes, &result, node) {
                proof {
                    let x = choose|x: u64| result@.contains(x) && joins(nodes@, x, node);
                    assert(nodes@[i as int] == node);
                    assert(feeds(nodes@, x, node.id));
                    lemma_reaches_step(edge, start, x, node.id);
                    lemma_known_id(nodes@, start, i as int);
                }
                let ghost prior = result@;
                result.insert(node.id);
                assert(result@ == earlier ==> prior =~= earlier);
            }
            i = i + 1;
        }
        proof {
            lemma_len_subset(earlier, result@);
            lemma_known_bounds(nodes@, start, result@);
        }
        if result.len() == before {
            proof {
                lemma_subset_equality(earlier, result@);
                assert forall|x: u64, y: u64|
                    result@.contains(x) && #[trigger] edge(x, y) implies result@.contains(y) by {
                    assert(feeds(nodes@, x, y));
                    let j = choose|j: int|
                        0 <= j < nodes@.len() && (#[trigger] nodes@[j]).id == y && nodes@[j].open
                            && (nodes@[j].parent == Some(x) || has_child(nodes@, y, x));
                    assert(joins(nodes@, x, nodes@[j]));
                    assert(touches(nodes@, earlier, nodes@[j]));
                }
                assert forall|x: u64| network(nodes@, start).contains(x) implies result@.contains(
                    x,
                ) by {
                    lemma_closed_holds_reached(edge, result@, start, x);
                }
                assert(result@ =~= network(nodes@, start));
            }
            return result;
        }
    }
}

/// Whether an attachment lies between `x` and the part.
spec fn joins(nodes: Seq<Node>, x: u64, node: Node) -> bool {
    node.parent == Some(x) || has_child(nodes, node.id, x)
}

/// Whether an attachment lies between the part and one in the set.
spec fn touches(nodes: Seq<Node>, held: Set<u64>, node: Node) -> bool {
    exists|x: u64| held.contains(x) && joins(nodes, x, node)
}

fn connected(nodes: &Vec<Node>, held: &BTreeSet<u64>, node: Node) -> (r: bool)
    ensures
        r == touches(nodes@, held@, node),
{
    if let Some(parent) = node.parent {
        if held.contains(&parent) {
            assert(joins(nodes@, parent, node));
            return true;
        }
    }
    let mut k: usize = 0;
    while k < nodes.len()
        invariant
            k <= nodes@.len(),
            forall|j: int|
                0 <= j < k && held@.contains((#[trigger] nodes@[j]).id) ==> nodes@[j].parent
                    != Some(node.id),
        decreases nodes@.len() - k,
    {
        if held.contains(&nodes[k].id) && nodes[k].parent == Some(node.id) {
            proof {
                let x = nodes@[k as int].id;
                assert(has_child(nodes@, node.id, x));
                assert(joins(nodes@, x, node));
            }
            return true;
        }
        k = k + 1;
    }
    false
}

/// What hangs under a part of a subtree belongs to the subtree.
pub proof fn law_subtree_is_whole(nodes: Seq<Node>, root: u64, i: int)
    requires
        0 <= i < nodes.len(),
        nodes[i].parent is Some,
        subtree(nodes, root).contains(nodes[i].parent->0),
    ensures
        subtree(nodes, root).contains(nodes[i].id),
{
    assert(has_child(nodes, nodes[i].parent->0, nodes[i].id));
    lemma_reaches_step(child_edge(nodes), root, nodes[i].parent->0, nodes[i].id);
}

/// A subtree holds its root.
pub proof fn law_subtree_holds_root(nodes: Seq<Node>, root: u64)
    ensures
        subtree(nodes, root).contains(root),
{
    lemma_reaches_self(child_edge(nodes), root);
}

/// A subtree holds the subtree of each of its parts.
pub proof fn law_subtree_nests(nodes: Seq<Node>, root: u64, inner: u64)
    requires
        subtree(nodes, root).contains(inner),
    ensures
        subtree(nodes, inner).subset_of(subtree(nodes, root)),
{
    let edge = child_edge(nodes);
    let held = subtree(nodes, root);
    assert forall|x: u64, y: u64| held.contains(x) && #[trigger] edge(x, y) implies held.contains(
        y,
    ) by {
        lemma_reaches_step(edge, root, x, y);
    }
    assert forall|x: u64| subtree(nodes, inner).contains(x) implies held.contains(x) by {
        lemma_closed_holds_reached(edge, held, inner, x);
    }
}

/// Whether no two parts share an identifier.
pub open spec fn distinct_ids(nodes: Seq<Node>) -> bool {
    forall|i: int, j: int|
        0 <= i < nodes.len() && 0 <= j < nodes.len() && (#[trigger] nodes[i]).id == (
        #[trigger] nodes[j]).id ==> i == j
}

proof fn lemma_reaches_before(edge: spec_fn(u64, u64) -> bool, a: u64, b: u64, c: u64)
    requires
        edge(a, b),
        reaches(edge, b, c),
    ensures
        reaches(edge, a, c),
{
    let path = choose|path: Seq<u64>| #[trigger]
        is_path(edge, path) && path[0] == b && path.last() == c;
    let longer = seq![a] + path;
    assert forall|i: int| 0 <= i < longer.len() - 1 implies edge(
        #[trigger] longer[i],
        longer[i + 1],
    ) by {
        if i > 0 {
            assert(edge(path[i - 1], path[i - 1 + 1]));
        }
    }
    assert(is_path(edge, longer) && longer[0] == a && longer.last() == c);
}

proof fn lemma_feeds_back(nodes: Seq<Node>, a: u64, b: u64)
    requires
        distinct_ids(nodes),
        is_open(nodes, a),
        feeds(nodes, a, b),
    ensures
        feeds(nodes, b, a),
        is_open(nodes, b),
{
    let i = choose|i: int|
        0 <= i < nodes.len() && (#[trigger] nodes[i]).id == b && nodes[i].open && (nodes[i].parent
            == Some(a) || has_child(nodes, b, a));
    let k = choose|k: int| 0 <= k < nodes.len() && (#[trigger] nodes[k]).id == a && nodes[k].open;
    if nodes[i].parent == Some(a) {
        assert(has_child(nodes, a, b));
        assert(nodes[k].id == a);
    } else {
        let m = choose|m: int|
            0 <= m < nodes.len() && (#[trigger] nodes[m]).id == a && nodes[m].parent == Some(b);
        assert(m == k);
    }
}

proof fn lemma_path_back(nodes: Seq<Node>, path: Seq<u64>, n: int)
    requires
        distinct_ids(nodes),
        is_path(feed_edge(nodes), path),
        is_open(nodes, path[0]),
        0 <= n < path.len(),
    ensures
        reaches(feed_edge(nodes), path[n], path[0]),
        is_open(nodes, path[n]),
    decreases n,
{
    let edge = feed_edge(nodes);
    if n == 0 {
        lemma_reaches_self(edge, path[0]);
    } else {
        lemma_path_back(nodes, path, n - 1);
        assert(edge(path[n - 1], path[n - 1 + 1]));
        lemma_feeds_back(nodes, path[n - 1], path[n]);
        lemma_reaches_before(edge, path[n], path[n - 1], path[0]);
    }
}

proof fn lemma_network_within(nodes: Seq<Node>, a: u64, b: u64)
    requires
        network(nodes, a).contains(b),
    ensures
        network(nodes, b).subset_of(network(nodes, a)),
{
    let edge = feed_edge(nodes);
    let held = network(nodes, a);
    assert forall|x: u64, y: u64| held.contains(x) && #[trigger] edge(x, y) implies held.contains(
        y,
    ) by {
        lemma_reaches_step(edge, a, x, y);
    }
    assert forall|x: u64| network(nodes, b).contains(x) implies held.contains(x) by {
        lemma_closed_holds_reached(edge, held, b, x);
    }
}

/// Parts that share propellant share all of it: each part of a network has
/// that very network.
pub proof fn law_networks_coincide(nodes: Seq<Node>, a: u64, b: u64)
    requires
        distinct_ids(nodes),
        network(nodes, a).contains(b),
    ensures
        network(nodes, b) == network(nodes, a),
{
    let edge = feed_edge(nodes);
    let path = choose|path: Seq<u64>| #[trigger]
        is_path(edge, path) && path[0] == a && path.last() == b;
    lemma_path_back(nodes, path, path.len() - 1);
    assert(network(nodes, b).contains(a));
    lemma_network_within(nodes, a, b);
    lemma_network_within(nodes, b, a);
    assert(network(nodes, b) =~= network(nodes, a));
}

/// Propellant never crosses a closed part: every part of a network is open.
pub proof fn law_network_is_open(nodes: Seq<Node>, start: u64, id: u64)
    requires
        network(nodes, start).contains(id),
    ensures
        is_open(nodes, id),
{
    let edge = feed_edge(nodes);
    let path = choose|path: Seq<u64>| #[trigger]
        is_path(edge, path) && path[0] == start && path.last() == id;
    if path.len() > 1 {
        let n = path.len() - 2;
        assert(edge(path[n], path[n + 1]));
        assert(feeds(nodes, path[n], id));
    }
}

/// What is reached from elsewhere is reached over a last edge.
pub proof fn lemma_reached_over_an_edge(edge: spec_fn(u64, u64) -> bool, a: u64, b: u64)
    requires
        reaches(edge, a, b),
        a != b,
    ensures
        exists|x: u64| #[trigger] edge(x, b),
{
    let path = choose|path: Seq<u64>| #[trigger]
        is_path(edge, path) && path[0] == a && path.last() == b;
    let n = path.len() - 2;
    assert(path.len() > 1);
    assert(edge(path[n], path[n + 1]));
}

/// A subtree holds no more than it must: all in it but its root hangs on something in it.
pub proof fn law_subtree_hangs_together(nodes: Seq<Node>, root: u64, id: u64)
    requires
        subtree(nodes, root).contains(id),
        id != root,
    ensures
        exists|i: int|
            0 <= i < nodes.len() && (#[trigger] nodes[i]).id == id && nodes[i].parent is Some
                && subtree(nodes, root).contains(nodes[i].parent->0),
{
    let edge = child_edge(nodes);
    let path = choose|path: Seq<u64>| #[trigger]
        is_path(edge, path) && path[0] == root && path.last() == id;
    let last = path.len() - 2;
    assert(edge(path[last], path[last + 1]));
    let earlier = path.drop_last();
    assert(is_path(edge, earlier)) by {
        assert forall|i: int| 0 <= i < earlier.len() - 1 implies edge(
            #[trigger] earlier[i],
            earlier[i + 1],
        ) by {
            assert(edge(path[i], path[i + 1]));
        }
    }
    assert(subtree(nodes, root).contains(path[last]));
    let i = choose|i: int|
        0 <= i < nodes.len() && (#[trigger] nodes[i]).id == id && nodes[i].parent == Some(
            path[last],
        );
    assert(nodes[i].id == id);
}

/// Propellant passes between a part and the one it hangs on, both ways, where both let it
/// through: a network holds either both of them or none.
pub proof fn law_network_spreads(nodes: Seq<Node>, start: u64, i: int, j: int)
    requires
        0 <= i < nodes.len(),
        0 <= j < nodes.len(),
        nodes[i].open,
        nodes[j].open,
        nodes[j].parent == Some(nodes[i].id),
    ensures
        network(nodes, start).contains(nodes[i].id) <==> network(nodes, start).contains(
            nodes[j].id,
        ),
        network(nodes, nodes[i].id).contains(nodes[i].id),
{
    let edge = feed_edge(nodes);
    assert(has_child(nodes, nodes[i].id, nodes[j].id));
    assert(feeds(nodes, nodes[i].id, nodes[j].id));
    assert(feeds(nodes, nodes[j].id, nodes[i].id));
    if reaches(edge, start, nodes[i].id) {
        lemma_reaches_step(edge, start, nodes[i].id, nodes[j].id);
    }
    if reaches(edge, start, nodes[j].id) {
        lemma_reaches_step(edge, start, nodes[j].id, nodes[i].id);
    }
    assert(is_open(nodes, nodes[i].id));
    lemma_reaches_self(edge, nodes[i].id);
}

/// A network holds no more than it must: all in it but its start lets propellant through, and
/// hangs on something in it or carries something in it.
pub proof fn law_network_hangs_together(nodes: Seq<Node>, start: u64, id: u64)
    requires
        network(nodes, start).contains(id),
        id != start,
    ensures
        exists|i: int|
            {
                &&& 0 <= i < nodes.len() && (#[trigger] nodes[i]).id == id && nodes[i].open
                &&& nodes[i].parent is Some && network(nodes, start).contains(nodes[i].parent->0)
                    || exists|j: int|
                    0 <= j < nodes.len() && (#[trigger] nodes[j]).parent == Some(id) && network(
                        nodes,
                        start,
                    ).contains(nodes[j].id)
            },
{
    let edge = feed_edge(nodes);
    let path = choose|path: Seq<u64>| #[trigger]
        is_path(edge, path) && path[0] == start && path.last() == id;
    let last = path.len() - 2;
    assert(edge(path[last], path[last + 1]));
    let earlier = path.drop_last();
    assert(is_path(edge, earlier)) by {
        assert forall|i: int| 0 <= i < earlier.len() - 1 implies edge(
            #[trigger] earlier[i],
            earlier[i + 1],
        ) by {
            assert(edge(path[i], path[i + 1]));
        }
    }
    let before = path[last];
    assert(network(nodes, start).contains(before));
    let i = choose|i: int|
        0 <= i < nodes.len() && (#[trigger] nodes[i]).id == id && nodes[i].open && (
        nodes[i].parent == Some(before) || has_child(nodes, id, before));
    assert(nodes[i].id == id);
    if nodes[i].parent != Some(before) {
        let j = choose|j: int|
            0 <= j < nodes.len() && (#[trigger] nodes[j]).id == before && nodes[j].parent == Some(
                id,
            );
        assert(nodes[j].parent == Some(id));
    }
}

/// What is below a node is the node itself and each that hangs on one below it; what feeds
/// from one is all that lets through and hangs together with it.
pub proof fn law_walks_reach_what_hangs_together(
    nodes: &Vec<Node>,
    root: u64,
    below: BTreeSet<u64>,
    fed: BTreeSet<u64>,
    i: int,
    j: int,
)
    requires
        call_ensures(descend, (nodes, root), below),
        call_ensures(feed_group, (nodes, root), fed),
        0 <= i < nodes@.len(),
        0 <= j < nodes@.len(),
    ensures
        below@.contains(root),
        nodes@[i].parent is Some && below@.contains(nodes@[i].parent->0) ==> below@.contains(
            nodes@[i].id,
        ),
        nodes@[i].open && nodes@[i].id == root ==> fed@.contains(root),
        nodes@[i].open && nodes@[j].open && nodes@[j].parent == Some(nodes@[i].id)
            ==> fed@.contains(nodes@[i].id) == fed@.contains(nodes@[j].id),
        fed@.contains(nodes@[i].id) ==> is_open(nodes@, nodes@[i].id),
{
    law_subtree_holds_root(nodes@, root);
    if nodes@[i].parent is Some && below@.contains(nodes@[i].parent->0) {
        law_subtree_is_whole(nodes@, root, i);
    }
    if nodes@[i].open && nodes@[i].id == root {
        assert(is_open(nodes@, root));
        lemma_reaches_self(feed_edge(nodes@), root);
    }
    if nodes@[i].open && nodes@[j].open && nodes@[j].parent == Some(nodes@[i].id) {
        law_network_spreads(nodes@, root, i, j);
    }
    if fed@.contains(nodes@[i].id) {
        law_network_is_open(nodes@, root, nodes@[i].id);
    }
}

} // verus!
