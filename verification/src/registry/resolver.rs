//! The transitive closure of dependency requests over the index.
//!
//! The walk is depth first: a request is recorded under the name of its
//! package, then what that package depends on at that version is walked,
//! then the requests that stood beside it. A request for a package is
//! followed once only, so the walk ends on every index, also on one whose
//! dependencies form a cycle.

use vstd::prelude::*;
use crate::ordered_map::{
    assoc_get, assoc_put, distinct_keys, lemma_position_from, lemma_put_keeps_distinct,
    position_from, OrderedMap,
};
use crate::registry::registry::{descriptor_in, direct_requests, IndexView, Registry};
use crate::types::dependencies::{Dependency, DependencyMap, DependencyView};
use crate::types::index::DescriptorView;
use crate::types::distribution::Distribution;
use crate::types::platform::PlatformArch;
use crate::types::version::VersionView;

verus! {

/// A request together with the name of the package that it asks for.
pub type Edge = (Seq<char>, DependencyView);

/// A node of the graph that a walk follows: a package at a version, in a
/// distribution, for a platform or for that of the host. It is what a
/// request leads to.
pub type Node = (Seq<char>, DependencyView);

/// The node that an edge leads to.
pub open spec fn node_of(e: Edge) -> Node {
    e
}

/// What a [`Collision`] stands for: the package that two requests that
/// differ ask for, the request that was recorded when the walk met the
/// other, and the other, which replaced it.
pub type CollisionView = (Seq<char>, DependencyView, DependencyView);

/// The state of a walk: the requests recorded so far, by name, the nodes
/// followed so far, in the order in which they were followed, and the
/// collisions met so far, in the order in which they were met.
pub struct Walk {
    pub requests: Seq<Edge>,
    pub visited: Seq<Node>,
    pub collisions: Seq<CollisionView>,
}

/// The first state of the walk that resolves a request for `name`: the
/// request itself counts as followed.
pub open spec fn first_state(name: Seq<char>, request: DependencyView) -> Walk {
    Walk {
        requests: Seq::empty(),
        visited: seq![(name, request)],
        collisions: Seq::empty(),
    }
}

/// The state after a request was recorded: it stands under the name of
/// its package, in the place of an earlier request for that name; where
/// the earlier one differs from it, the two are noted as a collision.
pub open spec fn record(state: Walk, e: Edge) -> Walk {
    Walk {
        requests: assoc_put(state.requests, e.0, e.1),
        visited: state.visited,
        collisions: match assoc_get(state.requests, e.0) {
            Some(earlier) => if earlier != e.1 {
                state.collisions.push((e.0, earlier, e.1))
            } else {
                state.collisions
            },
            None => state.collisions,
        },
    }
}

/// The state after the node of a request was marked as followed.
pub open spec fn follow(state: Walk, e: Edge) -> Walk {
    Walk {
        requests: state.requests,
        visited: state.visited.push(node_of(e)),
        collisions: state.collisions,
    }
}

/// The distribution with the given number.
pub open spec fn distribution_at(k: int) -> Distribution {
    if k == 0 {
        Distribution::Static
    } else if k == 1 {
        Distribution::Shared
    } else if k == 2 {
        Distribution::Sources
    } else {
        Distribution::Unknown
    }
}

/// The choice of a platform with the given number.
pub open spec fn arch_at(k: int) -> Option<PlatformArch> {
    if k == 0 {
        None
    } else if k == 1 {
        Some(PlatformArch::WindowsX32)
    } else if k == 2 {
        Some(PlatformArch::WindowsX64)
    } else if k == 3 {
        Some(PlatformArch::LinuxX32)
    } else if k == 4 {
        Some(PlatformArch::LinuxX64)
    } else if k == 5 {
        Some(PlatformArch::Android)
    } else if k == 6 {
        Some(PlatformArch::Any)
    } else {
        Some(PlatformArch::Unknown)
    }
}

/// The request for a version with the given number among the 32 that
/// there are: four distributions, each for seven platforms or for that of
/// the host.
pub open spec fn request_at(version: VersionView, k: int) -> DependencyView {
    DependencyView { version, distribution: distribution_at(k / 8), arch: arch_at(k % 8) }
}

/// The number of a request among those for its version.
pub open spec fn number_of_request(request: DependencyView) -> int {
    8 * match request.distribution {
        Distribution::Static => 0int,
        Distribution::Shared => 1int,
        Distribution::Sources => 2int,
        Distribution::Unknown => 3int,
    } + match request.arch {
        None => 0int,
        Some(PlatformArch::WindowsX32) => 1int,
        Some(PlatformArch::WindowsX64) => 2int,
        Some(PlatformArch::LinuxX32) => 3int,
        Some(PlatformArch::LinuxX64) => 4int,
        Some(PlatformArch::Android) => 5int,
        Some(PlatformArch::Any) => 6int,
        Some(PlatformArch::Unknown) => 7int,
    }
}

/// Every request has a number, and is the request with that number.
proof fn lemma_request_has_number(request: DependencyView)
    ensures
        0 <= number_of_request(request) < 32,
        request_at(request.version, number_of_request(request)) == request,
{
}

/// The nodes of one package: every request for every version that it has.
pub open spec fn nodes_of_versions(
    name: Seq<char>,
    versions: Seq<(VersionView, DescriptorView)>,
) -> Seq<Node> {
    Seq::new(versions.len() * 32, |k: int| (name, request_at(versions[k / 32].0, k % 32)))
}

/// The nodes of the index: every request for every package at every
/// version that it has.
pub open spec fn nodes_of_index(index: IndexView) -> Seq<Node>
    decreases index.len(),
{
    if index.len() == 0 {
        Seq::empty()
    } else {
        nodes_of_index(index.drop_last()) + nodes_of_versions(index.last().0, index.last().1)
    }
}

/// How many places of `universe` hold a node that was not followed yet.
pub open spec fn unvisited(universe: Seq<Node>, visited: Seq<Node>) -> nat
    decreases universe.len(),
{
    if universe.len() == 0 {
        0
    } else {
        unvisited(universe.drop_last(), visited) + if visited.contains(universe.last()) {
            0nat
        } else {
            1nat
        }
    }
}

/// Following one more node leaves no more nodes to follow than before,
/// and fewer if the node is one of the universe that was not followed yet.
pub proof fn lemma_unvisited_push(universe: Seq<Node>, visited: Seq<Node>, n: Node)
    ensures
        unvisited(universe, visited.push(n)) <= unvisited(universe, visited),
        universe.contains(n) && !visited.contains(n) ==> unvisited(universe, visited.push(n))
            < unvisited(universe, visited),
    decreases universe.len(),
{
    if universe.len() > 0 {
        let last = universe.last();
        let more = visited.push(n);
        lemma_unvisited_push(universe.drop_last(), visited, n);
        if visited.contains(last) {
            let i = choose|i: int| 0 <= i < visited.len() && visited[i] == last;
            assert(more[i] == last);
        }
        assert(more[visited.len() as int] == n);
        if universe.contains(n) && !visited.contains(n) {
            if last != n {
                let i = choose|i: int| 0 <= i < universe.len() && universe[i] == n;
                assert(universe.drop_last()[i] == n);
            }
        }
    }
}

/// A node of one package is a node of the index.
proof fn lemma_nodes_of_index_hold(index: IndexView, i: int, j: int, request: DependencyView)
    requires
        0 <= i < index.len(),
        0 <= j < index[i].1.len(),
        request.version == index[i].1[j].0,
    ensures
        nodes_of_index(index).contains((index[i].0, request)),
    decreases index.len(),
{
    let all = nodes_of_index(index);
    let head = nodes_of_index(index.drop_last());
    let tail = nodes_of_versions(index.last().0, index.last().1);
    if i == index.len() - 1 {
        lemma_request_has_number(request);
        let k = 32 * j + number_of_request(request);
        assert(0 <= k < tail.len());
        assert(k / 32 == j && k % 32 == number_of_request(request));
        assert(tail[k] == (index[i].0, request));
        assert(all[head.len() + k] == tail[k]);
    } else {
        lemma_nodes_of_index_hold(index.drop_last(), i, j, request);
        let k = choose|k: int| 0 <= k < head.len() && head[k] == (index.drop_last()[i].0, request);
        assert(all[k] == head[k]);
    }
}

/// A request for a package at a version that the index has a descriptor
/// for is a node of the index.
pub proof fn lemma_described_is_node(index: IndexView, name: Seq<char>, request: DependencyView)
    requires
        descriptor_in(index, name, request.version) is Some,
    ensures
        nodes_of_index(index).contains((name, request)),
{
    lemma_position_from(index, name, 0);
    let i = position_from(index, name, 0);
    let versions = index[i].1;
    lemma_position_from(versions, request.version, 0);
    let j = position_from(versions, request.version, 0);
    lemma_nodes_of_index_hold(index, i, j, request);
}

/// The state in which the walk of the requests on `stack`, first to
/// last, ends when it starts in `state`.
pub open spec fn walk(index: IndexView, stack: Seq<Edge>, state: Walk) -> Walk
    decreases unvisited(nodes_of_index(index), state.visited), stack.len(),
    via walk_decreases
{
    if stack.len() == 0 {
        state
    } else {
        let e = stack[0];
        if state.visited.contains(node_of(e)) {
            walk(index, stack.drop_first(), record(state, e))
        } else {
            walk(
                index,
                direct_requests(index, e.0, e.1) + stack.drop_first(),
                follow(record(state, e), e),
            )
        }
    }
}

#[via_fn]
proof fn walk_decreases(index: IndexView, stack: Seq<Edge>, state: Walk) {
    if stack.len() > 0 {
        let e = stack[0];
        if !state.visited.contains(node_of(e)) {
            lemma_unvisited_push(nodes_of_index(index), state.visited, node_of(e));
            if descriptor_in(index, e.0, e.1.version) is Some {
                lemma_described_is_node(index, e.0, e.1);
            } else {
                assert(direct_requests(index, e.0, e.1) + stack.drop_first()
                    =~= stack.drop_first());
            }
        }
    }
}

/// Every request that the package of `request` needs at that version,
/// directly or through what it depends on, by name. Where two requests
/// name one package, the one that the walk meets last stays.
pub open spec fn resolve(index: IndexView, name: Seq<char>, request: DependencyView) -> Seq<Edge> {
    resolution(index, name, request).requests
}

/// The walk that resolves a request, in its last state.
pub open spec fn resolution(index: IndexView, name: Seq<char>, request: DependencyView) -> Walk {
    walk(index, direct_requests(index, name, request), first_state(name, request))
}

/// Walking a stack is walking its first part and then, from where that
/// ended, the rest.
pub proof fn lemma_walk_in_parts(index: IndexView, first: Seq<Edge>, rest: Seq<Edge>, state: Walk)
    ensures
        walk(index, first + rest, state) == walk(index, rest, walk(index, first, state)),
    decreases unvisited(nodes_of_index(index), state.visited), first.len(),
{
    if first.len() == 0 {
        assert(first + rest =~= rest);
    } else {
        let e = first[0];
        let whole = first + rest;
        assert(whole[0] == e);
        assert(whole.drop_first() =~= first.drop_first() + rest);
        if state.visited.contains(node_of(e)) {
            lemma_walk_in_parts(index, first.drop_first(), rest, record(state, e));
        } else {
            let below = direct_requests(index, e.0, e.1);
            let next = follow(record(state, e), e);
            lemma_unvisited_push(nodes_of_index(index), state.visited, node_of(e));
            if descriptor_in(index, e.0, e.1.version) is Some {
                lemma_described_is_node(index, e.0, e.1);
            } else {
                assert(below + first.drop_first() =~= first.drop_first());
            }
            assert(below + whole.drop_first() =~= (below + first.drop_first()) + rest);
            lemma_walk_in_parts(index, below + first.drop_first(), rest, next);
        }
    }
}

/// Whether `a` is the beginning of `b`.
pub open spec fn begins<A>(a: Seq<A>, b: Seq<A>) -> bool {
    a.len() <= b.len() && b.take(a.len() as int) == a
}

/// A walk keeps what was followed before it, follows no node twice, and
/// leaves no more nodes to follow than it found.
pub proof fn lemma_walk_visits(index: IndexView, stack: Seq<Edge>, state: Walk)
    ensures
        begins(state.visited, walk(index, stack, state).visited),
        state.visited.no_duplicates() ==> walk(index, stack, state).visited.no_duplicates(),
        unvisited(nodes_of_index(index), walk(index, stack, state).visited) <= unvisited(
            nodes_of_index(index),
            state.visited,
        ),
    decreases unvisited(nodes_of_index(index), state.visited), stack.len(),
{
    if stack.len() == 0 {
        assert(state.visited.take(state.visited.len() as int) =~= state.visited);
    } else {
        let e = stack[0];
        if state.visited.contains(node_of(e)) {
            lemma_walk_visits(index, stack.drop_first(), record(state, e));
        } else {
            let below = direct_requests(index, e.0, e.1);
            let next = follow(record(state, e), e);
            lemma_unvisited_push(nodes_of_index(index), state.visited, node_of(e));
            if descriptor_in(index, e.0, e.1.version) is Some {
                lemma_described_is_node(index, e.0, e.1);
            } else {
                assert(below + stack.drop_first() =~= stack.drop_first());
            }
            lemma_walk_visits(index, below + stack.drop_first(), next);
            let end = walk(index, stack, state).visited;
            assert(end.take(state.visited.len() as int) =~= end.take(
                next.visited.len() as int,
            ).take(state.visited.len() as int));
            assert(next.visited.take(state.visited.len() as int) =~= state.visited);
            if state.visited.no_duplicates() {
                assert forall|i: int, j: int|
                    0 <= i < next.visited.len() && 0 <= j < next.visited.len() && i
                        != j implies next.visited[i] != next.visited[j] by {
                    if i < state.visited.len() && j < state.visited.len() {
                        assert(state.visited[i] != state.visited[j]);
                    } else if i < state.visited.len() {
                        assert(state.visited[i] != node_of(e));
                    } else {
                        assert(state.visited[j] != node_of(e));
                    }
                }
            }
        }
    }
}

/// A walk that starts with no name recorded twice ends with no name
/// recorded twice.
pub proof fn lemma_walk_records_names_once(index: IndexView, stack: Seq<Edge>, state: Walk)
    requires
        distinct_keys(state.requests),
    ensures
        distinct_keys(walk(index, stack, state).requests),
    decreases unvisited(nodes_of_index(index), state.visited), stack.len(),
{
    if stack.len() > 0 {
        let e = stack[0];
        lemma_put_keeps_distinct(state.requests, e.0, e.1);
        if state.visited.contains(node_of(e)) {
            lemma_walk_records_names_once(index, stack.drop_first(), record(state, e));
        } else {
            let below = direct_requests(index, e.0, e.1);
            lemma_unvisited_push(nodes_of_index(index), state.visited, node_of(e));
            if descriptor_in(index, e.0, e.1.version) is Some {
                lemma_described_is_node(index, e.0, e.1);
            } else {
                assert(below + stack.drop_first() =~= stack.drop_first());
            }
            lemma_walk_records_names_once(
                index,
                below + stack.drop_first(),
                follow(record(state, e), e),
            );
        }
    }
}

/// Resolving a request, on whatever index, follows the request itself
/// first and no request twice, and gives one request for each name.
pub proof fn lemma_resolve_follows_once(index: IndexView, name: Seq<char>, request: DependencyView)
    ensures
        resolution(index, name, request).visited.no_duplicates(),
        resolution(index, name, request).visited[0] == (name, request),
        distinct_keys(resolve(index, name, request)),
{
    let start = first_state(name, request);
    let stack = direct_requests(index, name, request);
    lemma_walk_visits(index, stack, start);
    lemma_walk_records_names_once(index, stack, start);
    let end = walk(index, stack, start).visited;
    assert(end.take(1)[0] == end[0]);
}

/// Where a package needs a second one and the second needs the first at
/// the version asked for, resolving the first ends and gives the request
/// for the second and the request that closes the cycle.
pub proof fn lemma_cycle_of_two_resolves(
    index: IndexView,
    name: Seq<char>,
    request: DependencyView,
    there: Edge,
    back: DependencyView,
)
    requires
        there.0 != name,
        back.version == request.version,
        direct_requests(index, name, request) == seq![there],
        direct_requests(index, there.0, there.1) == seq![(name, back)],
    ensures
        resolve(index, name, request) == seq![there, (name, back)],
{
    let root = (name, request);
    let start = first_state(name, request);
    let first = seq![there];
    // The request for the second package is recorded and followed.
    assert(!start.visited.contains(node_of(there)));
    let second = follow(record(start, there), there);
    assert(second.requests =~= seq![there]);
    let stack = direct_requests(index, there.0, there.1) + first.drop_first();
    assert(stack =~= seq![(name, back)]);
    assert(walk(index, first, start) == walk(index, stack, second));
    // The request that closes the cycle is recorded.
    assert(second.visited[0] == root);
    assert(second.visited[1] == there);
    assert(position_from(second.requests, name, 1) == 1);
    let last = record(second, (name, back));
    assert(last.requests =~= seq![there, (name, back)]);
    assert(stack.drop_first() =~= Seq::<Edge>::empty());
    if back == request {
        // It is the request that was resolved, and is not followed again.
        assert(second.visited.contains(node_of((name, back))));
        assert(walk(index, stack, second) == walk(index, stack.drop_first(), last));
    } else {
        // It differs from the request that was resolved, and is followed:
        // it leads to the second package once more, which is not followed
        // again.
        assert(!second.visited.contains(node_of((name, back)))) by {
            if second.visited.contains((name, back)) {
                let k = choose|k: int| 0 <= k < second.visited.len() && second.visited[k] == (
                    name,
                    back,
                );
                assert(k == 0 || k == 1);
            }
        }
        let third = follow(last, (name, back));
        let again = direct_requests(index, name, back) + stack.drop_first();
        assert(direct_requests(index, name, back) == direct_requests(index, name, request));
        assert(again =~= seq![there]);
        assert(walk(index, stack, second) == walk(index, again, third));
        assert(third.visited[1] == there);
        assert(third.visited.contains(node_of(there)));
        assert(position_from(third.requests, there.0, 0) == 0);
        let end = record(third, there);
        assert(end.requests =~= seq![there, (name, back)]);
        assert(again.drop_first() =~= Seq::<Edge>::empty());
        assert(walk(index, again, third) == walk(index, again.drop_first(), end));
    }
}

/// What a node depends on: the requests of the descriptor of its package
/// at its version.
pub open spec fn edges_of(index: IndexView, n: Node) -> Seq<Edge> {
    direct_requests(index, n.0, n.1)
}

/// Whether a request of `from` leads to `to`.
pub open spec fn leads_to(index: IndexView, from: Node, to: Node) -> bool {
    exists|i: int|
        0 <= i < edges_of(index, from).len() && node_of(#[trigger] edges_of(index, from)[i]) == to
}

/// Whether each node of `path` leads to the next.
pub open spec fn is_path(index: IndexView, path: Seq<Node>) -> bool {
    path.len() > 0 && forall|i: int|
        0 <= i < path.len() - 1 ==> leads_to(index, #[trigger] path[i], path[i + 1])
}

/// Whether `n` can be reached from `root` along requests: it is `root`,
/// or a request of a node that can be reached leads to it.
pub open spec fn reachable(index: IndexView, root: Node, n: Node) -> bool {
    exists|path: Seq<Node>| is_path(index, path) && path[0] == root && #[trigger] path.last() == n
}

/// Whether every request of every node of `nodes` leads to a node of
/// `nodes`.
pub open spec fn closed(index: IndexView, nodes: Seq<Node>) -> bool {
    forall|n: Node, i: int|
        nodes.contains(n) && 0 <= i < edges_of(index, n).len() ==> nodes.contains(
            node_of(#[trigger] edges_of(index, n)[i]),
        )
}

/// What a list holds, a list that begins with it holds too.
proof fn lemma_begins_holds<A>(a: Seq<A>, b: Seq<A>, x: A)
    requires
        begins(a, b),
        a.contains(x),
    ensures
        b.contains(x),
{
    let i = choose|i: int| 0 <= i < a.len() && a[i] == x;
    assert(b.take(a.len() as int)[i] == b[i]);
}

/// A walk follows the node of every request on its stack, and every
/// request of every node that it follows leads to a node that was
/// followed when it ends.
pub proof fn lemma_walk_closes(index: IndexView, stack: Seq<Edge>, state: Walk)
    ensures
        forall|i: int|
            0 <= i < stack.len() ==> walk(index, stack, state).visited.contains(
                node_of(#[trigger] stack[i]),
            ),
        forall|n: Node, i: int|
            walk(index, stack, state).visited.contains(n) && !state.visited.contains(n) && 0 <= i
                < edges_of(index, n).len() ==> walk(index, stack, state).visited.contains(
                node_of(#[trigger] edges_of(index, n)[i]),
            ),
    decreases unvisited(nodes_of_index(index), state.visited), stack.len(),
{
    let end = walk(index, stack, state).visited;
    if stack.len() > 0 {
        let e = stack[0];
        let rest = stack.drop_first();
        if state.visited.contains(node_of(e)) {
            let next = record(state, e);
            lemma_walk_closes(index, rest, next);
            lemma_walk_visits(index, rest, next);
            lemma_begins_holds(state.visited, end, node_of(e));
            assert forall|i: int| 0 <= i < stack.len() implies end.contains(
                node_of(#[trigger] stack[i]),
            ) by {
                if i > 0 {
                    assert(stack[i] == rest[i - 1]);
                }
            }
        } else {
            let below = direct_requests(index, e.0, e.1);
            let next = follow(record(state, e), e);
            lemma_unvisited_push(nodes_of_index(index), state.visited, node_of(e));
            if descriptor_in(index, e.0, e.1.version) is Some {
                lemma_described_is_node(index, e.0, e.1);
            } else {
                assert(below + rest =~= rest);
            }
            let all = below + rest;
            lemma_walk_closes(index, all, next);
            lemma_walk_visits(index, all, next);
            assert(next.visited[state.visited.len() as int] == node_of(e));
            lemma_begins_holds(next.visited, end, node_of(e));
            assert forall|i: int| 0 <= i < stack.len() implies end.contains(
                node_of(#[trigger] stack[i]),
            ) by {
                if i > 0 {
                    assert(stack[i] == all[below.len() + i - 1]);
                }
            }
            assert forall|n: Node, i: int|
                end.contains(n) && !state.visited.contains(n) && 0 <= i < edges_of(
                    index,
                    n,
                ).len() implies end.contains(node_of(#[trigger] edges_of(index, n)[i])) by {
                if n == node_of(e) {
                    assert(edges_of(index, n) == below);
                    assert(below[i] == all[i]);
                } else {
                    if next.visited.contains(n) {
                        let k = choose|k: int| 0 <= k < next.visited.len() && next.visited[k] == n;
                        assert(state.visited[k] == n);
                    }
                }
            }
        }
    }
}

/// A closed list of nodes holds every node that can be reached from one
/// of its nodes.
proof fn lemma_closed_holds_path(index: IndexView, nodes: Seq<Node>, path: Seq<Node>)
    requires
        closed(index, nodes),
        is_path(index, path),
        nodes.contains(path[0]),
    ensures
        nodes.contains(path.last()),
    decreases path.len(),
{
    if path.len() > 1 {
        let shorter = path.drop_last();
        assert forall|i: int| 0 <= i < shorter.len() - 1 implies leads_to(
            index,
            #[trigger] shorter[i],
            shorter[i + 1],
        ) by {
            assert(leads_to(index, path[i], path[i + 1]));
        }
        lemma_closed_holds_path(index, nodes, shorter);
        let from = shorter.last();
        assert(from == path[path.len() - 2]);
        assert(leads_to(index, path[path.len() - 2], path[path.len() - 2 + 1]));
        let i = choose|i: int|
            0 <= i < edges_of(index, from).len() && node_of(
                #[trigger] edges_of(index, from)[i],
            ) == path.last();
        assert(nodes.contains(node_of(edges_of(index, from)[i])));
    }
}

/// What a request of a node that can be reached leads to can be reached.
proof fn lemma_reach_one_more(index: IndexView, root: Node, from: Node, to: Node)
    requires
        reachable(index, root, from),
        leads_to(index, from, to),
    ensures
        reachable(index, root, to),
{
    let path = choose|path: Seq<Node>|
        is_path(index, path) && path[0] == root && #[trigger] path.last() == from;
    let longer = path.push(to);
    assert forall|i: int| 0 <= i < longer.len() - 1 implies leads_to(
        index,
        #[trigger] longer[i],
        longer[i + 1],
    ) by {
        if i < path.len() - 1 {
            assert(leads_to(index, path[i], path[i + 1]));
        }
    }
    assert(longer[0] == root);
    assert(longer.last() == to);
}

/// Whether every node of `nodes` can be reached from `root`.
pub open spec fn all_reachable(index: IndexView, root: Node, nodes: Seq<Node>) -> bool {
    forall|i: int| 0 <= i < nodes.len() ==> reachable(index, root, #[trigger] nodes[i])
}

/// Whether the node of every request of `edges` can be reached from
/// `root`.
pub open spec fn all_lead_to_reachable(index: IndexView, root: Node, edges: Seq<Edge>) -> bool {
    forall|i: int| 0 <= i < edges.len() ==> reachable(index, root, node_of(#[trigger] edges[i]))
}

/// A walk over requests that lead to nodes that can be reached follows
/// only nodes that can be reached.
pub proof fn lemma_walk_stays_within_reach(
    index: IndexView,
    root: Node,
    stack: Seq<Edge>,
    state: Walk,
)
    requires
        all_reachable(index, root, state.visited),
        all_lead_to_reachable(index, root, stack),
    ensures
        all_reachable(index, root, walk(index, stack, state).visited),
    decreases unvisited(nodes_of_index(index), state.visited), stack.len(),
{
    if stack.len() > 0 {
        let e = stack[0];
        let rest = stack.drop_first();
        assert forall|i: int| 0 <= i < rest.len() implies reachable(
            index,
            root,
            node_of(#[trigger] rest[i]),
        ) by {
            assert(rest[i] == stack[i + 1]);
        }
        if state.visited.contains(node_of(e)) {
            lemma_walk_stays_within_reach(index, root, rest, record(state, e));
        } else {
            let below = direct_requests(index, e.0, e.1);
            let next = follow(record(state, e), e);
            lemma_unvisited_push(nodes_of_index(index), state.visited, node_of(e));
            if descriptor_in(index, e.0, e.1.version) is Some {
                lemma_described_is_node(index, e.0, e.1);
            } else {
                assert(below + rest =~= rest);
            }
            let all = below + rest;
            assert(reachable(index, root, node_of(stack[0])));
            assert forall|i: int| 0 <= i < next.visited.len() implies reachable(
                index,
                root,
                #[trigger] next.visited[i],
            ) by {
                if i < state.visited.len() {
                    assert(next.visited[i] == state.visited[i]);
                }
            }
            assert forall|i: int| 0 <= i < all.len() implies reachable(
                index,
                root,
                node_of(#[trigger] all[i]),
            ) by {
                if i < below.len() {
                    assert(edges_of(index, node_of(e)) == below);
                    assert(node_of(edges_of(index, node_of(e))[i]) == node_of(all[i]));
                    lemma_reach_one_more(index, root, node_of(e), node_of(all[i]));
                } else {
                    assert(all[i] == rest[i - below.len()]);
                }
            }
            lemma_walk_stays_within_reach(index, root, all, next);
        }
    }
}

/// Resolving a request follows exactly the nodes that can be reached from
/// the request, each of them once.
pub proof fn lemma_resolve_follows_what_is_reachable(
    index: IndexView,
    name: Seq<char>,
    request: DependencyView,
    n: Node,
)
    ensures
        resolution(index, name, request).visited.contains(n) <==> reachable(
            index,
            (name, request),
            n,
        ),
        resolution(index, name, request).visited.no_duplicates(),
{
    let root = (name, request);
    let start = first_state(name, request);
    let stack = direct_requests(index, name, request);
    let end = resolution(index, name, request).visited;
    lemma_resolve_follows_once(index, name, request);
    lemma_walk_closes(index, stack, start);
    lemma_walk_visits(index, stack, start);
    assert(start.visited[0] == root);
    lemma_begins_holds(start.visited, end, root);
    // The root can be reached from itself.
    let alone = seq![root];
    assert(is_path(index, alone) && alone[0] == root && alone.last() == root);
    assert(reachable(index, root, root));
    // What was followed is closed under requests.
    assert(edges_of(index, root) == stack);
    assert forall|m: Node, i: int|
        end.contains(m) && 0 <= i < edges_of(index, m).len() implies end.contains(
        node_of(#[trigger] edges_of(index, m)[i]),
    ) by {
        if start.visited.contains(m) {
            let k = choose|k: int| 0 <= k < start.visited.len() && start.visited[k] == m;
            assert(m == root);
            assert(end.contains(node_of(stack[i])));
        }
    }
    if reachable(index, root, n) {
        let path = choose|path: Seq<Node>|
            is_path(index, path) && path[0] == root && #[trigger] path.last() == n;
        lemma_closed_holds_path(index, end, path);
    }
    // What was followed can be reached.
    assert forall|i: int| 0 <= i < stack.len() implies reachable(
        index,
        root,
        node_of(#[trigger] stack[i]),
    ) by {
        assert(node_of(edges_of(index, root)[i]) == node_of(stack[i]));
        lemma_reach_one_more(index, root, root, node_of(stack[i]));
    }
    lemma_walk_stays_within_reach(index, root, stack, start);
    if end.contains(n) {
        let k = choose|k: int| 0 <= k < end.len() && end[k] == n;
        assert(reachable(index, root, end[k]));
    }
}

/// The nodes that can be reached from `root`.
pub open spec fn reach(index: IndexView, root: Node) -> Set<Node> {
    Set::new(|n: Node| reachable(index, root, n))
}

/// Resolving a request follows as many nodes as can be reached from the
/// request: the nodes that were followed
/// are those nodes, and none stands among them twice.
pub proof fn lemma_resolve_follows_each_once(
    index: IndexView,
    name: Seq<char>,
    request: DependencyView,
)
    ensures
        resolution(index, name, request).visited.to_set() == reach(
            index,
            (name, request),
        ),
        resolution(index, name, request).visited.no_duplicates(),
        reach(index, (name, request)).finite(),
        resolution(index, name, request).visited.len() == reach(
            index,
            (name, request),
        ).len(),
{
    let root = (name, request);
    let end = resolution(index, name, request).visited;
    assert forall|n: Node| end.to_set().contains(n) <==> reach(index, root).contains(n) by {
        lemma_resolve_follows_what_is_reachable(index, name, request, n);
    }
    assert(end.to_set() =~= reach(index, root));
    lemma_resolve_follows_once(index, name, request);
    end.unique_seq_to_set();
    vstd::seq_lib::seq_to_set_is_finite(end);
}

/// Two requests for one package that differ, as a walk met them.
#[derive(Debug, PartialEq, Eq)]
pub struct Collision {
    /// The package that both ask for.
    pub name: String,
    /// The request that was recorded.
    pub replaced: Dependency,
    /// The request that took its place.
    pub replacing: Dependency,
}

/// The state of a walk.
#[derive(Debug)]
pub struct Resolution {
    /// The requests recorded so far, by name.
    pub requests: DependencyMap,
    /// The nodes followed so far.
    pub visited: Vec<(String, Dependency)>,
    /// The collisions met so far.
    pub collisions: Vec<Collision>,
}

/// What a list of followed nodes stands for.
pub open spec fn visited_view(visited: Seq<(String, Dependency)>) -> Seq<Node> {
    Seq::new(visited.len(), |i: int| (visited[i].0@, visited[i].1@))
}

/// What a list of collisions stands for.
pub open spec fn collisions_view(collisions: Seq<Collision>) -> Seq<CollisionView> {
    Seq::new(
        collisions.len(),
        |i: int| (collisions[i].name@, collisions[i].replaced@, collisions[i].replacing@),
    )
}

impl View for Resolution {
    type V = Walk;

    open spec fn view(&self) -> Walk {
        Walk {
            requests: self.requests@,
            visited: visited_view(self.visited@),
            collisions: collisions_view(self.collisions@),
        }
    }
}

/// Whether the node was followed.
fn node_seen(visited: &Vec<(String, Dependency)>, name: &String, request: &Dependency) -> (r: bool)
    ensures
        r == visited_view(visited@).contains((name@, request@)),
{
    let ghost nodes = visited_view(visited@);
    let mut i: usize = 0;
    while i < visited.len()
        invariant
            i <= visited.len(),
            nodes == visited_view(visited@),
            forall|j: int| 0 <= j < i ==> nodes[j] != (name@, request@),
        decreases visited.len() - i,
    {
        if visited[i].0 == *name && visited[i].1.same(request) {
            assert(nodes[i as int] == (name@, request@));
            return true;
        }
        i = i + 1;
    }
    false
}

impl Resolution {
    /// The first state of the walk that resolves a request for `name`.
    pub fn new(name: &str, dependency: &Dependency) -> (r: Resolution)
        ensures
            r@ == first_state(name@, dependency@),
    {
        let mut visited: Vec<(String, Dependency)> = Vec::new();
        visited.push((name.to_owned(), dependency.clone()));
        let r = Resolution { requests: OrderedMap::new(), visited, collisions: Vec::new() };
        assert(r@.visited =~= seq![(name@, dependency@)]);
        assert(r@.collisions =~= Seq::<CollisionView>::empty());
        r
    }

    /// Records a request under the name of its package and notes a
    /// collision where it replaces a request that differs from it.
    pub fn record(&mut self, name: &String, dependency: &Dependency)
        ensures
            final(self)@ == record(old(self)@, (name@, dependency@)),
    {
        let earlier = match self.requests.get(name) {
            Some(earlier) => if earlier.same(dependency) {
                None
            } else {
                Some(earlier.clone())
            },
            None => None,
        };
        match earlier {
            Some(replaced) => {
                self.collisions.push(
                    Collision { name: name.clone(), replaced, replacing: dependency.clone() },
                );
                assert(collisions_view(self.collisions@) =~= collisions_view(
                    old(self).collisions@,
                ).push((name@, replaced@, dependency@)));
            },
            None => {},
        }
        self.requests.insert(name.clone(), dependency.clone());
    }

    /// Whether the node that a request leads to was not followed yet; if
    /// so, the node is marked as followed.
    pub fn enter(&mut self, name: &String, dependency: &Dependency) -> (r: bool)
        ensures
            r == !old(self)@.visited.contains(node_of((name@, dependency@))),
            final(self)@ == if r {
                follow(old(self)@, (name@, dependency@))
            } else {
                old(self)@
            },
    {
        if node_seen(&self.visited, name, dependency) {
            false
        } else {
            self.visited.push((name.clone(), dependency.clone()));
            assert(visited_view(self.visited@) =~= visited_view(old(self).visited@).push(
                node_of((name@, dependency@)),
            ));
            true
        }
    }
}

impl Registry {
    /// Every request that the package needs at the version of the
    /// request, directly or through what it depends on, by name.
    pub fn get_recursively(&self, name: &str, dependency: &Dependency) -> (r: DependencyMap)
        ensures
            r@ == resolve(self@.index, name@, dependency@),
    {
        self.resolve_reporting(name, dependency).requests
    }

    /// The walk that resolves the request, in its last state: the requests
    /// that the package needs, the nodes that were followed, and every
    /// collision between two requests for one package that the walk met.
    pub fn resolve_reporting(&self, name: &str, dependency: &Dependency) -> (r: Resolution)
        ensures
            r@ == resolution(self@.index, name@, dependency@),
    {
        let mut state = Resolution::new(name, dependency);
        self.get_recursively_internal(name, dependency, &mut state);
        state
    }

    /// Walks what the package depends on at the version of the request,
    /// from the given state.
    pub fn get_recursively_internal(
        &self,
        name: &str,
        dependency: &Dependency,
        state: &mut Resolution,
    )
        ensures
            final(state)@ == walk(
                self@.index,
                direct_requests(self@.index, name@, dependency@),
                old(state)@,
            ),
        decreases
            unvisited(nodes_of_index(self@.index), old(state)@.visited),
            direct_requests(self@.index, name@, dependency@).len(),
    {
        let indirect = self.get_indirect_dependencies(name, dependency);
        let ghost index = self@.index;
        let ghost universe = nodes_of_index(index);
        let ghost below = indirect@;
        let ghost start = state@;
        let mut i: usize = 0;
        assert(below.skip(0) =~= below);
        while i < indirect.entries.len()
            invariant
                i <= indirect.entries.len(),
                index == self@.index,
                universe == nodes_of_index(index),
                below == indirect@,
                below == direct_requests(index, name@, dependency@),
                walk(index, below, start) == walk(index, below.skip(i as int), state@),
                unvisited(universe, state@.visited) <= unvisited(universe, start.visited),
                start == old(state)@,
            decreases indirect.entries.len() - i,
        {
            let dep_name = &indirect.entries[i].0;
            let dep = &indirect.entries[i].1;
            let ghost e = below[i as int];
            proof {
                assert(e == (dep_name@, dep@));
                assert(below.skip(i as int)[0] == e);
                assert(below.skip(i as int).drop_first() =~= below.skip(i + 1));
            }
            let ghost before = state@;
            state.record(dep_name, dep);
            if state.enter(dep_name, dep) {
                proof {
                    let next = state@;
                    lemma_unvisited_push(universe, before.visited, node_of(e));
                    if descriptor_in(index, e.0, e.1.version) is Some {
                        lemma_described_is_node(index, e.0, e.1);
                    }
                    lemma_walk_in_parts(
                        index,
                        direct_requests(index, e.0, e.1),
                        below.skip(i + 1),
                        next,
                    );
                    lemma_walk_visits(index, direct_requests(index, e.0, e.1), next);
                }
                self.get_recursively_internal(dep_name.as_str(), dep, state);
            }
            i = i + 1;
        }
    }
}

} // verus!
