//! Depth-first search of the predicate dependency graph.
//!
//! The search walks every vertex in index order with an explicit stack. An edge
//! to a vertex on the active path is retreating; without the retreating edges no
//! cycle is left, and each of them closes one.
use vstd::prelude::*;

use crate::chc::{ChcProblem, ClauseHead, ClauseModel, HeadModel, ProblemModel};

verus! {

/// Whether a clause derives predicate `to` from predicate `from`.
pub open spec fn clause_edge(clause: ClauseModel, from: int, to: int) -> bool {
    &&& clause.head matches HeadModel::Predicate(head) && head.predicate.index == to
    &&& exists|j: int|
        0 <= j < clause.atoms.len() && (#[trigger] clause.atoms[j]).predicate.index == from
}

/// Whether some clause derives predicate `to` from predicate `from`.
pub open spec fn depends(problem: ProblemModel, from: int, to: int) -> bool {
    exists|i: int|
        0 <= i < problem.clauses.len() && clause_edge(#[trigger] problem.clauses[i], from, to)
}

/// Whether a sequence of predicates follows the dependencies.
pub open spec fn is_walk(problem: ProblemModel, walk: Seq<int>) -> bool {
    forall|i: int|
        0 <= i < walk.len() - 1 ==> depends(problem, #[trigger] walk[i], walk[i + 1])
}

/// Whether some walk returns to where it started.
pub open spec fn has_cycle(problem: ProblemModel) -> bool {
    exists|walk: Seq<int>| #[trigger]
        is_walk(problem, walk) && walk.len() >= 2 && walk[0] == walk.last()
}

/// State of a vertex during the search.
#[derive(Debug, Clone, Copy, PartialEq, Eq, Structural)]
pub enum Mark {
    /// Not reached.
    White,
    /// On the active path.
    Gray,
    /// Done.
    Black,
}

/// State of the search.
pub struct SearchModel {
    /// Mark of each vertex.
    pub marks: Seq<Mark>,
    /// Active path, with the number of successors already taken at each vertex.
    pub path: Seq<(int, int)>,
    /// Vertices below this one have been tried as roots.
    pub root: int,
    /// Retreating edges in the order they were found.
    pub retreating: Seq<(int, int)>,
}

/// The search before its first step.
pub open spec fn search_start(count: nat) -> SearchModel {
    SearchModel {
        marks: Seq::new(count, |i: int| Mark::White),
        path: Seq::empty(),
        root: 0,
        retreating: Seq::empty(),
    }
}

/// Whether the search is over.
pub open spec fn search_over(state: SearchModel) -> bool {
    state.path.len() == 0 && state.root >= state.marks.len()
}

/// One step of the search.
pub open spec fn search_step(successors: Seq<Seq<int>>, state: SearchModel) -> SearchModel {
    if search_over(state) {
        state
    } else if state.path.len() == 0 {
        if state.marks[state.root] == Mark::White {
            SearchModel {
                marks: state.marks.update(state.root, Mark::Gray),
                path: seq![(state.root, 0)],
                ..state
            }
        } else {
            SearchModel { root: state.root + 1, ..state }
        }
    } else {
        let (node, taken) = state.path.last();
        let below = state.path.drop_last();
        if taken < successors[node].len() {
            let next = successors[node][taken];
            let path = below.push((node, taken + 1));
            match state.marks[next] {
                Mark::Gray => SearchModel {
                    path,
                    retreating: state.retreating.push((node, next)),
                    ..state
                },
                Mark::White => SearchModel {
                    marks: state.marks.update(next, Mark::Gray),
                    path: path.push((next, 0)),
                    ..state
                },
                Mark::Black => SearchModel { path, ..state },
            }
        } else {
            SearchModel { marks: state.marks.update(node, Mark::Black), path: below, ..state }
        }
    }
}

/// The search after a number of steps.
pub open spec fn search_after(successors: Seq<Seq<int>>, steps: nat) -> SearchModel
    decreases steps,
{
    if steps == 0 {
        search_start(successors.len())
    } else {
        search_step(successors, search_after(successors, (steps - 1) as nat))
    }
}

/// The retreating edges that the search finds, in the order it finds them.
pub open spec fn found_edges(successors: Seq<Seq<int>>) -> Seq<(int, int)> {
    let steps = choose|steps: nat| search_over(#[trigger] search_after(successors, steps));
    search_after(successors, steps).retreating
}

/// A finished search stays as it is.
proof fn lemma_over_stays(successors: Seq<Seq<int>>, done: nat, later: nat)
    requires
        search_over(search_after(successors, done)),
        done <= later,
    ensures
        search_after(successors, later) == search_after(successors, done),
    decreases later,
{
    if done < later {
        lemma_over_stays(successors, done, (later - 1) as nat);
    }
}

/// A search that is over has found what the search finds.
proof fn lemma_found(successors: Seq<Seq<int>>, steps: nat)
    requires
        search_over(search_after(successors, steps)),
    ensures
        found_edges(successors) == search_after(successors, steps).retreating,
{
    let chosen = choose|steps: nat| search_over(#[trigger] search_after(successors, steps));
    assert(search_over(search_after(successors, chosen)));
    if chosen <= steps {
        lemma_over_stays(successors, chosen, steps);
    } else {
        lemma_over_stays(successors, steps, chosen);
    }
}

/// Whether a vertex has another as a successor.
pub open spec fn leads(successors: Seq<Seq<int>>, from: int, to: int) -> bool {
    0 <= from < successors.len() && successors[from].contains(to)
}

/// Whether a sequence of vertices follows the successor lists.
pub open spec fn is_path(successors: Seq<Seq<int>>, path: Seq<int>) -> bool {
    forall|i: int| 0 <= i < path.len() - 1 ==> leads(successors, #[trigger] path[i], path[i + 1])
}

/// Whether a path leads from one vertex to another.
pub open spec fn reaches(successors: Seq<Seq<int>>, from: int, to: int) -> bool {
    exists|path: Seq<int>| #[trigger]
        is_path(successors, path) && path.len() >= 1 && path[0] == from && path.last() == to
}

/// Whether every successor is a vertex.
pub open spec fn in_range(successors: Seq<Seq<int>>) -> bool {
    forall|v: int, j: int|
        0 <= v < successors.len() && 0 <= j < successors[v].len() ==> 0
            <= #[trigger] successors[v][j] < successors.len()
}

/// Whether an edge of the search tree or beyond is dealt with.
spec fn settled(state: SearchModel, from: int, to: int) -> bool {
    state.retreating.contains((from, to)) || state.marks[to] == Mark::Black
}

/// How many successors of a vertex on the path are dealt with: all taken ones,
/// but for the one that the path follows.
spec fn settled_count(state: SearchModel, i: int) -> int {
    if i == state.path.len() - 1 {
        state.path[i].1
    } else {
        state.path[i].1 - 1
    }
}

/// What holds of the search at every step. `rank` numbers the vertices that are
/// done in the order they were finished.
spec fn search_ok(
    successors: Seq<Seq<int>>,
    state: SearchModel,
    rank: spec_fn(int) -> int,
    clock: int,
) -> bool {
    &&& in_range(successors)
    &&& state.marks.len() == successors.len()
    &&& 0 <= state.root <= successors.len()
    &&& forall|i: int|
        0 <= i < state.path.len() ==> {
            &&& 0 <= (#[trigger] state.path[i]).0 < successors.len()
            &&& state.marks[state.path[i].0] == Mark::Gray
            &&& 0 <= state.path[i].1 <= successors[state.path[i].0].len()
        }
    &&& forall|i: int, j: int|
        0 <= i < j < state.path.len() ==> (#[trigger] state.path[i]).0 != (
        #[trigger] state.path[j]).0
    &&& forall|v: int|
        0 <= v < successors.len() && #[trigger] state.marks[v] == Mark::Gray ==> exists|i: int|
            0 <= i < state.path.len() && (#[trigger] state.path[i]).0 == v
    &&& forall|i: int|
        0 <= i < state.path.len() - 1 ==> {
            &&& (#[trigger] state.path[i]).1 >= 1
            &&& successors[state.path[i].0][state.path[i].1 - 1] == state.path[i + 1].0
        }
    &&& forall|i: int, j: int|
        0 <= i < state.path.len() && 0 <= j < settled_count(state, i) ==> settled(
            state,
            (#[trigger] state.path[i]).0,
            #[trigger] successors[state.path[i].0][j],
        )
    &&& forall|v: int, j: int|
        0 <= v < successors.len() && state.marks[v] == Mark::Black && 0 <= j
            < successors[v].len() ==> {
            let next = #[trigger] successors[v][j];
            ||| state.retreating.contains((v, next))
            ||| state.marks[next] == Mark::Black && rank(next) < rank(v)
        }
    &&& forall|v: int|
        0 <= v < successors.len() && #[trigger] state.marks[v] == Mark::Black ==> rank(v) < clock
    &&& forall|v: int| 0 <= v < state.root ==> #[trigger] state.marks[v] != Mark::White
    &&& forall|e: int|
        0 <= e < state.retreating.len() ==> {
            let (from, to) = #[trigger] state.retreating[e];
            leads(successors, from, to) && reaches(successors, to, from)
        }
}

proof fn lemma_start_ok(successors: Seq<Seq<int>>)
    requires
        in_range(successors),
    ensures
        search_ok(successors, search_start(successors.len()), |v: int| 0, 0),
{
}

/// The path leads from each of its vertices to its end.
proof fn lemma_path_reaches(
    successors: Seq<Seq<int>>,
    state: SearchModel,
    rank: spec_fn(int) -> int,
    clock: int,
    from: int,
)
    requires
        search_ok(successors, state, rank, clock),
        0 <= from < state.path.len(),
    ensures
        reaches(successors, state.path[from].0, state.path.last().0),
{
    let nodes = Seq::new(
        (state.path.len() - from) as nat,
        |i: int| state.path[from + i].0,
    );
    assert forall|i: int| 0 <= i < nodes.len() - 1 implies leads(
        successors,
        #[trigger] nodes[i],
        nodes[i + 1],
    ) by {
        let at = state.path[from + i];
        assert(successors[at.0][at.1 - 1] == state.path[from + i + 1].0);
        assert(successors[at.0].contains(state.path[from + i + 1].0));
    }
    assert(is_path(successors, nodes));
    assert(nodes[0] == state.path[from].0);
    assert(nodes.last() == state.path.last().0);
}

proof fn lemma_root_step_ok(
    successors: Seq<Seq<int>>,
    state: SearchModel,
    rank: spec_fn(int) -> int,
    clock: int,
)
    requires
        search_ok(successors, state, rank, clock),
        state.path.len() == 0,
        state.root < successors.len(),
    ensures
        search_ok(successors, search_step(successors, state), rank, clock),
{
    let after = search_step(successors, state);
    if state.marks[state.root] == Mark::White {
        assert(after.path[0] == (state.root, 0int));
        assert forall|v: int|
            0 <= v < successors.len() && #[trigger] after.marks[v] == Mark::Gray implies exists|
            i: int,
        |
            0 <= i < after.path.len() && (#[trigger] after.path[i]).0 == v by {
            if v != state.root {
                assert(state.marks[v] == Mark::Gray);
            }
            assert(after.path[0].0 == v);
        }
    }
}

proof fn lemma_visit_step_ok(
    successors: Seq<Seq<int>>,
    state: SearchModel,
    rank: spec_fn(int) -> int,
    clock: int,
)
    requires
        search_ok(successors, state, rank, clock),
        state.path.len() > 0,
        state.path.last().1 < successors[state.path.last().0].len(),
    ensures
        search_ok(successors, search_step(successors, state), rank, clock),
{
    let after = search_step(successors, state);
    let top = state.path.len() - 1;
    let (node, taken) = state.path.last();
    assert(state.path[top] == (node, taken));
    let next = successors[node][taken];
    assert(0 <= next < successors.len());
    assert forall|i: int| 0 <= i < top implies #[trigger] after.path[i] == state.path[i] by {}
    assert(after.path[top] == (node, taken + 1));
    match state.marks[next] {
        Mark::Gray => {
            let at = choose|i: int|
                0 <= i < state.path.len() && (#[trigger] state.path[i]).0 == next;
            lemma_path_reaches(successors, state, rank, clock, at);
            assert(successors[node].contains(next));
            assert(after.retreating.last() == (node, next));
            lemma_retreating_grows(state.retreating, (node, next));
            assert forall|e: int| 0 <= e < after.retreating.len() implies {
                let (from, to) = #[trigger] after.retreating[e];
                leads(successors, from, to) && reaches(successors, to, from)
            } by {
                if e < state.retreating.len() {
                    assert(after.retreating[e] == state.retreating[e]);
                }
            }
            assert forall|v: int|
                0 <= v < successors.len() && #[trigger] after.marks[v] == Mark::Gray implies exists|
                i: int,
            |
                0 <= i < after.path.len() && (#[trigger] after.path[i]).0 == v by {
                let i = choose|i: int|
                    0 <= i < state.path.len() && (#[trigger] state.path[i]).0 == v;
                assert(after.path[i].0 == v);
            }
        },
        Mark::White => {
            assert(after.path[top + 1] == (next, 0int));
            assert forall|i: int| 0 <= i < state.path.len() implies (
            #[trigger] after.path[i]).0 == state.path[i].0 && after.path[i].0 != next by {}
            assert forall|v: int|
                0 <= v < successors.len() && #[trigger] after.marks[v] == Mark::Gray implies exists|
                i: int,
            |
                0 <= i < after.path.len() && (#[trigger] after.path[i]).0 == v by {
                if v == next {
                    assert(after.path[top + 1].0 == v);
                } else {
                    assert(state.marks[v] == Mark::Gray);
                    let i = choose|i: int|
                        0 <= i < state.path.len() && (#[trigger] state.path[i]).0 == v;
                    assert(after.path[i].0 == v);
                }
            }
            assert forall|i: int, j: int|
                0 <= i < after.path.len() && 0 <= j < settled_count(after, i) implies settled(
                after,
                (#[trigger] after.path[i]).0,
                #[trigger] successors[after.path[i].0][j],
            ) by {
                if i <= top {
                    assert(settled(state, state.path[i].0, successors[state.path[i].0][j]));
                }
            }
        },
        Mark::Black => {
            assert forall|v: int|
                0 <= v < successors.len() && #[trigger] after.marks[v] == Mark::Gray implies exists|
                i: int,
            |
                0 <= i < after.path.len() && (#[trigger] after.path[i]).0 == v by {
                let i = choose|i: int|
                    0 <= i < state.path.len() && (#[trigger] state.path[i]).0 == v;
                assert(after.path[i].0 == v);
            }
        },
    }
}

proof fn lemma_retreating_grows(edges: Seq<(int, int)>, edge: (int, int))
    ensures
        edges.push(edge).contains(edge),
        forall|own: (int, int)| edges.contains(own) ==> #[trigger] edges.push(edge).contains(own),
{
    assert(edges.push(edge).last() == edge);
    assert forall|own: (int, int)| edges.contains(own) implies #[trigger] edges.push(edge).contains(
        own,
    ) by {
        let i = choose|i: int| 0 <= i < edges.len() && edges[i] == own;
        assert(edges.push(edge)[i] == own);
    }
}

/// The ranks after a vertex is finished.
spec fn finished(rank: spec_fn(int) -> int, node: int, clock: int) -> spec_fn(int) -> int {
    |v: int|
        if v == node {
            clock
        } else {
            rank(v)
        }
}

proof fn lemma_finish_step_ok(
    successors: Seq<Seq<int>>,
    state: SearchModel,
    rank: spec_fn(int) -> int,
    clock: int,
)
    requires
        search_ok(successors, state, rank, clock),
        state.path.len() > 0,
        state.path.last().1 >= successors[state.path.last().0].len(),
    ensures
        search_ok(
            successors,
            search_step(successors, state),
            finished(rank, state.path.last().0, clock),
            clock + 1,
        ),
{
    let after = search_step(successors, state);
    let top = state.path.len() - 1;
    let (node, taken) = state.path.last();
    let ranked = finished(rank, node, clock);
    assert(state.path[top] == (node, taken));
    assert forall|i: int| 0 <= i < top implies #[trigger] after.path[i] == state.path[i]
        && after.path[i].0 != node by {}
    assert forall|v: int|
        0 <= v < successors.len() && #[trigger] after.marks[v] == Mark::Gray implies exists|i: int|
        0 <= i < after.path.len() && (#[trigger] after.path[i]).0 == v by {
        assert(state.marks[v] == Mark::Gray);
        let i = choose|i: int| 0 <= i < state.path.len() && (#[trigger] state.path[i]).0 == v;
        assert(after.path[i].0 == v);
    }
    assert forall|i: int, j: int|
        0 <= i < after.path.len() && 0 <= j < settled_count(after, i) implies settled(
        after,
        (#[trigger] after.path[i]).0,
        #[trigger] successors[after.path[i].0][j],
    ) by {
        let own = state.path[i];
        if i == after.path.len() - 1 && j == own.1 - 1 {
            assert(successors[own.0][own.1 - 1] == state.path[i + 1].0);
        } else {
            assert(settled(state, own.0, successors[own.0][j]));
        }
    }
    assert forall|v: int, j: int|
        0 <= v < successors.len() && after.marks[v] == Mark::Black && 0 <= j
            < successors[v].len() implies {
        let next = #[trigger] successors[v][j];
        ||| after.retreating.contains((v, next))
        ||| after.marks[next] == Mark::Black && ranked(next) < ranked(v)
    } by {
        let next = successors[v][j];
        if v == node {
            assert(settled(state, state.path[top].0, successors[state.path[top].0][j]));
        } else {
            assert(state.marks[v] == Mark::Black);
        }
    }
}

spec fn white_count(marks: Seq<Mark>) -> nat
    decreases marks.len(),
{
    if marks.len() == 0 {
        0
    } else {
        white_count(marks.drop_last()) + (if marks.last() == Mark::White {
            1nat
        } else {
            0nat
        })
    }
}

proof fn lemma_white_count_update(marks: Seq<Mark>, at: int, mark: Mark)
    requires
        0 <= at < marks.len(),
        mark != Mark::White,
    ensures
        white_count(marks.update(at, mark)) == white_count(marks) - (if marks[at] == Mark::White {
            1int
        } else {
            0int
        }),
    decreases marks.len(),
{
    let after = marks.update(at, mark);
    if at == marks.len() - 1 {
        assert(after.drop_last() =~= marks.drop_last());
    } else {
        assert(after.drop_last() =~= marks.drop_last().update(at, mark));
        lemma_white_count_update(marks.drop_last(), at, mark);
    }
}

/// Steps that the vertices on the path still take by themselves.
spec fn path_weight(successors: Seq<Seq<int>>, path: Seq<(int, int)>) -> int
    decreases path.len(),
{
    if path.len() == 0 {
        0
    } else {
        path_weight(successors, path.drop_last()) + successors[path.last().0].len()
            - path.last().1 + 1
    }
}

proof fn lemma_path_weight_natural(successors: Seq<Seq<int>>, path: Seq<(int, int)>)
    requires
        forall|i: int|
            0 <= i < path.len() ==> (#[trigger] path[i]).1 <= successors[path[i].0].len(),
    ensures
        path_weight(successors, path) >= 0,
    decreases path.len(),
{
    if path.len() > 0 {
        assert forall|i: int| 0 <= i < path.drop_last().len() implies (
        #[trigger] path.drop_last()[i]).1 <= successors[path.drop_last()[i].0].len() by {
            assert(path.drop_last()[i] == path[i]);
        }
        lemma_path_weight_natural(successors, path.drop_last());
        assert(path[path.len() - 1] == path.last());
    }
}

/// What successor lists are.
pub open spec fn lists_model(lists: Seq<Vec<usize>>) -> Seq<Seq<int>> {
    Seq::new(lists.len(), |v: int| Seq::new(lists[v]@.len(), |j: int| lists[v]@[j] as int))
}

/// What a list of edges is.
pub open spec fn edges_model(edges: Seq<(usize, usize)>) -> Seq<(int, int)> {
    Seq::new(edges.len(), |e: int| (edges[e].0 as int, edges[e].1 as int))
}

/// The edges in a list.
pub open spec fn edge_set(edges: Seq<(usize, usize)>) -> Set<(int, int)> {
    edges_model(edges).to_set()
}

/// Whether one edge stands before another: by where they start, then by where
/// they end.
pub open spec fn precedes(edge: (usize, usize), other: (usize, usize)) -> bool {
    edge.0 < other.0 || (edge.0 == other.0 && edge.1 < other.1)
}

/// Whether a list of edges is in order, with no edge twice.
pub open spec fn ascending(edges: Seq<(usize, usize)>) -> bool {
    forall|i: int, j: int|
        0 <= i < j < edges.len() ==> precedes(#[trigger] edges[i], #[trigger] edges[j])
}

/// What holds of the retreating edges of a graph: they are edges, each closes a
/// cycle, and the other edges all lead down a ranking.
pub open spec fn cuts_cycles(successors: Seq<Seq<int>>, cut: Set<(int, int)>) -> bool {
    &&& forall|from: int, to: int| #[trigger]
        cut.contains((from, to)) ==> leads(successors, from, to) && reaches(successors, to, from)
    &&& exists|rank: spec_fn(int) -> int| #[trigger] ranks(successors, cut, rank)
}

/// Whether every edge outside `cut` leads to a lower rank.
pub open spec fn ranks(
    successors: Seq<Seq<int>>,
    cut: Set<(int, int)>,
    rank: spec_fn(int) -> int,
) -> bool {
    forall|from: int, to: int| #[trigger]
        leads(successors, from, to) && !cut.contains((from, to)) ==> rank(to) < rank(from)
}

proof fn lemma_over_cuts(
    successors: Seq<Seq<int>>,
    state: SearchModel,
    rank: spec_fn(int) -> int,
    clock: int,
)
    requires
        search_ok(successors, state, rank, clock),
        search_over(state),
    ensures
        cuts_cycles(successors, state.retreating.to_set()),
{
    let cut = state.retreating.to_set();
    assert forall|from: int, to: int| #[trigger]
        leads(successors, from, to) && !cut.contains((from, to)) implies rank(to)
        < rank(from) by {
        let j = choose|j: int| 0 <= j < successors[from].len() && successors[from][j] == to;
        assert(state.marks[from] != Mark::White);
        assert(state.marks[from] == Mark::Black);
        assert(successors[from][j] == to);
    }
    assert(ranks(successors, cut, rank));
}

/// The search comes to an end, and what it has found cuts the cycles.
proof fn lemma_search_ends(
    successors: Seq<Seq<int>>,
    steps: nat,
    rank: spec_fn(int) -> int,
    clock: int,
)
    requires
        search_ok(successors, search_after(successors, steps), rank, clock),
    ensures
        cuts_cycles(successors, found_edges(successors).to_set()),
    decreases
            white_count(search_after(successors, steps).marks),
            successors.len() - search_after(successors, steps).root,
            path_weight(successors, search_after(successors, steps).path),
{
    let state = search_after(successors, steps);
    let after = search_step(successors, state);
    assert(search_after(successors, steps + 1) == after);
    lemma_path_weight_natural(successors, state.path);
    if search_over(state) {
        lemma_found(successors, steps);
        lemma_over_cuts(successors, state, rank, clock);
    } else if state.path.len() == 0 {
        lemma_root_step_ok(successors, state, rank, clock);
        if state.marks[state.root] == Mark::White {
            lemma_white_count_update(state.marks, state.root, Mark::Gray);
        }
        lemma_search_ends(successors, steps + 1, rank, clock);
    } else {
        let (node, taken) = state.path.last();
        assert(state.path[state.path.len() - 1] == (node, taken));
        if taken < successors[node].len() {
            let next = successors[node][taken];
            lemma_visit_step_ok(successors, state, rank, clock);
            lemma_path_weight_natural(successors, after.path);
            assert(state.path.drop_last().push((node, taken + 1)).drop_last()
                =~= state.path.drop_last());
            if state.marks[next] == Mark::White {
                lemma_white_count_update(state.marks, next, Mark::Gray);
            }
            lemma_search_ends(successors, steps + 1, rank, clock);
        } else {
            lemma_finish_step_ok(successors, state, rank, clock);
            lemma_path_weight_natural(successors, after.path);
            lemma_white_count_update(state.marks, node, Mark::Black);
            lemma_search_ends(successors, steps + 1, finished(rank, node, clock), clock + 1);
        }
    }
}

/// Searches a graph for its retreating edges.
fn search(lists: &Vec<Vec<usize>>) -> (found: Vec<(usize, usize)>)
    requires
        in_range(lists_model(lists@)),
    ensures
        edges_model(found@) == found_edges(lists_model(lists@)),
{
    let count: usize = lists.len();
    let ghost successors = lists_model(lists@);
    let mut marks: Vec<Mark> = Vec::new();
    for i in 0..count
        invariant
            marks@.len() == i,
            forall|j: int| 0 <= j < i ==> #[trigger] marks@[j] == Mark::White,
    {
        marks.push(Mark::White);
    }
    let mut path: Vec<(usize, usize)> = Vec::new();
    let mut root: usize = 0;
    let mut found: Vec<(usize, usize)> = Vec::new();
    let ghost mut steps: nat = 0;
    let ghost mut rank: spec_fn(int) -> int = |v: int| 0;
    let ghost mut clock: int = 0;
    let ghost mut state = search_start(count as nat);
    proof {
        assert(marks@ =~= state.marks);
        assert(edges_model(path@) =~= state.path);
        assert(edges_model(found@) =~= state.retreating);
        lemma_start_ok(successors);
    }
    while path.len() > 0 || root < count
        invariant
            count == lists@.len(),
            successors == lists_model(lists@),
            state == search_after(successors, steps),
            search_ok(successors, state, rank, clock),
            marks@ == state.marks,
            edges_model(path@) == state.path,
            root == state.root,
            edges_model(found@) == state.retreating,
        decreases white_count(state.marks), count - root, path_weight(successors, state.path),
    {
        let ghost before = state;
        proof {
            steps = steps + 1;
            state = search_step(successors, before);
            assert(search_after(successors, steps) == state);
            assert(path@.len() == before.path.len());
            assert forall|i: int| 0 <= i < before.path.len() implies (
            #[trigger] before.path[i]).1 <= successors[before.path[i].0].len() by {}
            lemma_path_weight_natural(successors, before.path);
        }
        if path.len() == 0 {
            proof {
                lemma_root_step_ok(successors, before, rank, clock);
            }
            if marks[root] == Mark::White {
                proof {
                    lemma_white_count_update(before.marks, root as int, Mark::Gray);
                }
                marks.set(root, Mark::Gray);
                path.push((root, 0));
                assert(edges_model(path@) =~= state.path);
            } else {
                root = root + 1;
            }
        } else {
            let top: usize = path.len() - 1;
            let (node, taken): (usize, usize) = path[top];
            proof {
                assert(before.path[top as int] == (node as int, taken as int));
                assert(before.path.last() == before.path[top as int]);
                assert(successors[node as int].len() == lists@[node as int]@.len());
            }
            if taken < lists[node].len() {
                let next: usize = lists[node][taken];
                proof {
                    lemma_visit_step_ok(successors, before, rank, clock);
                    assert(successors[node as int][taken as int] == next);
                }
                path.set(top, (node, taken + 1));
                let ghost advanced = before.path.drop_last().push((node as int, taken + 1));
                assert(edges_model(path@) =~= advanced);
                assert(advanced.drop_last() =~= before.path.drop_last());
                match marks[next] {
                    Mark::Gray => {
                        found.push((node, next));
                        assert(edges_model(found@) =~= state.retreating);
                    },
                    Mark::White => {
                        proof {
                            lemma_white_count_update(before.marks, next as int, Mark::Gray);
                        }
                        marks.set(next, Mark::Gray);
                        path.push((next, 0));
                        assert(edges_model(path@) =~= state.path);
                    },
                    Mark::Black => {},
                }
            } else {
                proof {
                    lemma_finish_step_ok(successors, before, rank, clock);
                    lemma_white_count_update(before.marks, node as int, Mark::Black);
                    rank = finished(rank, node as int, clock);
                    clock = clock + 1;
                }
                marks.set(node, Mark::Black);
                let _top = path.pop();
                assert(edges_model(path@) =~= state.path);
            }
            proof {
                assert forall|i: int| 0 <= i < state.path.len() implies (
                #[trigger] state.path[i]).1 <= successors[state.path[i].0].len() by {}
                lemma_path_weight_natural(successors, state.path);
            }
        }
    }
    proof {
        assert(path@.len() == state.path.len());
        lemma_found(successors, steps);
    }
    found
}

/// Where an edge stands or would stand in an ascending list.
fn place_of(edges: &Vec<(usize, usize)>, edge: (usize, usize)) -> (at: usize)
    requires
        ascending(edges@),
    ensures
        at <= edges@.len(),
        forall|i: int| 0 <= i < at ==> precedes(#[trigger] edges@[i], edge),
        forall|i: int| at <= i < edges@.len() ==> !precedes(#[trigger] edges@[i], edge),
{
    let mut low: usize = 0;
    let mut high: usize = edges.len();
    while low < high
        invariant
            ascending(edges@),
            low <= high <= edges@.len(),
            forall|i: int| 0 <= i < low ==> precedes(#[trigger] edges@[i], edge),
            forall|i: int| high <= i < edges@.len() ==> !precedes(#[trigger] edges@[i], edge),
        decreases high - low,
    {
        let middle: usize = low + (high - low) / 2;
        let (from, to): (usize, usize) = edges[middle];
        if from < edge.0 || (from == edge.0 && to < edge.1) {
            low = middle + 1;
        } else {
            high = middle;
        }
    }
    low
}

/// The edges of a list, in order and each once.
fn in_order(found: &Vec<(usize, usize)>) -> (edges: Vec<(usize, usize)>)
    ensures
        ascending(edges@),
        edge_set(edges@) == edge_set(found@),
{
    let mut edges: Vec<(usize, usize)> = Vec::new();
    for e in 0..found.len()
        invariant
            ascending(edges@),
            forall|edge: (usize, usize)|
                #![trigger edges@.contains(edge)]
                edges@.contains(edge) <==> found@.take(e as int).contains(edge),
    {
        let edge: (usize, usize) = found[e];
        let at: usize = place_of(&edges, edge);
        let ghost before = edges@;
        let ghost taken = found@.take(e as int);
        let ghost next = found@.take(e + 1);
        assert(next =~= taken.push(edge));
        if at == edges.len() || edges[at].0 != edge.0 || edges[at].1 != edge.1 {
            edges.insert(at, edge);
            assert forall|own: (usize, usize)|
                #![trigger edges@.contains(own)]
                edges@.contains(own) <==> before.contains(own) || own == edge by {
                assert(edges@[at as int] == edge);
                if before.contains(own) {
                    let i = choose|i: int| 0 <= i < before.len() && before[i] == own;
                    assert(edges@[if i < at { i } else { i + 1 }] == own);
                }
            }
        }
        assert forall|own: (usize, usize)|
            #![trigger edges@.contains(own)]
            edges@.contains(own) <==> next.contains(own) by {
            assert(taken.contains(own) <==> before.contains(own));
            assert(next[e as int] == edge);
            if taken.contains(own) {
                let i = choose|i: int| 0 <= i < taken.len() && taken[i] == own;
                assert(next[i] == own);
            }
        }
    }
    proof {
        assert(found@.take(found@.len() as int) =~= found@);
        lemma_same_edges(edges@, found@);
    }
    edges
}

/// Lists with the same members have the same edges.
proof fn lemma_same_edges(edges: Seq<(usize, usize)>, others: Seq<(usize, usize)>)
    requires
        forall|edge: (usize, usize)|
            #![trigger edges.contains(edge)]
            edges.contains(edge) <==> others.contains(edge),
    ensures
        edge_set(edges) == edge_set(others),
{
    assert forall|edge: (int, int)| edge_set(edges).contains(edge) implies edge_set(
        others,
    ).contains(edge) by {
        let i = choose|i: int| 0 <= i < edges.len() && edges_model(edges)[i] == edge;
        assert(edges.contains(edges[i]));
        let j = choose|j: int| 0 <= j < others.len() && others[j] == edges[i];
        assert(edges_model(others)[j] == edge);
    }
    assert forall|edge: (int, int)| edge_set(others).contains(edge) implies edge_set(
        edges,
    ).contains(edge) by {
        let i = choose|i: int| 0 <= i < others.len() && edges_model(others)[i] == edge;
        assert(others.contains(others[i]));
        assert(edges.contains(others[i]));
        let j = choose|j: int| 0 <= j < edges.len() && edges[j] == others[i];
        assert(edges_model(edges)[j] == edge);
    }
    assert(edge_set(edges) =~= edge_set(others));
}

/// The predicates that a clause derives from predicate `from`: its head, once
/// for each of the first `upto` premises that is `from`.
pub open spec fn clause_successors(clause: ClauseModel, from: int, upto: nat) -> Seq<int>
    decreases upto,
{
    if upto == 0 {
        Seq::empty()
    } else {
        let front = clause_successors(clause, from, (upto - 1) as nat);
        match clause.head {
            HeadModel::Predicate(head) if clause.atoms[upto - 1].predicate.index == from => front.push(
                head.predicate.index as int,
            ),
            _ => front,
        }
    }
}

/// The predicates that the clauses derive from predicate `from`, clause by
/// clause.
pub open spec fn successor_list(clauses: Seq<ClauseModel>, from: int) -> Seq<int>
    decreases clauses.len(),
{
    if clauses.len() == 0 {
        Seq::empty()
    } else {
        successor_list(clauses.drop_last(), from) + clause_successors(
            clauses.last(),
            from,
            clauses.last().atoms.len(),
        )
    }
}

/// The successor lists of the predicate dependency graph.
pub open spec fn dependency_lists(problem: ProblemModel) -> Seq<Seq<int>> {
    Seq::new(problem.predicates.len(), |from: int| successor_list(problem.clauses, from))
}

/// The retreating edges of the predicate dependency graph.
pub open spec fn retreating_edges(problem: ProblemModel) -> Set<(int, int)> {
    found_edges(dependency_lists(problem)).to_set()
}

proof fn lemma_clause_successors(clause: ClauseModel, from: int, upto: nat)
    requires
        upto <= clause.atoms.len(),
    ensures
        forall|to: int|
            #![trigger clause_successors(clause, from, upto).contains(to)]
            clause_successors(clause, from, upto).contains(to) <==> (clause.head matches HeadModel::Predicate(
                head,
            ) && head.predicate.index == to) && exists|j: int|
                0 <= j < upto && (#[trigger] clause.atoms[j]).predicate.index == from,
    decreases upto,
{
    if upto > 0 {
        let before = (upto - 1) as nat;
        lemma_clause_successors(clause, from, before);
        let front = clause_successors(clause, from, before);
        let all = clause_successors(clause, from, upto);
        assert forall|to: int|
            #![trigger all.contains(to)]
            all.contains(to) <==> (clause.head matches HeadModel::Predicate(head)
                && head.predicate.index == to) && exists|j: int|
                0 <= j < upto && (#[trigger] clause.atoms[j]).predicate.index == from by {
            if all.len() > front.len() {
                assert(all.last() == clause.head->Predicate_0.predicate.index as int);
                assert(all =~= front.push(all.last()));
                if front.contains(to) {
                    let i = choose|i: int| 0 <= i < front.len() && front[i] == to;
                    assert(all[i] == to);
                }
                if all.contains(to) {
                    let i = choose|i: int| 0 <= i < all.len() && all[i] == to;
                    if i < front.len() {
                        assert(front[i] == to);
                    }
                }
                assert(clause.atoms[before as int].predicate.index == from);
                if to == all.last() {
                    assert(all[all.len() - 1] == to);
                }
            }
        }
    }
}

/// The successor list of a predicate holds exactly what depends on it.
proof fn lemma_successor_list(clauses: Seq<ClauseModel>, from: int)
    ensures
        forall|to: int|
            #![trigger successor_list(clauses, from).contains(to)]
            successor_list(clauses, from).contains(to) <==> exists|i: int|
                0 <= i < clauses.len() && clause_edge(#[trigger] clauses[i], from, to),
    decreases clauses.len(),
{
    if clauses.len() > 0 {
        let front = clauses.drop_last();
        lemma_successor_list(front, from);
        let last = clauses.last();
        lemma_clause_successors(last, from, last.atoms.len());
        let before = successor_list(front, from);
        let own = clause_successors(last, from, last.atoms.len());
        let all = successor_list(clauses, from);
        assert(all == before + own);
        assert forall|to: int|
            #![trigger all.contains(to)]
            all.contains(to) <==> exists|i: int|
                0 <= i < clauses.len() && clause_edge(#[trigger] clauses[i], from, to) by {
            lemma_concat_contains(before, own, to);
            assert(own.contains(to) <==> clause_edge(last, from, to));
            if before.contains(to) {
                let i = choose|i: int|
                    0 <= i < front.len() && clause_edge(#[trigger] front[i], from, to);
                assert(clause_edge(clauses[i], from, to));
            }
            if own.contains(to) {
                assert(clause_edge(clauses[clauses.len() - 1], from, to));
            }
            if exists|i: int|
                0 <= i < clauses.len() && clause_edge(#[trigger] clauses[i], from, to) {
                let i = choose|i: int|
                    0 <= i < clauses.len() && clause_edge(#[trigger] clauses[i], from, to);
                if i < front.len() {
                    assert(clause_edge(front[i], from, to));
                }
            }
        }
    }
}

proof fn lemma_concat_contains(left: Seq<int>, right: Seq<int>, item: int)
    ensures
        (left + right).contains(item) <==> left.contains(item) || right.contains(item),
{
    let all = left + right;
    if left.contains(item) {
        let i = choose|i: int| 0 <= i < left.len() && left[i] == item;
        assert(all[i] == item);
    }
    if right.contains(item) {
        let i = choose|i: int| 0 <= i < right.len() && right[i] == item;
        assert(all[left.len() + i] == item);
    }
    if all.contains(item) {
        let i = choose|i: int| 0 <= i < all.len() && all[i] == item;
        if i < left.len() {
            assert(left[i] == item);
        } else {
            assert(right[i - left.len()] == item);
        }
    }
}

/// The successor lists hold exactly the dependencies.
pub proof fn lemma_dependencies(problem: ProblemModel)
    requires
        problem.names_declared(),
    ensures
        in_range(dependency_lists(problem)),
        forall|from: int, to: int| #[trigger]
            leads(dependency_lists(problem), from, to) <==> depends(problem, from, to),
{
    let lists = dependency_lists(problem);
    assert forall|from: int, to: int| #[trigger] leads(lists, from, to) <==> depends(
        problem,
        from,
        to,
    ) by {
        lemma_successor_list(problem.clauses, from);
        if depends(problem, from, to) {
            let i = choose|i: int|
                0 <= i < problem.clauses.len() && clause_edge(
                    #[trigger] problem.clauses[i],
                    from,
                    to,
                );
            let clause = problem.clauses[i];
            assert(clause.names_declared(problem.predicates.len()));
            let j = choose|j: int|
                0 <= j < clause.atoms.len() && (#[trigger] clause.atoms[j]).predicate.index == from;
            assert(clause.atoms[j].predicate.index < problem.predicates.len());
        }
    }
    assert forall|v: int, j: int| 0 <= v < lists.len() && 0 <= j < lists[v].len() implies 0
        <= #[trigger] lists[v][j] < lists.len() by {
        let to = lists[v][j];
        assert(lists[v].contains(to));
        assert(leads(lists, v, to));
        let i = choose|i: int|
            0 <= i < problem.clauses.len() && clause_edge(#[trigger] problem.clauses[i], v, to);
        assert(problem.clauses[i].names_declared(problem.predicates.len()));
    }
}

/// Builds the successor lists of the predicate dependency graph.
fn build_lists(problem: &ChcProblem) -> (lists: Vec<Vec<usize>>)
    requires
        problem@.names_declared(),
    ensures
        lists_model(lists@) == dependency_lists(problem@),
{
    let count: usize = problem.predicates.len();
    let ghost model = problem@;
    let ghost clauses = model.clauses;
    let mut lists: Vec<Vec<usize>> = Vec::new();
    for i in 0..count
        invariant
            lists@.len() == i,
            forall|v: int| 0 <= v < i ==> (#[trigger] lists@[v])@.len() == 0,
    {
        lists.push(Vec::new());
    }
    assert forall|v: int| 0 <= v < count implies #[trigger] lists_model(lists@)[v]
        == successor_list(clauses.take(0), v) by {
        assert(clauses.take(0) =~= Seq::empty());
        assert(lists_model(lists@)[v] =~= Seq::empty());
    }
    for i in 0..problem.clauses.len()
        invariant
            count == problem.predicates@.len(),
            model == problem@,
            model.names_declared(),
            clauses == model.clauses,
            lists@.len() == count,
            forall|v: int|
                0 <= v < count ==> #[trigger] lists_model(lists@)[v] == successor_list(
                    clauses.take(i as int),
                    v,
                ),
    {
        let clause = &problem.clauses[i];
        let ghost own = clause@;
        let ghost before = lists_model(lists@);
        assert(own == clauses[i as int]);
        assert(own.names_declared(count as nat));
        match &clause.head {
            ClauseHead::Predicate(head) => {
                let to: usize = head.predicate.index;
                assert forall|v: int| 0 <= v < count implies #[trigger] lists_model(lists@)[v]
                    == before[v] + clause_successors(own, v, 0) by {
                    assert(lists_model(lists@)[v] =~= before[v] + clause_successors(own, v, 0));
                }
                for j in 0..clause.body.predicates.len()
                    invariant
                        own == clause@,
                        own.names_declared(count as nat),
                        own.head == HeadModel::Predicate(head@),
                        to == head.predicate.index,
                        lists@.len() == count,
                        forall|v: int|
                            0 <= v < count ==> #[trigger] lists_model(lists@)[v] == before[v]
                                + clause_successors(own, v, j as nat),
                {
                    let from: usize = clause.body.predicates[j].predicate.index;
                    assert(own.atoms[j as int].predicate.index == from);
                    assert(from < count);
                    let ghost earlier = lists@;
                    lists[from].push(to);
                    assert forall|v: int| 0 <= v < count implies #[trigger] lists_model(lists@)[v]
                        == before[v] + clause_successors(own, v, (j + 1) as nat) by {
                        assert(lists_model(earlier)[v] == before[v] + clause_successors(
                            own,
                            v,
                            j as nat,
                        ));
                        if v == from {
                            assert(lists_model(lists@)[v] =~= lists_model(earlier)[v].push(
                                to as int,
                            ));
                            assert(lists_model(lists@)[v] =~= before[v] + clause_successors(
                                own,
                                v,
                                (j + 1) as nat,
                            ));
                        } else {
                            assert(lists@[v] == earlier[v]);
                            assert(lists_model(lists@)[v] =~= lists_model(earlier)[v]);
                        }
                    }
                }
            },
            ClauseHead::False => {
                assert forall|v: int| 0 <= v < count implies #[trigger] lists_model(lists@)[v]
                    == before[v] + clause_successors(own, v, own.atoms.len()) by {
                    lemma_clause_successors(own, v, own.atoms.len());
                    let none = clause_successors(own, v, own.atoms.len());
                    if none.len() > 0 {
                        assert(none.contains(none[0]));
                    }
                    assert(lists_model(lists@)[v] =~= before[v] + none);
                }
            },
        }
        let ghost next = clauses.take(i + 1);
        assert(next.drop_last() =~= clauses.take(i as int));
        assert(next.last() == own);
        assert forall|v: int| 0 <= v < count implies #[trigger] lists_model(lists@)[v]
            == successor_list(next, v) by {
            assert(before[v] == successor_list(clauses.take(i as int), v));
        }
    }
    assert(clauses.take(problem.clauses@.len() as int) =~= clauses);
    assert(lists_model(lists@) =~= dependency_lists(problem@));
    lists
}

/// Without its retreating edges a dependency graph has no cycle, and each of them
/// closes one.
pub proof fn law_retreating_edges_cut_cycles(problem: ProblemModel)
    requires
        problem.names_declared(),
    ensures
        cuts_cycles(dependency_lists(problem), retreating_edges(problem)),
{
    let lists = dependency_lists(problem);
    lemma_dependencies(problem);
    lemma_start_ok(lists);
    lemma_search_ends(lists, 0, |v: int| 0, 0);
}

/// A predicate that some clause derives from itself is the end of a retreating
/// edge from itself.
pub proof fn law_self_loops_are_retreating(problem: ProblemModel, predicate: int)
    requires
        problem.names_declared(),
        depends(problem, predicate, predicate),
    ensures
        retreating_edges(problem).contains((predicate, predicate)),
{
    let lists = dependency_lists(problem);
    let cut = retreating_edges(problem);
    lemma_dependencies(problem);
    law_retreating_edges_cut_cycles(problem);
    assert(leads(lists, predicate, predicate));
    let rank = choose|rank: spec_fn(int) -> int| #[trigger] ranks(lists, cut, rank);
    assert(ranks(lists, cut, rank));
}

/// The retreating edges of the predicate dependency graph, in order and each
/// once.
pub fn dfs_retreating_edges(problem: &ChcProblem) -> (edges: Vec<(usize, usize)>)
    requires
        problem@.names_declared(),
    ensures
        ascending(edges@),
        edge_set(edges@) == retreating_edges(problem@),
        cuts_cycles(dependency_lists(problem@), edge_set(edges@)),
        edges@.len() == 0 <==> !has_cycle(problem@),
{
    let lists = build_lists(problem);
    proof {
        lemma_dependencies(problem@);
        law_retreating_edges_cut_cycles(problem@);
        law_cycles_are_found(problem@);
    }
    let found = search(&lists);
    let edges = in_order(&found);
    proof {
        if edges@.len() > 0 {
            assert(edges_model(edges@).contains(edges_model(edges@)[0]));
            assert(retreating_edges(problem@).contains(edges_model(edges@)[0]));
        }
    }
    edges
}

/// Whether a walk along dependencies ranks strictly downwards, where no edge is
/// cut.
proof fn lemma_walk_descends(problem: ProblemModel, rank: spec_fn(int) -> int, walk: Seq<int>)
    requires
        problem.names_declared(),
        ranks(dependency_lists(problem), Set::empty(), rank),
        is_walk(problem, walk),
        walk.len() >= 1,
    ensures
        rank(walk.last()) <= rank(walk[0]) - (walk.len() - 1),
    decreases walk.len(),
{
    if walk.len() > 1 {
        let front = walk.drop_last();
        assert(is_walk(problem, front)) by {
            assert forall|i: int| 0 <= i < front.len() - 1 implies depends(
                problem,
                #[trigger] front[i],
                front[i + 1],
            ) by {
                assert(depends(problem, walk[i], walk[i + 1]));
            }
        }
        lemma_walk_descends(problem, rank, front);
        let at = walk.len() - 2;
        assert(depends(problem, walk[at], walk[at + 1]));
        lemma_dependencies(problem);
        assert(leads(dependency_lists(problem), walk[at], walk[at + 1]));
        assert(front.last() == walk[at]);
    }
}

/// A ranking that every dependency descends rules out cycles.
pub proof fn lemma_ranked_is_acyclic(problem: ProblemModel, rank: spec_fn(int) -> int)
    requires
        problem.names_declared(),
        ranks(dependency_lists(problem), Set::empty(), rank),
    ensures
        !has_cycle(problem),
{
    if has_cycle(problem) {
        let walk = choose|walk: Seq<int>| #[trigger]
            is_walk(problem, walk) && walk.len() >= 2 && walk[0] == walk.last();
        lemma_walk_descends(problem, rank, walk);
    }
}

/// An edge that closes a cycle makes one.
proof fn lemma_closing_edge_is_cycle(problem: ProblemModel, from: int, to: int)
    requires
        problem.names_declared(),
        leads(dependency_lists(problem), from, to),
        reaches(dependency_lists(problem), to, from),
    ensures
        has_cycle(problem),
{
    let lists = dependency_lists(problem);
    let path = choose|path: Seq<int>| #[trigger]
        is_path(lists, path) && path.len() >= 1 && path[0] == to && path.last() == from;
    lemma_dependencies(problem);
    let walk = seq![from] + path;
    assert forall|i: int| 0 <= i < walk.len() - 1 implies depends(
        problem,
        #[trigger] walk[i],
        walk[i + 1],
    ) by {
        if i == 0 {
            assert(walk[1] == to);
        } else {
            assert(leads(lists, path[i - 1], path[i - 1 + 1]));
        }
    }
    assert(is_walk(problem, walk));
    assert(walk.last() == path.last());
}

/// A graph has a cycle exactly where the search finds a retreating edge.
pub proof fn law_cycles_are_found(problem: ProblemModel)
    requires
        problem.names_declared(),
    ensures
        has_cycle(problem) <==> exists|edge: (int, int)| #[trigger]
            retreating_edges(problem).contains(edge),
{
    let cut = retreating_edges(problem);
    law_retreating_edges_cut_cycles(problem);
    if exists|edge: (int, int)| #[trigger] cut.contains(edge) {
        let (from, to) = choose|edge: (int, int)| #[trigger] cut.contains(edge);
        lemma_closing_edge_is_cycle(problem, from, to);
    } else {
        assert(cut =~= Set::empty());
        let rank = choose|rank: spec_fn(int) -> int| #[trigger]
            ranks(dependency_lists(problem), cut, rank);
        lemma_ranked_is_acyclic(problem, rank);
    }
}

impl ChcProblem {
    /// Whether some predicate depends on itself, directly or not.
    pub fn has_cycles(&self) -> (cyclic: bool)
        requires
            self@.names_declared(),
        ensures
            cyclic == has_cycle(self@),
    {
        let edges = dfs_retreating_edges(self);
        edges.len() > 0
    }
}

} // verus!
