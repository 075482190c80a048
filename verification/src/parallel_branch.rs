//! The branches of parallel nodes.

use vstd::prelude::*;
use vstd::string::*;

use crate::graph::{Edge, Graph, Node};
use crate::text::{precedes, same_text, views};
use crate::text_set::{in_order, lists, TextSet};

verus! {

/// The ids of the parallel nodes among `nodes`.
pub open spec fn forks(nodes: Seq<(String, Node)>) -> Set<Seq<char>>
    decreases nodes.len(),
{
    if nodes.len() == 0 {
        Set::empty()
    } else if nodes.last().1.runs("parallel"@) {
        forks(nodes.drop_last()).insert(nodes.last().1.id@)
    } else {
        forks(nodes.drop_last())
    }
}

/// The targets of the edges that leave a fork.
pub open spec fn targets(edges: Seq<Edge>, forks: Set<Seq<char>>) -> Set<Seq<char>>
    decreases edges.len(),
{
    if edges.len() == 0 {
        Set::empty()
    } else if forks.contains(edges.last().from@) {
        targets(edges.drop_last(), forks).insert(edges.last().to@)
    } else {
        targets(edges.drop_last(), forks)
    }
}

/// The sources of the edges into `node`.
pub open spec fn sources(edges: Seq<Edge>, node: Seq<char>) -> Set<Seq<char>>
    decreases edges.len(),
{
    if edges.len() == 0 {
        Set::empty()
    } else if edges.last().to@ == node {
        sources(edges.drop_last(), node).insert(edges.last().from@)
    } else {
        sources(edges.drop_last(), node)
    }
}

/// The forks whose branch a node is, in order, if it only runs as a branch: it has
/// incoming edges, and all of them leave forks.
pub open spec fn parents(
    edges: Seq<Edge>,
    forks: Set<Seq<char>>,
    node: Seq<char>,
) -> Option<Seq<Seq<char>>> {
    let all = sources(edges, node);
    if all == Set::<Seq<char>>::empty() || !all.subset_of(forks) {
        None
    } else {
        Some(in_order(all))
    }
}

/// The parallel nodes of a graph and their branches.
pub struct ParallelBranches<'a> {
    graph: &'a Graph,
    fork_ids: TextSet,
}

impl<'a> ParallelBranches<'a> {
    /// The graph.
    pub closed spec fn of(self) -> Graph {
        *self.graph
    }

    /// The forks are those of the graph.
    #[verifier::type_invariant]
    spec fn wf(self) -> bool {
        self.fork_ids@ == forks(self.graph.nodes.listed())
    }

    /// The ids of the parallel nodes.
    pub open spec fn fork_set(self) -> Set<Seq<char>> {
        forks(self.of().nodes.listed())
    }

    /// Looks up the parallel nodes of a graph.
    pub fn new(graph: &'a Graph) -> (r: Self)
        ensures
            r.of() == *graph,
    {
        let mut fork_ids = TextSet::new();
        let ghost nodes = graph.nodes.listed();
        let mut i: usize = 0;
        proof {
            assert(nodes.take(0).len() == 0);
        }
        while i < graph.nodes.len()
            invariant
                nodes == graph.nodes.listed(),
                i <= nodes.len(),
                fork_ids@ == forks(nodes.take(i as int)),
            decreases nodes.len() - i,
        {
            let node = graph.nodes.value(i);
            proof {
                assert(nodes.take(i + 1).drop_last() =~= nodes.take(i as int));
                assert(nodes.take(i + 1).last() == nodes[i as int]);
            }
            if node.is_run_by("parallel") {
                fork_ids.insert(node.id.as_str());
            }
            i += 1;
        }
        proof {
            assert(nodes.take(nodes.len() as int) =~= nodes);
        }
        ParallelBranches { graph, fork_ids }
    }

    /// Whether the graph has no parallel nodes.
    pub fn is_empty(&self) -> (b: bool)
        ensures
            b == (self.fork_set() == Set::<Seq<char>>::empty()),
    {
        proof {
            use_type_invariant(self);
        }
        self.fork_ids.is_empty()
    }

    /// Whether an edge leaves a parallel node.
    pub fn is_fork_edge(&self, edge: &Edge) -> (b: bool)
        ensures
            b == self.fork_set().contains(edge.from@),
    {
        proof {
            use_type_invariant(self);
        }
        self.fork_ids.contains(edge.from.as_str())
    }

    /// The nodes that some branch leads to, in order.
    pub fn branch_targets(&self) -> (r: Vec<String>)
        ensures
            views(r@) == in_order(targets(self.of().edges@, self.fork_set())),
            lists(views(r@), targets(self.of().edges@, self.fork_set())),
    {
        let mut found = TextSet::new();
        let ghost edges = self.graph.edges@;
        let ghost forks = self.fork_set();
        let mut i: usize = 0;
        proof {
            assert(edges.take(0).len() == 0);
        }
        while i < self.graph.edges.len()
            invariant
                edges == self.graph.edges@,
                forks == self.fork_set(),
                i <= edges.len(),
                found@ == targets(edges.take(i as int), forks),
            decreases edges.len() - i,
        {
            let edge = &self.graph.edges[i];
            proof {
                assert(edges.take(i + 1).drop_last() =~= edges.take(i as int));
                assert(edges.take(i + 1).last() == edges[i as int]);
            }
            if self.is_fork_edge(edge) {
                found.insert(edge.to.as_str());
            }
            i += 1;
        }
        proof {
            assert(edges.take(edges.len() as int) =~= edges);
        }
        found.into_vec()
    }

    /// The forks whose branch a node is, in order, if it only runs as a branch.
    pub fn branch_only_parents(&self, node_id: &str) -> (r: Option<Vec<String>>)
        ensures
            match r {
                Some(list) => parents(self.of().edges@, self.fork_set(), node_id@) == Some(
                    views(list@),
                ),
                None => parents(self.of().edges@, self.fork_set(), node_id@) is None,
            },
    {
        let mut found = TextSet::new();
        let ghost edges = self.graph.edges@;
        let ghost forks = self.fork_set();
        let mut i: usize = 0;
        proof {
            assert(edges.take(0).len() == 0);
        }
        while i < self.graph.edges.len()
            invariant
                edges == self.graph.edges@,
                edges == self.of().edges@,
                forks == self.fork_set(),
                i <= edges.len(),
                found@ == sources(edges.take(i as int), node_id@),
                found@.subset_of(forks),
            decreases edges.len() - i,
        {
            let edge = &self.graph.edges[i];
            proof {
                assert(edges.take(i + 1).drop_last() =~= edges.take(i as int));
                assert(edges.take(i + 1).last() == edges[i as int]);
            }
            if same_text(edge.to.as_str(), node_id) {
                if !self.is_fork_edge(edge) {
                    proof {
                        lemma_sources(edges, i + 1, node_id@);
                        assert(sources(edges.take(i + 1), node_id@).contains(edge.from@));
                        assert(sources(edges, node_id@).contains(edge.from@));
                    }
                    return None;
                }
                found.insert(edge.from.as_str());
            }
            i += 1;
        }
        proof {
            assert(edges.take(edges.len() as int) =~= edges);
        }
        if found.is_empty() {
            return None;
        }
        Some(found.into_vec())
    }

    /// Whether a node only runs as a branch.
    pub fn is_branch_only_node(&self, node_id: &str) -> (b: bool)
        ensures
            b == (parents(self.of().edges@, self.fork_set(), node_id@) is Some),
    {
        self.branch_only_parents(node_id).is_some()
    }
}

/// More edges have more sources.
proof fn lemma_sources(edges: Seq<Edge>, n: int, node: Seq<char>)
    requires
        0 <= n <= edges.len(),
    ensures
        sources(edges.take(n), node).subset_of(sources(edges, node)),
    decreases edges.len() - n,
{
    if n < edges.len() {
        lemma_sources(edges, n + 1, node);
        assert(edges.take(n + 1).drop_last() =~= edges.take(n));
    } else {
        assert(edges.take(n) =~= edges);
    }
}

// ---- What the branches of a graph are ----

/// The node at `i` is a parallel one with this id.
pub open spec fn is_parallel_at(graph: Graph, i: int, id: Seq<char>) -> bool {
    &&& 0 <= i < graph.nodes.listed().len()
    &&& graph.nodes.listed()[i].1.id@ == id
    &&& graph.nodes.listed()[i].1.handler_type matches Some(handler) && handler@ == "parallel"@
}

/// Some parallel node of the graph has this id.
pub open spec fn is_parallel(graph: Graph, id: Seq<char>) -> bool {
    exists|i: int| #[trigger] is_parallel_at(graph, i, id)
}

/// Some edge leads to the node, and every edge that does leaves a parallel node.
pub open spec fn runs_as_a_branch_only(graph: Graph, id: Seq<char>) -> bool {
    &&& exists|k: int| 0 <= k < graph.edges@.len() && (#[trigger] graph.edges@[k]).to@ == id
    &&& forall|k: int|
        0 <= k < graph.edges@.len() && (#[trigger] graph.edges@[k]).to@ == id ==> is_parallel(
            graph,
            graph.edges@[k].from@,
        )
}

/// The forks of a graph are its parallel nodes.
pub proof fn forks_are_the_parallel_nodes(graph: Graph, id: Seq<char>)
    ensures
        forks(graph.nodes.listed()).contains(id) <==> is_parallel(graph, id),
{
    lemma_forks(graph.nodes.listed(), id);
    let nodes = graph.nodes.listed();
    if forks(nodes).contains(id) {
        let i = choose|i: int|
            0 <= i < nodes.len() && (#[trigger] nodes[i]).1.id@ == id && nodes[i].1.runs(
                "parallel"@,
            );
        assert(is_parallel_at(graph, i, id));
    }
    if is_parallel(graph, id) {
        let i = choose|i: int| #[trigger] is_parallel_at(graph, i, id);
        assert(nodes[i].1.runs("parallel"@));
    }
}

proof fn lemma_forks(nodes: Seq<(String, Node)>, id: Seq<char>)
    ensures
        forks(nodes).contains(id) <==> exists|i: int|
            0 <= i < nodes.len() && (#[trigger] nodes[i]).1.id@ == id && nodes[i].1.runs(
                "parallel"@,
            ),
    decreases nodes.len(),
{
    if nodes.len() > 0 {
        let init = nodes.drop_last();
        lemma_forks(init, id);
        assert(nodes[nodes.len() - 1] == nodes.last());
        assert forall|i: int| 0 <= i < init.len() implies #[trigger] init[i] == nodes[i] by {}
        if forks(init).contains(id) {
            let i = choose|i: int|
                0 <= i < init.len() && (#[trigger] init[i]).1.id@ == id && init[i].1.runs(
                    "parallel"@,
                );
            assert(nodes[i] == init[i]);
        }
        if exists|i: int|
            0 <= i < nodes.len() && (#[trigger] nodes[i]).1.id@ == id && nodes[i].1.runs(
                "parallel"@,
            ) {
            let i = choose|i: int|
                0 <= i < nodes.len() && (#[trigger] nodes[i]).1.id@ == id && nodes[i].1.runs(
                    "parallel"@,
                );
            if i < init.len() {
                assert(init[i] == nodes[i]);
            }
        }
    }
}

proof fn lemma_target(edges: Seq<Edge>, forks: Set<Seq<char>>, to: Seq<char>)
    ensures
        targets(edges, forks).contains(to) <==> exists|i: int|
            0 <= i < edges.len() && (#[trigger] edges[i]).to@ == to && forks.contains(
                edges[i].from@,
            ),
    decreases edges.len(),
{
    if edges.len() > 0 {
        let init = edges.drop_last();
        lemma_target(init, forks, to);
        assert(edges[edges.len() - 1] == edges.last());
        assert forall|i: int| 0 <= i < init.len() implies #[trigger] init[i] == edges[i] by {}
        if targets(init, forks).contains(to) {
            let i = choose|i: int|
                0 <= i < init.len() && (#[trigger] init[i]).to@ == to && forks.contains(
                    init[i].from@,
                );
            assert(edges[i] == init[i]);
        }
        if exists|i: int|
            0 <= i < edges.len() && (#[trigger] edges[i]).to@ == to && forks.contains(
                edges[i].from@,
            ) {
            let i = choose|i: int|
                0 <= i < edges.len() && (#[trigger] edges[i]).to@ == to && forks.contains(
                    edges[i].from@,
                );
            if i < init.len() {
                assert(init[i] == edges[i]);
            }
        }
    }
}

proof fn lemma_source(edges: Seq<Edge>, node: Seq<char>, from: Seq<char>)
    ensures
        sources(edges, node).contains(from) <==> exists|i: int|
            0 <= i < edges.len() && (#[trigger] edges[i]).to@ == node && edges[i].from@ == from,
        sources(edges, node).finite(),
    decreases edges.len(),
{
    if edges.len() > 0 {
        let init = edges.drop_last();
        lemma_source(init, node, from);
        assert(edges[edges.len() - 1] == edges.last());
        assert forall|i: int| 0 <= i < init.len() implies #[trigger] init[i] == edges[i] by {}
        if sources(init, node).contains(from) {
            let i = choose|i: int|
                0 <= i < init.len() && (#[trigger] init[i]).to@ == node && init[i].from@ == from;
            assert(edges[i] == init[i]);
        }
        if exists|i: int|
            0 <= i < edges.len() && (#[trigger] edges[i]).to@ == node && edges[i].from@ == from {
            let i = choose|i: int|
                0 <= i < edges.len() && (#[trigger] edges[i]).to@ == node && edges[i].from@ == from;
            if i < init.len() {
                assert(init[i] == edges[i]);
            }
        }
    }
}

/// An edge is a branch exactly if it leaves a parallel node, and a graph has branches to
/// look for exactly if it has a parallel node.
pub proof fn branches_leave_parallel_nodes(
    graph: &Graph,
    branches: ParallelBranches,
    edge: &Edge,
    b: bool,
    empty: bool,
    id: Seq<char>,
)
    requires
        call_ensures(ParallelBranches::new, (graph,), branches),
        call_ensures(ParallelBranches::is_fork_edge, (&branches, edge), b),
        call_ensures(ParallelBranches::is_empty, (&branches,), empty),
    ensures
        b <==> is_parallel(*graph, edge.from@),
        is_parallel(*graph, id) ==> !empty,
        !empty ==> exists|some: Seq<char>| #[trigger] is_parallel(*graph, some),
{
    forks_are_the_parallel_nodes(*graph, edge.from@);
    forks_are_the_parallel_nodes(*graph, id);
    let all = forks(graph.nodes.listed());
    if !empty {
        if forall|some: Seq<char>| !all.contains(some) {
            assert(all =~= Set::<Seq<char>>::empty());
        }
        let some = choose|some: Seq<char>| all.contains(some);
        forks_are_the_parallel_nodes(*graph, some);
    }
}

/// The targets of branches are the nodes that an edge from a parallel node leads to, each
/// of them once and in the order of their ids.
pub proof fn branches_lead_to_their_targets(
    graph: &Graph,
    branches: ParallelBranches,
    r: Vec<String>,
    id: Seq<char>,
    i: int,
    j: int,
)
    requires
        call_ensures(ParallelBranches::new, (graph,), branches),
        call_ensures(ParallelBranches::branch_targets, (&branches,), r),
    ensures
        (exists|k: int| 0 <= k < r@.len() && #[trigger] r@[k]@ == id) <==> exists|k: int|
            0 <= k < graph.edges@.len() && (#[trigger] graph.edges@[k]).to@ == id && is_parallel(
                *graph,
                graph.edges@[k].from@,
            ),
        0 <= i < j < r@.len() ==> precedes(r@[i]@, r@[j]@),
{
    let all = forks(graph.nodes.listed());
    let names = views(r@);
    lemma_target(graph.edges@, all, id);
    assert forall|from: Seq<char>| #[trigger] all.contains(from) == is_parallel(*graph, from) by {
        forks_are_the_parallel_nodes(*graph, from);
    }
    assert(names.to_set().contains(id) <==> exists|k: int|
        0 <= k < r@.len() && #[trigger] r@[k]@ == id) by {
        if names.to_set().contains(id) {
            let k = choose|k: int| 0 <= k < names.len() && names[k] == id;
            assert(r@[k]@ == id);
        }
        if exists|k: int| 0 <= k < r@.len() && #[trigger] r@[k]@ == id {
            let k = choose|k: int| 0 <= k < r@.len() && #[trigger] r@[k]@ == id;
            assert(names[k] == id);
        }
    }
    if targets(graph.edges@, all).contains(id) {
        let k = choose|k: int|
            0 <= k < graph.edges@.len() && (#[trigger] graph.edges@[k]).to@ == id && all.contains(
                graph.edges@[k].from@,
            );
        assert(is_parallel(*graph, graph.edges@[k].from@));
    }
    if exists|k: int|
        0 <= k < graph.edges@.len() && (#[trigger] graph.edges@[k]).to@ == id && is_parallel(
            *graph,
            graph.edges@[k].from@,
        ) {
        let k = choose|k: int|
            0 <= k < graph.edges@.len() && (#[trigger] graph.edges@[k]).to@ == id && is_parallel(
                *graph,
                graph.edges@[k].from@,
            );
        assert(all.contains(graph.edges@[k].from@));
    }
    if 0 <= i < j < r@.len() {
        assert(names[i] == r@[i]@ && names[j] == r@[j]@);
    }
}

/// A node only runs as a branch exactly if some edge leads to it and every edge that does
/// leaves a parallel node; its parents are then the nodes that those edges leave.
pub proof fn branch_nodes_are_reached_from_parallel_nodes_only(
    graph: &Graph,
    branches: ParallelBranches,
    node: &str,
    b: bool,
    r: Option<Vec<String>>,
    from: Seq<char>,
)
    requires
        call_ensures(ParallelBranches::new, (graph,), branches),
        call_ensures(ParallelBranches::is_branch_only_node, (&branches, node), b),
        call_ensures(ParallelBranches::branch_only_parents, (&branches, node), r),
    ensures
        b <==> r is Some,
        b <==> runs_as_a_branch_only(*graph, node@),
        r matches Some(list) ==> ((exists|k: int|
            0 <= k < list@.len() && #[trigger] list@[k]@ == from) <==> exists|k: int|
            0 <= k < graph.edges@.len() && (#[trigger] graph.edges@[k]).to@ == node@
                && graph.edges@[k].from@ == from),
{
    let into = sources(graph.edges@, node@);
    lemma_source(graph.edges@, node@, from);
    branch_nodes_have_parents(*graph, node@);
    if let Some(list) = r {
        crate::text_set::a_finite_set_is_listed_in_order(into);
        let names = views(list@);
        assert(names.to_set() == into);
        if names.to_set().contains(from) {
            let k = choose|k: int| 0 <= k < names.len() && names[k] == from;
            assert(list@[k]@ == from);
        }
        if exists|k: int| 0 <= k < list@.len() && #[trigger] list@[k]@ == from {
            let k = choose|k: int| 0 <= k < list@.len() && #[trigger] list@[k]@ == from;
            assert(names[k] == from);
        }
    }
}

/// A node has the parents of a branch exactly if it only runs as one.
pub proof fn branch_nodes_have_parents(graph: Graph, id: Seq<char>)
    ensures
        parents(graph.edges@, forks(graph.nodes.listed()), id) is Some <==> runs_as_a_branch_only(
            graph,
            id,
        ),
{
    let all = forks(graph.nodes.listed());
    let edges = graph.edges@;
    let into = sources(edges, id);
    assert forall|k: int| 0 <= k < edges.len() && (#[trigger] edges[k]).to@ == id implies into.contains(
        edges[k].from@,
    ) by {
        lemma_source(edges, id, edges[k].from@);
    }
    assert forall|k: int| 0 <= k < edges.len() implies all.contains((#[trigger] edges[k]).from@)
        == is_parallel(graph, edges[k].from@) by {
        forks_are_the_parallel_nodes(graph, edges[k].from@);
    }
    if into != Set::<Seq<char>>::empty() {
        if forall|from: Seq<char>| !into.contains(from) {
            assert(into =~= Set::<Seq<char>>::empty());
        }
        let from = choose|from: Seq<char>| into.contains(from);
        lemma_source(edges, id, from);
    }
    if !into.subset_of(all) {
        let from = choose|from: Seq<char>| into.contains(from) && !all.contains(from);
        lemma_source(edges, id, from);
    }
}

} // verus!
