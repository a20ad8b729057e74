//! The dependency graph and the conflict detector: a directed graph of
//! package names, and a pairwise scan that flags every dependency with a
//! pending upgrade as a potential compatibility risk for its dependents.

use vstd::prelude::*;
use vstd::string::*;
use petgraph::graph::DiGraph;
use crate::models::Package;
use crate::text::{lex_lt, str_eq, str_lt};

verus! {

/// A heuristic warning that upgrading a dependency may affect a dependent.
#[derive(Debug, Clone)]
pub struct Conflict {
    pub package: String,
    pub reason: String,
    pub current: String,
    pub required: String,
}

/// The abstract value of a `Conflict`: its fields as character sequences.
pub struct ConflictView {
    pub package: Seq<char>,
    pub reason: Seq<char>,
    pub current: Seq<char>,
    pub required: Seq<char>,
}

impl View for Conflict {
    type V = ConflictView;

    open spec fn view(&self) -> ConflictView {
        ConflictView {
            package: self.package@,
            reason: self.reason@,
            current: self.current@,
            required: self.required@,
        }
    }
}

#[verifier::external_type_specification]
#[verifier::external_body]
#[verifier::reject_recursive_types(N)]
#[verifier::reject_recursive_types(E)]
#[verifier::reject_recursive_types(Ty)]
#[verifier::reject_recursive_types(Ix)]
pub struct ExGraph<N, E, Ty, Ix>(petgraph::graph::Graph<N, E, Ty, Ix>);

#[verifier::external_type_specification]
#[verifier::external_body]
pub struct ExDirected(petgraph::Directed);

/// What the graph's nodes hold, in insertion order.
pub uninterp spec fn graph_node_names(g: DiGraph<String, ()>) -> Seq<Seq<char>>;

/// The graph's directed edges as (source, target) node indices, in
/// insertion order.
pub uninterp spec fn graph_edge_pairs(g: DiGraph<String, ()>) -> Seq<(usize, usize)>;

/// Relies on `Graph::new`: the fresh graph has no nodes and no edges.
#[verifier::external_body]
fn graph_new() -> (g: DiGraph<String, ()>)
    ensures
        graph_node_names(g) == Seq::<Seq<char>>::empty(),
        graph_edge_pairs(g) == Seq::<(usize, usize)>::empty(),
{
    DiGraph::new()
}

/// Relies on `Graph::add_node`: appends one node and returns its index,
/// which equals the node count before the call.
#[verifier::external_body]
fn graph_add_node(g: &mut DiGraph<String, ()>, name: &str) -> (idx: usize)
    requires
        graph_node_names(*old(g)).len() < 0xFFFF_FFFF,
    ensures
        graph_node_names(*final(g)) == graph_node_names(*old(g)).push(name@),
        graph_edge_pairs(*final(g)) == graph_edge_pairs(*old(g)),
        idx == graph_node_names(*old(g)).len(),
{
    g.add_node(name.to_string()).index()
}

/// Relies on `Graph::add_edge`: appends one directed edge between two
/// existing nodes.
#[verifier::external_body]
fn graph_add_edge(g: &mut DiGraph<String, ()>, from: usize, to: usize)
    requires
        from < graph_node_names(*old(g)).len(),
        to < graph_node_names(*old(g)).len(),
        graph_edge_pairs(*old(g)).len() < 0xFFFF_FFFF,
    ensures
        graph_node_names(*final(g)) == graph_node_names(*old(g)),
        graph_edge_pairs(*final(g)) == graph_edge_pairs(*old(g)).push((from, to)),
{
    g.add_edge(
        petgraph::graph::NodeIndex::new(from),
        petgraph::graph::NodeIndex::new(to),
        (),
    );
}

/// The sources of the edges that point at node `idx`, in edge order.
pub open spec fn edge_sources_into(edges: Seq<(usize, usize)>, idx: usize) -> Seq<usize>
    decreases edges.len(),
{
    if edges.len() == 0 {
        Seq::empty()
    } else {
        let rest = edge_sources_into(edges.drop_last(), idx);
        if edges.last().1 == idx {
            rest.push(edges.last().0)
        } else {
            rest
        }
    }
}

/// The targets of the edges that leave node `idx`, in edge order.
pub open spec fn edge_targets_from(edges: Seq<(usize, usize)>, idx: usize) -> Seq<usize>
    decreases edges.len(),
{
    if edges.len() == 0 {
        Seq::empty()
    } else {
        let rest = edge_targets_from(edges.drop_last(), idx);
        if edges.last().0 == idx {
            rest.push(edges.last().1)
        } else {
            rest
        }
    }
}

/// Edge endpoints below a bound keep incident-edge lists below it.
proof fn lemma_neighbors_bounded(edges: Seq<(usize, usize)>, idx: usize, bound: int)
    requires
        forall|k: int|
            0 <= k < edges.len() ==> (#[trigger] edges[k]).0 < bound && edges[k].1 < bound,
    ensures
        forall|m: int|
            0 <= m < edge_sources_into(edges, idx).len() ==> #[trigger] edge_sources_into(
                edges,
                idx,
            )[m] < bound,
        forall|m: int|
            0 <= m < edge_targets_from(edges, idx).len() ==> #[trigger] edge_targets_from(
                edges,
                idx,
            )[m] < bound,
    decreases edges.len(),
{
    if edges.len() > 0 {
        assert(forall|k: int|
            0 <= k < edges.drop_last().len() ==> (#[trigger] edges.drop_last()[k]).0 < bound
                && edges.drop_last()[k].1 < bound);
        lemma_neighbors_bounded(edges.drop_last(), idx, bound);
        assert(edges[edges.len() - 1].0 < bound && edges[edges.len() - 1].1 < bound);
        let s = edge_sources_into(edges, idx);
        let srest = edge_sources_into(edges.drop_last(), idx);
        assert forall|m: int| 0 <= m < s.len() implies s[m] < bound by {
            if edges.last().1 == idx && m == srest.len() {
                assert(s[m] == edges.last().0);
            } else {
                assert(s[m] == srest[m]);
            }
        }
        let t = edge_targets_from(edges, idx);
        let trest = edge_targets_from(edges.drop_last(), idx);
        assert forall|m: int| 0 <= m < t.len() implies t[m] < bound by {
            if edges.last().0 == idx && m == trest.len() {
                assert(t[m] == edges.last().1);
            } else {
                assert(t[m] == trest[m]);
            }
        }
    }
}

/// Relies on `Graph::neighbors_directed`: one entry per edge at the node,
/// in an order petgraph chooses; each entry mapped to its node index. The
/// bound on `idx` keeps it faithful to the graph's 32-bit node indices.
#[verifier::external_body]
fn graph_neighbors(g: &DiGraph<String, ()>, idx: usize, incoming: bool) -> (r: Vec<usize>)
    requires
        idx < 0xFFFF_FFFF,
    ensures
        incoming ==> r@.to_multiset() == edge_sources_into(
            graph_edge_pairs(*g),
            idx,
        ).to_multiset(),
        !incoming ==> r@.to_multiset() == edge_targets_from(
            graph_edge_pairs(*g),
            idx,
        ).to_multiset(),
{
    let dir = if incoming {
        petgraph::Direction::Incoming
    } else {
        petgraph::Direction::Outgoing
    };
    g.neighbors_directed(petgraph::graph::NodeIndex::new(idx), dir).map(|n| n.index()).collect()
}

/// Position of the first name equal to `name` at or after `i`.
pub open spec fn index_of_name(names: Seq<Seq<char>>, name: Seq<char>, i: int) -> Option<int>
    decreases names.len() - i,
{
    if i < 0 || i >= names.len() {
        None
    } else if names[i] == name {
        Some(i)
    } else {
        index_of_name(names, name, i + 1)
    }
}

/// The node-name list after registering `name`: unchanged when already
/// present, else extended by it.
pub open spec fn add_name_spec(names: Seq<Seq<char>>, name: Seq<char>) -> Seq<Seq<char>> {
    if index_of_name(names, name, 0) is Some {
        names
    } else {
        names.push(name)
    }
}

/// The names at the given node indices.
pub open spec fn names_at(names: Seq<Seq<char>>, idxs: Seq<usize>) -> Seq<Seq<char>> {
    idxs.map_values(|k: usize| names[k as int])
}

/// A directed graph of package names with explicit dependency edges.
pub struct DependencyResolver {
    graph: DiGraph<String, ()>,
    names: Vec<String>,
}

impl DependencyResolver {
    /// The registered package names, in insertion order.
    pub closed spec fn spec_names(self) -> Seq<Seq<char>> {
        self.names.deep_view()
    }

    /// The dependency edges, as (dependent, dependency) node indices.
    pub closed spec fn spec_edges(self) -> Seq<(usize, usize)> {
        graph_edge_pairs(self.graph)
    }

    /// The graph mirrors the name list, the node count stays within the
    /// graph's 32-bit index space, names are unique, and every edge
    /// endpoint is a valid node.
    pub closed spec fn wf(self) -> bool {
        &&& graph_node_names(self.graph) == self.names.deep_view()
        &&& self.names.deep_view().len() <= 0xFFFF_FFFE
        &&& forall|i: int, j: int|
            0 <= i < j < self.names.deep_view().len() ==> self.names.deep_view()[i]
                != self.names.deep_view()[j]
        &&& forall|k: int|
            0 <= k < self.spec_edges().len() ==> (#[trigger] self.spec_edges()[k]).0
                < self.names.deep_view().len() && self.spec_edges()[k].1
                < self.names.deep_view().len()
    }

    /// An empty graph.
    pub fn new() -> (r: DependencyResolver)
        ensures
            r.wf(),
            r.spec_names() == Seq::<Seq<char>>::empty(),
            r.spec_edges() == Seq::<(usize, usize)>::empty(),
    {
        let graph = graph_new();
        let r = DependencyResolver { graph, names: Vec::new() };
        proof {
            assert(r.names.deep_view() =~= Seq::<Seq<char>>::empty());
        }
        r
    }

    /// Finds the node index of a registered name.
    fn find_index(&self, name: &str) -> (r: Option<usize>)
        ensures
            match r {
                Some(i) => index_of_name(self.spec_names(), name@, 0) == Some(i as int),
                None => index_of_name(self.spec_names(), name@, 0) is None,
            },
    {
        let mut i: usize = 0;
        while i < self.names.len()
            invariant
                i <= self.names@.len(),
                index_of_name(self.spec_names(), name@, 0) == index_of_name(
                    self.spec_names(),
                    name@,
                    i as int,
                ),
            decreases self.names@.len() - i,
        {
            proof {
                assert(self.names.deep_view()[i as int] == self.names@[i as int]@);
            }
            if str_eq(self.names[i].as_str(), name) {
                return Some(i);
            }
            i = i + 1;
        }
        None
    }

    /// Registers a package name as a graph node, once.
    pub fn add_package(&mut self, name: &str)
        requires
            old(self).wf(),
            old(self).spec_names().len() < 0xFFFF_FFFE,
        ensures
            final(self).wf(),
            final(self).spec_names() == add_name_spec(old(self).spec_names(), name@),
            final(self).spec_edges() == old(self).spec_edges(),
    {
        match self.find_index(name) {
            Some(_) => {},
            None => {
                let ghost old_names = self.names.deep_view();
                let ghost old_vec = self.names@;
                let idx = graph_add_node(&mut self.graph, name);
                self.names.push(name.to_owned());
                proof {
                    assert(self.names@.len() == old_vec.len() + 1);
                    assert forall|k: int|
                        0 <= k < self.names@.len() implies self.names.deep_view()[k]
                        == old_names.push(name@)[k] by {
                        assert(self.names.deep_view()[k] == self.names@[k]@);
                        if k < old_vec.len() {
                            assert(self.names@[k] == old_vec[k]);
                            assert(old_names[k] == old_vec[k]@);
                        }
                    }
                    assert(self.names.deep_view() =~= old_names.push(name@));
                    lemma_index_of_name_found(old_names, name@);
                    lemma_index_of_name_none(old_names, name@, 0);
                    assert forall|i: int, j: int|
                        0 <= i < j < self.names.deep_view().len() implies self.names.deep_view()[i]
                        != self.names.deep_view()[j] by {
                        if j < old_names.len() {
                            assert(old_names[i] != old_names[j]);
                        } else {
                            assert(self.names.deep_view()[j] == name@);
                            assert(old_names[i] != name@);
                        }
                    }
                    assert forall|k: int|
                        0 <= k < self.spec_edges().len() implies (
                        #[trigger] self.spec_edges()[k]).0 < self.names.deep_view().len() && self
                        .spec_edges()[k].1 < self.names.deep_view().len() by {
                        assert(self.spec_edges()[k] == old(self).spec_edges()[k]);
                        assert((old(self).spec_edges()[k]).0 < old_names.len() && (old(
                            self,
                        ).spec_edges()[k]).1 < old_names.len());
                    }
                }
            },
        }
    }

    /// Registers both packages and records that `from` depends on `to`.
    pub fn add_dependency(&mut self, from: &str, to: &str)
        requires
            old(self).wf(),
            old(self).spec_names().len() < 0xFFFF_FFFD,
            old(self).spec_edges().len() < 0xFFFF_FFFF,
        ensures
            final(self).wf(),
            final(self).spec_names() == add_name_spec(
                add_name_spec(old(self).spec_names(), from@),
                to@,
            ),
            final(self).spec_edges().len() == old(self).spec_edges().len() + 1,
            final(self).spec_edges().take(old(self).spec_edges().len() as int) == old(
                self,
            ).spec_edges(),
            index_of_name(final(self).spec_names(), from@, 0) == Some(
                final(self).spec_edges().last().0 as int,
            ),
            index_of_name(final(self).spec_names(), to@, 0) == Some(
                final(self).spec_edges().last().1 as int,
            ),
    {
        self.add_package(from);
        self.add_package(to);
        let fi = self.find_index(from);
        let ti = self.find_index(to);
        match (fi, ti) {
            (Some(f), Some(t)) => {
                proof {
                    lemma_index_of_name_in_range(self.spec_names(), from@, 0);
                    lemma_index_of_name_in_range(self.spec_names(), to@, 0);
                }
                graph_add_edge(&mut self.graph, f, t);
                proof {
                    assert(self.spec_edges() =~= graph_edge_pairs(self.graph));
                    assert(self.spec_edges().take(self.spec_edges().len() - 1)
                        =~= self.spec_edges().drop_last());
                }
            },
            _ => {
                proof {
                    lemma_add_name_finds(old(self).spec_names(), from@, to@);
                    assert(false);
                }
            },
        }
    }
}

impl DependencyResolver {
    /// Looks up the names of the given node indices.
    fn names_of(&self, idxs: &Vec<usize>) -> (r: Vec<String>)
        requires
            forall|m: int| 0 <= m < idxs@.len() ==> #[trigger] idxs@[m] < self.spec_names().len(),
        ensures
            r.deep_view() == names_at(self.spec_names(), idxs@),
    {
        let mut out: Vec<String> = Vec::new();
        let mut k: usize = 0;
        proof {
            assert(out.deep_view() =~= names_at(self.spec_names(), idxs@).take(0));
        }
        while k < idxs.len()
            invariant
                k <= idxs@.len(),
                forall|m: int|
                    0 <= m < idxs@.len() ==> #[trigger] idxs@[m] < self.spec_names().len(),
                out.deep_view() == names_at(self.spec_names(), idxs@).take(k as int),
            decreases idxs@.len() - k,
        {
            let ghost old_out = out;
            let j = idxs[k];
            let name = self.names[j].clone();
            out.push(name);
            proof {
                assert(self.names.deep_view()[j as int] == self.names@[j as int]@);
                assert(out@.len() == old_out@.len() + 1);
                assert(old_out.deep_view().len() == k as int);
                let lhs = out.deep_view();
                let rhs = names_at(self.spec_names(), idxs@).take(k + 1);
                assert forall|m: int| 0 <= m <= k as int implies lhs[m] == rhs[m] by {
                    assert(lhs[m] == out@[m]@);
                    assert(rhs[m] == self.spec_names()[idxs@[m] as int]);
                    if m < k as int {
                        assert(old_out.deep_view()[m] == names_at(
                            self.spec_names(),
                            idxs@,
                        ).take(k as int)[m]);
                    }
                }
                assert(lhs =~= rhs);
            }
            k = k + 1;
        }
        proof {
            assert(names_at(self.spec_names(), idxs@).take(idxs@.len() as int) =~= names_at(
                self.spec_names(),
                idxs@,
            ));
        }
        out
    }

    /// The names of the packages that depend on `package`: one entry per
    /// recorded edge, in an order the graph chooses.
    pub fn get_dependents(&self, package: &str) -> (r: Vec<String>)
        requires
            self.wf(),
        ensures
            match index_of_name(self.spec_names(), package@, 0) {
                Some(i) => exists|idxs: Seq<usize>|
                    idxs.to_multiset() == edge_sources_into(
                        self.spec_edges(),
                        i as usize,
                    ).to_multiset() && r.deep_view() == names_at(self.spec_names(), idxs),
                None => r@.len() == 0,
            },
    {
        broadcast use vstd::seq_lib::group_to_multiset_ensures;

        match self.find_index(package) {
            Some(i) => {
                proof {
                    lemma_index_of_name_in_range(self.spec_names(), package@, 0);
                }
                let idxs = graph_neighbors(&self.graph, i, true);
                proof {
                    lemma_neighbors_bounded(
                        self.spec_edges(),
                        i as usize,
                        self.spec_names().len() as int,
                    );
                    let sources = edge_sources_into(self.spec_edges(), i as usize);
                    assert forall|m: int| 0 <= m < idxs@.len() implies #[trigger] idxs@[m]
                        < self.spec_names().len() by {
                        assert(idxs@.contains(idxs@[m]));
                        assert(idxs@.to_multiset().count(idxs@[m]) > 0);
                        assert(sources.contains(idxs@[m]));
                        let w = choose|w: int| 0 <= w < sources.len() && sources[w] == idxs@[m];
                        assert(sources[w] < self.spec_names().len());
                    }
                }
                let out = self.names_of(&idxs);
                proof {
                    let ghost witness = idxs@;
                    assert(witness.to_multiset() == edge_sources_into(
                        self.spec_edges(),
                        i as usize,
                    ).to_multiset() && out.deep_view() == names_at(self.spec_names(), witness));
                }
                out
            },
            None => Vec::new(),
        }
    }

    /// The names of the packages that `package` depends on: one entry per
    /// recorded edge, in an order the graph chooses.
    pub fn get_dependencies(&self, package: &str) -> (r: Vec<String>)
        requires
            self.wf(),
        ensures
            match index_of_name(self.spec_names(), package@, 0) {
                Some(i) => exists|idxs: Seq<usize>|
                    idxs.to_multiset() == edge_targets_from(
                        self.spec_edges(),
                        i as usize,
                    ).to_multiset() && r.deep_view() == names_at(self.spec_names(), idxs),
                None => r@.len() == 0,
            },
    {
        broadcast use vstd::seq_lib::group_to_multiset_ensures;

        match self.find_index(package) {
            Some(i) => {
                proof {
                    lemma_index_of_name_in_range(self.spec_names(), package@, 0);
                }
                let idxs = graph_neighbors(&self.graph, i, false);
                proof {
                    lemma_neighbors_bounded(
                        self.spec_edges(),
                        i as usize,
                        self.spec_names().len() as int,
                    );
                    let targets = edge_targets_from(self.spec_edges(), i as usize);
                    assert forall|m: int| 0 <= m < idxs@.len() implies #[trigger] idxs@[m]
                        < self.spec_names().len() by {
                        assert(idxs@.contains(idxs@[m]));
                        assert(idxs@.to_multiset().count(idxs@[m]) > 0);
                        assert(targets.contains(idxs@[m]));
                        let w = choose|w: int| 0 <= w < targets.len() && targets[w] == idxs@[m];
                        assert(targets[w] < self.spec_names().len());
                    }
                }
                let out = self.names_of(&idxs);
                proof {
                    let ghost witness = idxs@;
                    assert(witness.to_multiset() == edge_targets_from(
                        self.spec_edges(),
                        i as usize,
                    ).to_multiset() && out.deep_view() == names_at(self.spec_names(), witness));
                }
                out
            },
            None => Vec::new(),
        }
    }
}

/// Position of the first record named `name` at or after `i`.
pub open spec fn first_package_named(packages: Seq<Package>, name: Seq<char>, i: int) -> Option<
    int,
>
    decreases packages.len() - i,
{
    if i < 0 || i >= packages.len() {
        None
    } else if packages[i].name@ == name {
        Some(i)
    } else {
        first_package_named(packages, name, i + 1)
    }
}

/// The conflict reported for one declared dependency of `pkg`, if any:
/// the first record named `dep` must exist, be resolved, and have a
/// latest version lexicographically above its current one.
pub open spec fn conflict_view_for(packages: Seq<Package>, pkg: Package, dep: Seq<char>) -> Option<
    ConflictView,
> {
    match first_package_named(packages, dep, 0) {
        Some(qi) => {
            let q = packages[qi];
            match q.latest_version {
                Some(l) => if lex_lt(q.current_version@, l@) {
                    Some(
                        ConflictView {
                            package: pkg.name@,
                            reason: "Requires "@ + dep + " but upgrade to "@ + l@
                                + " may break compatibility"@,
                            current: q.current_version@,
                            required: l@,
                        },
                    )
                } else {
                    None
                },
                None => None,
            }
        },
        None => None,
    }
}

/// The conflicts reported for the first `n` declared dependencies of
/// `pkg`, in order.
pub open spec fn conflicts_for_deps(
    packages: Seq<Package>,
    pkg: Package,
    deps: Seq<Seq<char>>,
) -> Seq<ConflictView>
    decreases deps.len(),
{
    if deps.len() == 0 {
        Seq::empty()
    } else {
        conflicts_for_deps(packages, pkg, deps.drop_last()) + match conflict_view_for(
            packages,
            pkg,
            deps.last(),
        ) {
            Some(c) => seq![c],
            None => Seq::empty(),
        }
    }
}

/// The conflicts reported over the first `n` records.
pub open spec fn conflicts_upto(packages: Seq<Package>, n: int) -> Seq<ConflictView>
    decreases n,
{
    if n <= 0 {
        Seq::empty()
    } else {
        conflicts_upto(packages, n - 1) + conflicts_for_deps(
            packages,
            packages[n - 1],
            packages[n - 1].dependencies.deep_view(),
        )
    }
}

/// Every conflict the record set reports: one per (record, dependency)
/// pair whose dependency has a pending upgrade.
pub open spec fn conflicts_spec(packages: Seq<Package>) -> Seq<ConflictView> {
    conflicts_upto(packages, packages.len() as int)
}

/// The abstract values of a conflict list.
pub open spec fn conflict_views(s: Seq<Conflict>) -> Seq<ConflictView> {
    s.map_values(|c: Conflict| c@)
}

/// Finds the first record with the given name.
fn find_package_index(packages: &[Package], name: &str) -> (r: Option<usize>)
    ensures
        match r {
            Some(i) => first_package_named(packages@, name@, 0) == Some(i as int),
            None => first_package_named(packages@, name@, 0) is None,
        },
{
    let mut i: usize = 0;
    while i < packages.len()
        invariant
            i <= packages@.len(),
            first_package_named(packages@, name@, 0) == first_package_named(
                packages@,
                name@,
                i as int,
            ),
        decreases packages@.len() - i,
    {
        if str_eq(packages[i].name.as_str(), name) {
            return Some(i);
        }
        i = i + 1;
    }
    None
}

impl DependencyResolver {
    /// Flags one conflict per (record, declared dependency) pair where
    /// the dependency's latest version exceeds its current one — a
    /// conservative warning list, not an incompatibility proof.
    pub fn detect_conflicts(&self, packages: &[Package]) -> (r: Vec<Conflict>)
        ensures
            conflict_views(r@) == conflicts_spec(packages@),
    {
        let mut out: Vec<Conflict> = Vec::new();
        let mut i: usize = 0;
        proof {
            assert(conflict_views(out@) =~= conflicts_upto(packages@, 0));
        }
        while i < packages.len()
            invariant
                i <= packages@.len(),
                conflict_views(out@) == conflicts_upto(packages@, i as int),
            decreases packages@.len() - i,
        {
            let deps_len = packages[i].dependencies.len();
            let mut j: usize = 0;
            proof {
                let ghost deps = packages@[i as int].dependencies.deep_view();
                assert(conflicts_for_deps(packages@, packages@[i as int], deps.take(0))
                    =~= Seq::<ConflictView>::empty());
                assert(conflict_views(out@) =~= conflicts_upto(packages@, i as int)
                    + conflicts_for_deps(packages@, packages@[i as int], deps.take(0)));
            }
            while j < deps_len
                invariant
                    j <= deps_len,
                    i < packages@.len(),
                    deps_len == packages@[i as int].dependencies@.len(),
                    conflict_views(out@) == conflicts_upto(packages@, i as int)
                        + conflicts_for_deps(
                        packages@,
                        packages@[i as int],
                        packages@[i as int].dependencies.deep_view().take(j as int),
                    ),
                decreases deps_len - j,
            {
                let ghost deps = packages@[i as int].dependencies.deep_view();
                proof {
                    assert(deps.take(j + 1).drop_last() =~= deps.take(j as int));
                    assert(deps.take(j + 1).last() == deps[j as int]);
                    assert(deps[j as int] == packages@[i as int].dependencies@[j as int]@);
                }
                let dep = &packages[i].dependencies[j];
                let ghost old_out = out@;
                match find_package_index(packages, dep.as_str()) {
                    Some(qi) => {
                        proof {
                            lemma_first_package_in_range(packages@, dep@, 0);
                        }
                        match &packages[qi].latest_version {
                            Some(l) => {
                                if str_lt(packages[qi].current_version.as_str(), l.as_str()) {
                                    let reason = "Requires ".to_owned().concat(dep.as_str())
                                        .concat(" but upgrade to ").concat(l.as_str()).concat(
                                        " may break compatibility",
                                    );
                                    let c = Conflict {
                                        package: packages[i].name.clone(),
                                        reason,
                                        current: packages[qi].current_version.clone(),
                                        required: l.clone(),
                                    };
                                    out.push(c);
                                    proof {
                                        assert(conflict_views(out@) =~= conflict_views(
                                            old_out,
                                        ).push(c@));
                                        assert(conflict_view_for(
                                            packages@,
                                            packages@[i as int],
                                            deps[j as int],
                                        ) == Some(c@));
                                        assert(conflict_views(out@) =~= conflicts_upto(
                                            packages@,
                                            i as int,
                                        ) + conflicts_for_deps(
                                            packages@,
                                            packages@[i as int],
                                            deps.take(j + 1),
                                        ));
                                    }
                                } else {
                                    proof {
                                        assert(conflict_views(out@) =~= conflicts_upto(
                                            packages@,
                                            i as int,
                                        ) + conflicts_for_deps(
                                            packages@,
                                            packages@[i as int],
                                            deps.take(j + 1),
                                        ));
                                    }
                                }
                            },
                            None => {
                                proof {
                                    assert(conflict_views(out@) =~= conflicts_upto(
                                        packages@,
                                        i as int,
                                    ) + conflicts_for_deps(
                                        packages@,
                                        packages@[i as int],
                                        deps.take(j + 1),
                                    ));
                                }
                            },
                        }
                    },
                    None => {
                        proof {
                            assert(conflict_views(out@) =~= conflicts_upto(packages@, i as int)
                                + conflicts_for_deps(
                                packages@,
                                packages@[i as int],
                                deps.take(j + 1),
                            ));
                        }
                    },
                }
                j = j + 1;
            }
            proof {
                let ghost deps = packages@[i as int].dependencies.deep_view();
                assert(deps.take(deps_len as int) =~= deps);
                assert(conflict_views(out@) =~= conflicts_upto(packages@, i + 1));
            }
            i = i + 1;
        }
        out
    }
}

/// With no dependency pending an upgrade, no conflict is reported.
pub proof fn lemma_no_pending_no_conflicts(packages: Seq<Package>)
    requires
        forall|k: int|
            0 <= k < packages.len() ==> match (#[trigger] packages[k]).latest_version {
                Some(l) => !lex_lt(packages[k].current_version@, l@),
                None => true,
            },
    ensures
        conflicts_spec(packages).len() == 0,
{
    lemma_no_pending_upto(packages, packages.len() as int);
}

/// Helper for `lemma_no_pending_no_conflicts`, over a prefix.
proof fn lemma_no_pending_upto(packages: Seq<Package>, n: int)
    requires
        n <= packages.len(),
        forall|k: int|
            0 <= k < packages.len() ==> match (#[trigger] packages[k]).latest_version {
                Some(l) => !lex_lt(packages[k].current_version@, l@),
                None => true,
            },
    ensures
        conflicts_upto(packages, n).len() == 0,
    decreases n,
{
    if n > 0 {
        lemma_no_pending_upto(packages, n - 1);
        lemma_no_pending_deps(
            packages,
            packages[n - 1],
            packages[n - 1].dependencies.deep_view(),
        );
    }
}

/// Helper: with no pending upgrade anywhere, one record reports nothing.
proof fn lemma_no_pending_deps(packages: Seq<Package>, pkg: Package, deps: Seq<Seq<char>>)
    requires
        forall|k: int|
            0 <= k < packages.len() ==> match (#[trigger] packages[k]).latest_version {
                Some(l) => !lex_lt(packages[k].current_version@, l@),
                None => true,
            },
    ensures
        conflicts_for_deps(packages, pkg, deps).len() == 0,
    decreases deps.len(),
{
    if deps.len() > 0 {
        lemma_no_pending_deps(packages, pkg, deps.drop_last());
        match first_package_named(packages, deps.last(), 0) {
            Some(qi) => {
                lemma_first_package_in_range(packages, deps.last(), 0);
                assert(conflict_view_for(packages, pkg, deps.last()) is None);
            },
            None => {},
        }
    }
}

/// A found record index lies within the set.
pub proof fn lemma_first_package_in_range(packages: Seq<Package>, name: Seq<char>, i: int)
    requires
        0 <= i,
    ensures
        first_package_named(packages, name, i) matches Some(k) ==> i <= k < packages.len()
            && packages[k].name@ == name,
    decreases packages.len() - i,
{
    if i < packages.len() && packages[i].name@ != name {
        lemma_first_package_in_range(packages, name, i + 1);
    }
}

/// After pushing a fresh name, a search finds it at the end.
proof fn lemma_index_of_name_found(names: Seq<Seq<char>>, name: Seq<char>)
    requires
        index_of_name(names, name, 0) is None,
    ensures
        index_of_name(names.push(name), name, 0) == Some(names.len() as int),
{
    lemma_index_of_name_push(names, name, 0);
}

/// Pushing a fresh name leaves every failed search finding it at the end.
proof fn lemma_index_of_name_push(names: Seq<Seq<char>>, name: Seq<char>, i: int)
    requires
        0 <= i <= names.len(),
        index_of_name(names, name, i) is None,
    ensures
        index_of_name(names.push(name), name, i) == Some(names.len() as int),
    decreases names.len() - i,
{
    if i < names.len() {
        assert(names.push(name)[i] == names[i]);
        lemma_index_of_name_push(names, name, i + 1);
    } else {
        assert(names.push(name)[i] == name);
    }
}

/// A failed search means the name is nowhere in the list.
proof fn lemma_index_of_name_none(names: Seq<Seq<char>>, name: Seq<char>, i: int)
    requires
        0 <= i,
        index_of_name(names, name, i) is None,
    ensures
        forall|k: int| i <= k < names.len() ==> names[k] != name,
    decreases names.len() - i,
{
    if i < names.len() {
        lemma_index_of_name_none(names, name, i + 1);
    }
}

/// A found name index lies within the list.
proof fn lemma_index_of_name_in_range(names: Seq<Seq<char>>, name: Seq<char>, i: int)
    requires
        0 <= i,
    ensures
        index_of_name(names, name, i) matches Some(k) ==> i <= k < names.len() && names[k]
            == name,
    decreases names.len() - i,
{
    if i < names.len() && names[i] != name {
        lemma_index_of_name_in_range(names, name, i + 1);
    }
}

/// After registering two names, both are found.
proof fn lemma_add_name_finds(names: Seq<Seq<char>>, from: Seq<char>, to: Seq<char>)
    ensures
        index_of_name(add_name_spec(add_name_spec(names, from), to), from, 0) is Some,
        index_of_name(add_name_spec(add_name_spec(names, from), to), to, 0) is Some,
{
    let n1 = add_name_spec(names, from);
    let n2 = add_name_spec(n1, to);
    if index_of_name(names, from, 0) is None {
        lemma_index_of_name_found(names, from);
    }
    assert(index_of_name(n1, from, 0) is Some);
    if index_of_name(n1, to, 0) is None {
        lemma_index_of_name_found(n1, to);
        assert(index_of_name(n2, to, 0) is Some);
    }
    if n2 != n1 {
        lemma_index_of_name_prefix(n1, from, 0);
    }
}

/// A successful search still succeeds after pushing any name.
proof fn lemma_index_of_name_prefix(names: Seq<Seq<char>>, name: Seq<char>, i: int)
    requires
        0 <= i,
        index_of_name(names, name, i) is Some,
    ensures
        forall|x: Seq<char>| index_of_name(names.push(x), name, i) is Some,
    decreases names.len() - i,
{
    assert forall|x: Seq<char>| index_of_name(names.push(x), name, i) is Some by {
        lemma_index_of_name_push_keeps(names, name, i, x);
    }
}

/// Pushing any name preserves a successful search.
proof fn lemma_index_of_name_push_keeps(
    names: Seq<Seq<char>>,
    name: Seq<char>,
    i: int,
    x: Seq<char>,
)
    requires
        0 <= i,
        index_of_name(names, name, i) is Some,
    ensures
        index_of_name(names.push(x), name, i) is Some,
    decreases names.len() - i,
{
    if i < names.len() {
        assert(names.push(x)[i] == names[i]);
        if names[i] != name {
            lemma_index_of_name_push_keeps(names, name, i + 1, x);
        }
    }
}


impl Default for DependencyResolver {
    /// Same as `new`: an empty graph.
    fn default() -> (r: DependencyResolver)
        ensures
            r.wf(),
            r.spec_names() == Seq::<Seq<char>>::empty(),
            r.spec_edges() == Seq::<(usize, usize)>::empty(),
    {
        DependencyResolver::new()
    }
}

} // verus!
