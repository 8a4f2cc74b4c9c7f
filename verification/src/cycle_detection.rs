//! Validation of the registered dependencies: every dependency must be
//! registered, and the dependencies must form no cycle.
//!
//! Each registered type leaves a visitor behind: a record of the type and of
//! the dependencies its constructor asks for. Validation runs all visitors.
//! A visitor adds a node for its type to a graph, then an edge for each
//! dependency that is registered, visiting that dependency first where it has
//! no node yet. A dependency that is not registered is noted as missing. A
//! topological sort of the finished graph then finds out whether the
//! dependencies form a cycle.

use crate::dependency_builder::{lists, Declared, DepBuilder};
use crate::graph::{
    graph_add_edge, graph_add_node, graph_clear, graph_dot, graph_edges, graph_new,
    graph_node_name, graph_nodes, graph_toposort, has_cycle, is_topological, is_verdict, is_walk,
    on_cycle, DepGraph,
};
use crate::sealed::SealToken;
use crate::type_index::{index_clear, index_get, index_insert, index_new, TypeIndex};
use crate::types::{
    push_str, type_id, type_id_debug, type_id_of, type_id_text, Registerable,
    RegisterableSingleton,
};
use std::any::TypeId;
use vstd::prelude::*;

verus! {

/// All possible errors during validation.
#[derive(Debug, Clone, Copy, PartialEq, Eq, Hash, Structural)]
#[non_exhaustive]
pub enum ValidationError {
    /// The dependencies form a cycle.
    Cycle,
    /// Some dependency is not registered.
    Missing,
}

/// Detailed validation errors.
#[derive(Debug, PartialEq, Eq, Hash)]
#[non_exhaustive]
pub enum FullValidationError {
    /// The dependencies form a cycle; the name is that of one type on it.
    Cycle(Option<String>),
    /// Some dependencies are not registered: one entry for each type that
    /// lacks any.
    Missing(Vec<MissingDependencies>),
}

impl ValidationError {
    /// The message of the error.
    pub open spec fn text(self) -> Seq<char> {
        match self {
            ValidationError::Cycle => "cycle detected!"@,
            ValidationError::Missing => "dependencies missing!"@,
        }
    }

    /// The message of the error, for people to read.
    pub fn message(&self) -> (message: String)
        ensures
            message@ == self.text(),
    {
        match self {
            ValidationError::Cycle => "cycle detected!".to_owned(),
            ValidationError::Missing => "dependencies missing!".to_owned(),
        }
    }
}

/// The line of a message that names a type: the words before the name, the
/// name, the written id in brackets, and the words after it.
pub open spec fn type_line(
    before: Seq<char>,
    ty: (TypeId, &'static str),
    after: Seq<char>,
) -> Seq<char> {
    before + ty.1@ + " ("@ + type_id_debug(ty.0) + after
}

/// The lines of a message that list the first `upto` of the missing
/// dependencies `deps`.
pub open spec fn deps_text(deps: Seq<(TypeId, &'static str)>, upto: nat) -> Seq<char>
    decreases upto,
{
    if upto == 0 {
        Seq::empty()
    } else {
        deps_text(deps, (upto - 1) as nat) + type_line(" - "@, deps[upto - 1], ")\n"@)
    }
}

/// The part of a message that tells what one type lacks.
pub open spec fn entry_text(entry: MissingDependencies) -> Seq<char> {
    type_line("dependencies missing for "@, entry.owner(), "):\n"@) + deps_text(
        entry.missing(),
        entry.missing().len(),
    ) + "\n\n"@
}

/// The part of a message that tells what the first `upto` types of `report`
/// lack.
pub open spec fn report_text(report: Seq<MissingDependencies>, upto: nat) -> Seq<char>
    decreases upto,
{
    if upto == 0 {
        Seq::empty()
    } else {
        report_text(report, (upto - 1) as nat) + entry_text(report[upto - 1])
    }
}

/// Appends to `text` the line of a message that names a type.
fn push_type_line(text: &mut String, before: &str, ty: &(TypeId, &'static str), after: &str)
    ensures
        final(text)@ == old(text)@ + type_line(before@, *ty, after@),
{
    push_str(text, before);
    push_str(text, ty.1);
    push_str(text, " (");
    let id = type_id_text(&ty.0);
    push_str(text, id.as_str());
    push_str(text, after);
    assert(text@ =~= old(text)@ + type_line(before@, *ty, after@));
}

impl FullValidationError {
    /// The message of the error: the name of a type on the cycle, if it is
    /// known; or, for each type that lacks dependencies, a line for the type
    /// and a line for each dependency it lacks.
    pub open spec fn text(self) -> Seq<char> {
        match self {
            FullValidationError::Cycle(Some(node)) => "cycle detected at "@ + node@,
            FullValidationError::Cycle(None) => "cycle detected!"@,
            FullValidationError::Missing(report) => "dependencies missing:\n"@ + report_text(
                report@,
                report@.len(),
            ),
        }
    }

    /// The message of the error, for people to read.
    pub fn message(&self) -> (message: String)
        ensures
            message@ == self.text(),
    {
        match self {
            FullValidationError::Cycle(Some(node)) => {
                let mut text = "cycle detected at ".to_owned();
                push_str(&mut text, node.as_str());
                text
            },
            FullValidationError::Cycle(None) => "cycle detected!".to_owned(),
            FullValidationError::Missing(all_missing) => {
                let mut text = "dependencies missing:\n".to_owned();
                let ghost head = text@;
                let mut m: usize = 0;
                while m < all_missing.len()
                    invariant
                        0 <= m <= all_missing@.len(),
                        text@ == head + report_text(all_missing@, m as nat),
                    decreases all_missing@.len() - m,
                {
                    let missing = &all_missing[m];
                    let ghost start = text@;
                    push_type_line(&mut text, "dependencies missing for ", &missing.ty, "):\n");
                    let ghost listed = text@;
                    let mut k: usize = 0;
                    while k < missing.deps.len()
                        invariant
                            0 <= k <= missing.deps@.len(),
                            text@ == listed + deps_text(missing.deps@, k as nat),
                        decreases missing.deps@.len() - k,
                    {
                        let ghost so_far = text@;
                        push_type_line(&mut text, " - ", &missing.deps[k], ")\n");
                        k += 1;
                        assert(text@ =~= listed + deps_text(missing.deps@, k as nat));
                    }
                    push_str(&mut text, "\n\n");
                    m += 1;
                    assert(text@ =~= head + report_text(all_missing@, m as nat));
                }
                text
            },
        }
    }
}

/// All missing dependencies of one type.
#[derive(Debug, PartialEq, Eq, Hash)]
pub struct MissingDependencies {
    /// The type that has missing dependencies.
    pub(crate) ty: (TypeId, &'static str),
    /// The missing dependencies of `ty`.
    pub(crate) deps: Vec<(TypeId, &'static str)>,
}

impl MissingDependencies {
    /// The type that has missing dependencies: its id and display name.
    pub closed spec fn owner(&self) -> (TypeId, &'static str) {
        self.ty
    }

    /// The dependencies that are missing: of each its id and display name.
    pub closed spec fn missing(&self) -> Seq<(TypeId, &'static str)> {
        self.deps@
    }

    /// The id and the display name of the type that has missing dependencies.
    pub fn ty(&self) -> (ty: &(TypeId, &'static str))
        ensures
            *ty == self.owner(),
    {
        &self.ty
    }

    /// A description of each dependency that is missing.
    pub fn missing_dependencies(&self) -> (deps: &[(TypeId, &'static str)])
        ensures
            deps@ == self.missing(),
    {
        self.deps.as_slice()
    }
}

/// What a registered type adds to the dependency graph: itself, and the
/// dependencies that its constructor asks for, in the order in which it asks
/// for them.
#[derive(Debug)]
pub struct Visitor {
    /// The id and display name of the registered type.
    pub ty: (TypeId, &'static str),
    /// The id and display name of each dependency.
    pub deps: Vec<(TypeId, &'static str)>,
}

/// Some visitor is registered for `key`.
pub open spec fn registered(visitors: Seq<Visitor>, key: TypeId) -> bool {
    exists|p: int| 0 <= p < visitors.len() && (#[trigger] visitors[p]).ty.0 == key
}

/// The visitor of `owner` lists `dep` among its dependencies.
pub open spec fn declares(visitors: Seq<Visitor>, owner: TypeId, dep: TypeId) -> bool {
    exists|p: int, k: int|
        0 <= p < visitors.len() && 0 <= k < visitors[p].deps@.len() && visitors[p].ty.0 == owner
            && (#[trigger] visitors[p].deps@[k]).0 == dep
}

/// `owner` depends on `dep`, and `dep` is registered.
pub open spec fn depends(visitors: Seq<Visitor>, owner: TypeId, dep: TypeId) -> bool {
    declares(visitors, owner, dep) && registered(visitors, dep)
}

/// Each type of `walk` depends on the next one.
pub open spec fn is_dep_walk(visitors: Seq<Visitor>, walk: Seq<TypeId>) -> bool {
    &&& walk.len() >= 2
    &&& forall|k: int|
        0 <= k < walk.len() - 1 ==> depends(visitors, #[trigger] walk[k], walk[k + 1])
}

/// `key` depends on itself, directly or through other registered types.
pub open spec fn on_dep_cycle(visitors: Seq<Visitor>, key: TypeId) -> bool {
    exists|walk: Seq<TypeId>| #[trigger]
        is_dep_walk(visitors, walk) && walk.first() == key && walk.last() == key
}

/// Some registered type depends on itself, directly or through others.
pub open spec fn has_dep_cycle(visitors: Seq<Visitor>) -> bool {
    exists|key: TypeId| #[trigger] on_dep_cycle(visitors, key)
}

/// The test that tells whether a dependency is not registered.
pub open spec fn lacks(visitors: Seq<Visitor>) -> spec_fn((TypeId, &'static str)) -> bool {
    |dep: (TypeId, &'static str)| !registered(visitors, dep.0)
}

/// The dependencies of the visitor at `p` that are not registered, in the
/// order in which it lists them.
pub open spec fn missing_of(visitors: Seq<Visitor>, p: int) -> Seq<(TypeId, &'static str)> {
    visitors[p].deps@.filter(lacks(visitors))
}

/// Some visitor lists a dependency that is not registered.
pub open spec fn has_missing(visitors: Seq<Visitor>) -> bool {
    exists|p: int| 0 <= p < visitors.len() && (#[trigger] missing_of(visitors, p)).len() > 0
}

/// What validation says of these visitors: missing dependencies are reported
/// first, a cycle only where nothing is missing.
pub open spec fn verdict_of(visitors: Seq<Visitor>) -> Result<(), ValidationError> {
    if has_missing(visitors) {
        Err(ValidationError::Missing)
    } else if has_dep_cycle(visitors) {
        Err(ValidationError::Cycle)
    } else {
        Ok(())
    }
}

/// `report` holds one entry for each visitor that lacks a dependency, and no
/// other entry; an entry names the visitor's type and lists what it lacks, in
/// the order in which the visitor asks for it.
pub open spec fn is_missing_report(
    visitors: Seq<Visitor>,
    report: Seq<MissingDependencies>,
) -> bool {
    &&& forall|m: int|
        0 <= m < report.len() ==> exists|p: int|
            0 <= p < visitors.len() && (#[trigger] report[m]).owner() == (
            #[trigger] visitors[p]).ty && report[m].missing() == missing_of(visitors, p)
                && report[m].missing().len() > 0
    &&& forall|m: int, n: int|
        0 <= m < n < report.len() ==> (#[trigger] report[m]).owner().0 != (
        #[trigger] report[n]).owner().0
    &&& forall|p: int|
        0 <= p < visitors.len() && (#[trigger] missing_of(visitors, p)).len() > 0
            ==> reports(report, visitors[p].ty.0)
}

/// `report` has an entry for the type `key`.
pub open spec fn reports(report: Seq<MissingDependencies>, key: TypeId) -> bool {
    exists|m: int| 0 <= m < report.len() && (#[trigger] report[m]).owner().0 == key
}

/// The visitors `after` are the visitors `before` and one more, the last: it
/// is registered for the type with the id `key` and the display name `name`,
/// and lists the dependencies `declared`.
pub open spec fn adds(
    before: Seq<Visitor>,
    after: Seq<Visitor>,
    key: TypeId,
    name: Seq<char>,
    declared: Seq<Declared>,
) -> bool {
    &&& after.len() == before.len() + 1
    &&& after.drop_last() == before
    &&& after.last().ty.0 == key
    &&& after.last().ty.1@ == name
    &&& lists(after.last().deps@, declared)
}

/// Validation reports missing dependencies first, and a cycle only where
/// nothing is missing; it finds nothing wrong exactly if nothing is missing
/// and no type depends on itself.
pub proof fn lemma_verdict(visitors: Seq<Visitor>)
    ensures
        verdict_of(visitors) is Ok <==> !has_missing(visitors) && !has_dep_cycle(visitors),
        verdict_of(visitors) == Err::<(), ValidationError>(ValidationError::Missing)
            <==> has_missing(visitors),
        verdict_of(visitors) == Err::<(), ValidationError>(ValidationError::Cycle)
            <==> !has_missing(visitors) && has_dep_cycle(visitors),
{
}

/// A sequence of which no element passes the test has nothing to filter.
proof fn lemma_filter_none<A>(list: Seq<A>, test: spec_fn(A) -> bool)
    requires
        forall|k: int| 0 <= k < list.len() ==> !test(#[trigger] list[k]),
    ensures
        list.filter(test).len() == 0,
    decreases list.len(),
{
    reveal(Seq::filter);
    if list.len() > 0 {
        lemma_filter_none(list.drop_last(), test);
    }
}

/// A walk that comes back to where it began, and passes `key` on its way,
/// shows that `key` depends on itself.
proof fn lemma_cycle_through(visitors: Seq<Visitor>, walk: Seq<TypeId>, at: int)
    requires
        is_dep_walk(visitors, walk),
        walk.first() == walk.last(),
        0 <= at < walk.len(),
    ensures
        on_dep_cycle(visitors, walk[at]),
{
    if at == 0 || at == walk.len() - 1 {
        assert(is_dep_walk(visitors, walk) && walk.first() == walk[at] && walk.last() == walk[at]);
    } else {
        let turned = walk.subrange(at, walk.len() as int) + walk.subrange(1, at + 1);
        assert forall|k: int| 0 <= k < turned.len() - 1 implies depends(
            visitors,
            #[trigger] turned[k],
            turned[k + 1],
        ) by {
            let tail = walk.len() - at;
            if k < tail - 1 {
                assert(depends(visitors, walk[at + k], walk[at + k + 1]));
            } else if k == tail - 1 {
                assert(depends(visitors, walk[0], walk[1]));
            } else {
                assert(depends(visitors, walk[k - tail + 1], walk[k - tail + 2]));
            }
        }
        assert(is_dep_walk(visitors, turned) && turned.first() == walk[at] && turned.last()
            == walk[at]);
    }
}

/// Registering one more type on top of types that pass validation: all
/// types pass validation again exactly if every dependency of the new type
/// is registered and the new type does not depend on itself.
pub proof fn lemma_added_visitor(before: Seq<Visitor>, after: Seq<Visitor>)
    requires
        verdict_of(before) is Ok,
        after.len() == before.len() + 1,
        after.drop_last() == before,
        !registered(before, after.last().ty.0),
    ensures
        verdict_of(after) is Ok <==> missing_of(after, after.len() - 1).len() == 0
            && !on_dep_cycle(after, after.last().ty.0),
{
    broadcast use vstd::seq_lib::group_filter_ensures;

    let new = after.len() - 1;
    let new_key = after.last().ty.0;
    assert forall|p: int| 0 <= p < before.len() implies after[p] == before[p] by {
        assert(after.drop_last()[p] == after[p]);
    }
    if missing_of(after, new).len() == 0 && !on_dep_cycle(after, new_key) {
        assert forall|p: int| 0 <= p < after.len() implies (#[trigger] missing_of(
            after,
            p,
        )).len() == 0 by {
            if p < new {
                assert forall|k: int| 0 <= k < after[p].deps@.len() implies !lacks(after)(
                    #[trigger] after[p].deps@[k],
                ) by {
                    assert(missing_of(before, p).len() == 0);
                    if lacks(before)(before[p].deps@[k]) {
                        assert(missing_of(before, p).contains(before[p].deps@[k]));
                    }
                    let q = choose|q: int|
                        0 <= q < before.len() && (#[trigger] before[q]).ty.0
                            == before[p].deps@[k].0;
                    assert(after[q].ty.0 == after[p].deps@[k].0);
                }
                lemma_filter_none(after[p].deps@, lacks(after));
            }
        }
        if has_dep_cycle(after) {
            let key = choose|key: TypeId| #[trigger] on_dep_cycle(after, key);
            let walk = choose|walk: Seq<TypeId>| #[trigger]
                is_dep_walk(after, walk) && walk.first() == key && walk.last() == key;
            if exists|at: int| 0 <= at < walk.len() && walk[at] == new_key {
                let at = choose|at: int| 0 <= at < walk.len() && walk[at] == new_key;
                lemma_cycle_through(after, walk, at);
            } else {
                assert forall|k: int| 0 <= k < walk.len() - 1 implies depends(
                    before,
                    #[trigger] walk[k],
                    walk[k + 1],
                ) by {
                    assert(depends(after, walk[k], walk[k + 1]));
                    let (p, j) = choose|p: int, j: int|
                        0 <= p < after.len() && 0 <= j < after[p].deps@.len() && after[p].ty.0
                            == walk[k] && (#[trigger] after[p].deps@[j]).0 == walk[k + 1];
                    assert(walk[k] != new_key);
                    assert(before[p].deps@[j].0 == walk[k + 1]);
                    let q = choose|q: int|
                        0 <= q < after.len() && (#[trigger] after[q]).ty.0 == walk[k + 1];
                    assert(walk[k + 1] != new_key);
                    assert(before[q].ty.0 == walk[k + 1]);
                }
                assert(is_dep_walk(before, walk) && walk.first() == key && walk.last() == key);
                assert(on_dep_cycle(before, key));
            }
        }
    }
}

/// `index` maps the type of each visitor to the visitor's position, and holds
/// nothing else.
pub open spec fn is_index_of(visitors: Seq<Visitor>, index: Map<TypeId, usize>) -> bool {
    &&& forall|p: int|
        0 <= p < visitors.len() ==> index.contains_key((#[trigger] visitors[p]).ty.0)
            && index[visitors[p].ty.0] == p
    &&& forall|key: TypeId| #[trigger]
        index.contains_key(key) ==> index[key] < visitors.len() && visitors[index[key] as int].ty.0
            == key
}

/// The number of visitors among the first `upto` whose type has no node yet.
spec fn count_unseen(visitors: Seq<Visitor>, seen: Map<TypeId, usize>, upto: nat) -> nat
    decreases upto,
{
    if upto == 0 {
        0
    } else {
        let rest = count_unseen(visitors, seen, (upto - 1) as nat);
        if seen.contains_key(visitors[upto - 1].ty.0) {
            rest
        } else {
            rest + 1
        }
    }
}

/// The graph in the making, and what validation found so far.
#[derive(Debug)]
pub struct VisitorContext {
    /// The dependency graph: a node for each visited type, named after it.
    graph: DepGraph,
    /// The missing dependencies, one entry for each type that lacks any.
    missing: Vec<MissingDependencies>,
    /// The node of each visited type.
    visited: TypeIndex,
    /// The verdict of the topological sort, once the graph is finished: an
    /// order of the nodes, or one node on a cycle.
    validation_cache: Option<Result<Vec<usize>, usize>>,
    /// The type that each node stands for.
    node_keys: Vec<TypeId>,
}

impl VisitorContext {
    /// Nothing has been visited, and there is no verdict.
    pub closed spec fn is_blank(&self) -> bool {
        &&& graph_nodes(self.graph).len() == 0
        &&& graph_edges(self.graph).len() == 0
        &&& self.missing@.len() == 0
        &&& self.visited@ =~= Map::empty()
        &&& self.validation_cache is None
        &&& self.node_keys@.len() == 0
    }

    /// A new, blank context.
    pub fn new() -> (context: Self)
        ensures
            context.is_blank(),
    {
        Self {
            graph: graph_new(),
            missing: Vec::new(),
            visited: index_new(),
            validation_cache: None,
            node_keys: Vec::new(),
        }
    }

    /// Forgets the graph, the missing dependencies and the verdict.
    pub fn reset(&mut self)
        ensures
            final(self).is_blank(),
    {
        graph_clear(&mut self.graph);
        self.missing.clear();
        index_clear(&mut self.visited);
        self.validation_cache = None;
        self.node_keys.clear();
    }

    /// The nodes stand one to one for the visited types, every edge is a
    /// dependency that a visitor lists, and every entry of missing
    /// dependencies tells exactly what its type lacks.
    spec fn linked(&self, visitors: Seq<Visitor>, index: Map<TypeId, usize>) -> bool {
        let keys = self.node_keys@;
        let seen = self.visited@;
        let nodes = graph_nodes(self.graph);
        let edges = graph_edges(self.graph);
        &&& keys.len() == nodes.len()
        &&& forall|j: int|
            0 <= j < keys.len() ==> {
                &&& seen.contains_key(#[trigger] keys[j])
                &&& seen[keys[j]] == j
                &&& index.contains_key(keys[j])
                &&& nodes[j] == visitors[index[keys[j]] as int].ty.1@
            }
        &&& forall|key: TypeId| #[trigger]
            seen.contains_key(key) ==> seen[key] < keys.len() && keys[seen[key] as int] == key
        &&& forall|e: int|
            0 <= e < edges.len() ==> {
                let edge = #[trigger] edges[e];
                &&& 0 <= edge.0 < keys.len()
                &&& 0 <= edge.1 < keys.len()
                &&& declares(visitors, keys[edge.0], keys[edge.1])
            }
        &&& forall|m: int|
            0 <= m < self.missing@.len() ==> {
                let entry = #[trigger] self.missing@[m];
                &&& seen.contains_key(entry.ty.0)
                &&& index.contains_key(entry.ty.0)
                &&& entry.ty == visitors[index[entry.ty.0] as int].ty
                &&& entry.deps@ == missing_of(visitors, index[entry.ty.0] as int)
                &&& entry.deps@.len() > 0
            }
        &&& forall|m: int, n: int|
            0 <= m < n < self.missing@.len() ==> (#[trigger] self.missing@[m]).ty.0 != (
            #[trigger] self.missing@[n]).ty.0
    }

    /// The first `upto` dependencies of the visitor at `p` are dealt with:
    /// each registered one has a node, and an edge leads to it.
    spec fn linked_upto(&self, visitors: Seq<Visitor>, p: int, upto: int) -> bool {
        let seen = self.visited@;
        forall|k: int|
            0 <= k < upto && registered(visitors, (#[trigger] visitors[p].deps@[k]).0) ==> {
                &&& seen.contains_key(visitors[p].deps@[k].0)
                &&& seen.contains_key(visitors[p].ty.0)
                &&& graph_edges(self.graph).contains(
                    (seen[visitors[p].ty.0] as int, seen[visitors[p].deps@[k].0] as int),
                )
            }
    }

    /// The visitor at `p` has run to its end.
    spec fn done(&self, visitors: Seq<Visitor>, p: int) -> bool {
        &&& self.linked_upto(visitors, p, visitors[p].deps@.len() as int)
        &&& missing_of(visitors, p).len() > 0 ==> reports(self.missing@, visitors[p].ty.0)
    }

    /// Every visitor that has a node has run to its end, but for those of the
    /// types in `open`, which are still running and have no entry of missing
    /// dependencies yet.
    spec fn closed_except(&self, visitors: Seq<Visitor>, open: Set<TypeId>) -> bool {
        &&& forall|p: int|
            0 <= p < visitors.len() && self.visited@.contains_key((#[trigger] visitors[p]).ty.0)
                && !open.contains(visitors[p].ty.0) ==> self.done(visitors, p)
        &&& forall|m: int|
            0 <= m < self.missing@.len() ==> !open.contains((#[trigger] self.missing@[m]).ty.0)
    }

    /// This context holds all that `before` held, and maybe more.
    spec fn extends(&self, before: VisitorContext) -> bool {
        &&& before.node_keys@.is_prefix_of(self.node_keys@)
        &&& graph_nodes(before.graph).is_prefix_of(graph_nodes(self.graph))
        &&& graph_edges(before.graph).is_prefix_of(graph_edges(self.graph))
        &&& before.missing@.is_prefix_of(self.missing@)
        &&& forall|key: TypeId| #[trigger]
            before.visited@.contains_key(key) ==> self.visited@.contains_key(key)
                && self.visited@[key] == before.visited@[key]
        &&& self.validation_cache == before.validation_cache
    }

    /// Every visitor has run to its end.
    spec fn complete(&self, visitors: Seq<Visitor>) -> bool {
        &&& self.closed_except(visitors, Set::empty())
        &&& forall|p: int|
            0 <= p < visitors.len() ==> self.visited@.contains_key((#[trigger] visitors[p]).ty.0)
    }

    /// The context fits the visitors: it is blank, or it holds the finished
    /// graph of these visitors and the verdict on that graph.
    spec fn fits(&self, visitors: Seq<Visitor>, index: Map<TypeId, usize>) -> bool {
        match self.validation_cache {
            None => self.is_blank(),
            Some(verdict) => {
                &&& self.linked(visitors, index)
                &&& self.complete(visitors)
                &&& is_verdict(
                    verdict,
                    graph_nodes(self.graph).len(),
                    graph_edges(self.graph),
                )
            },
        }
    }
}

/// Where `later` has a node for every type that `seen` has one for, no more
/// visitors are without a node.
proof fn lemma_count_unseen_grows(
    visitors: Seq<Visitor>,
    seen: Map<TypeId, usize>,
    later: Map<TypeId, usize>,
    upto: nat,
)
    requires
        upto <= visitors.len(),
        forall|key: TypeId| #[trigger] seen.contains_key(key) ==> later.contains_key(key),
    ensures
        count_unseen(visitors, later, upto) <= count_unseen(visitors, seen, upto),
    decreases upto,
{
    if upto > 0 {
        lemma_count_unseen_grows(visitors, seen, later, (upto - 1) as nat);
    }
}

/// Where `later` also has a node for the visitor at `p`, which `seen` lacks,
/// fewer visitors are without a node.
proof fn lemma_count_unseen_drops(
    visitors: Seq<Visitor>,
    seen: Map<TypeId, usize>,
    later: Map<TypeId, usize>,
    upto: nat,
    p: int,
)
    requires
        upto <= visitors.len(),
        0 <= p < upto,
        forall|key: TypeId| #[trigger] seen.contains_key(key) ==> later.contains_key(key),
        !seen.contains_key(visitors[p].ty.0),
        later.contains_key(visitors[p].ty.0),
    ensures
        count_unseen(visitors, later, upto) < count_unseen(visitors, seen, upto),
    decreases upto,
{
    if p == upto - 1 {
        lemma_count_unseen_grows(visitors, seen, later, (upto - 1) as nat);
    } else {
        lemma_count_unseen_drops(visitors, seen, later, (upto - 1) as nat, p);
    }
}

/// A visitor that has run to its end stays so when more is added.
proof fn lemma_done_stays(
    before: VisitorContext,
    after: VisitorContext,
    visitors: Seq<Visitor>,
    p: int,
)
    requires
        after.extends(before),
        before.done(visitors, p),
    ensures
        after.done(visitors, p),
{
    let seen = before.visited@;
    assert forall|k: int|
        0 <= k < visitors[p].deps@.len() && registered(
            visitors,
            (#[trigger] visitors[p].deps@[k]).0,
        ) implies after.visited@.contains_key(visitors[p].deps@[k].0)
        && after.visited@.contains_key(visitors[p].ty.0) && graph_edges(after.graph).contains(
        (
            after.visited@[visitors[p].ty.0] as int,
            after.visited@[visitors[p].deps@[k].0] as int,
        ),
    ) by {
        let edge = (seen[visitors[p].ty.0] as int, seen[visitors[p].deps@[k].0] as int);
        let e = choose|e: int|
            0 <= e < graph_edges(before.graph).len() && graph_edges(before.graph)[e] == edge;
        assert(graph_edges(after.graph)[e] == edge);
    }
    if missing_of(visitors, p).len() > 0 {
        let m = choose|m: int|
            0 <= m < before.missing@.len() && (#[trigger] before.missing@[m]).owner().0
                == visitors[p].ty.0;
        assert(after.missing@[m] == before.missing@[m]);
    }
}

/// The visitors that have run to their end stay so when edges are added.
proof fn lemma_closed_stays(
    before: VisitorContext,
    after: VisitorContext,
    visitors: Seq<Visitor>,
    open: Set<TypeId>,
)
    requires
        after.extends(before),
        before.closed_except(visitors, open),
        after.visited@ == before.visited@,
        after.missing@ == before.missing@,
    ensures
        after.closed_except(visitors, open),
{
    assert forall|p: int|
        0 <= p < visitors.len() && after.visited@.contains_key((#[trigger] visitors[p]).ty.0)
            && !open.contains(visitors[p].ty.0) implies after.done(visitors, p) by {
        lemma_done_stays(before, after, visitors, p);
    }
}

/// Runs the visitor at `at`, unless its type has a node already: adds a node
/// for the type, then an edge to each registered dependency, running the
/// visitor of a dependency first where it has no node yet; notes the
/// dependencies that are not registered. Returns the node of the type.
fn visit(
    visitors: &Vec<Visitor>,
    index: &TypeIndex,
    at: usize,
    context: &mut VisitorContext,
    Ghost(open): Ghost<Set<TypeId>>,
) -> (node: usize)
    requires
        is_index_of(visitors@, index@),
        at < visitors.len(),
        old(context).linked(visitors@, index@),
        old(context).closed_except(visitors@, open),
        forall|key: TypeId| #[trigger] open.contains(key) ==> old(context).visited@.contains_key(key),
    ensures
        final(context).linked(visitors@, index@),
        final(context).closed_except(visitors@, open),
        final(context).extends(*old(context)),
        final(context).visited@.contains_key(visitors@[at as int].ty.0),
        node == final(context).visited@[visitors@[at as int].ty.0],
    decreases count_unseen(visitors@, old(context).visited@, visitors@.len()),
{
    let key = visitors[at].ty.0;
    if let Some(node) = index_get(&context.visited, &key) {
        return node;
    }
    let ghost entry = *context;
    let current = graph_add_node(&mut context.graph, visitors[at].ty.1);
    index_insert(&mut context.visited, key, current);
    context.node_keys.push(key);
    let ghost running = open.insert(key);
    proof {
        lemma_count_unseen_drops(
            visitors@,
            entry.visited@,
            context.visited@,
            visitors@.len(),
            at as int,
        );
        assert(context.extends(entry));
        assert(context.linked(visitors@, index@));
        assert forall|p: int|
            0 <= p < visitors@.len() && context.visited@.contains_key(
                (#[trigger] visitors@[p]).ty.0,
            ) && !running.contains(visitors@[p].ty.0) implies context.done(visitors@, p) by {
            lemma_done_stays(entry, *context, visitors@, p);
        }
        assert(context.closed_except(visitors@, running));
    }
    let ghost started = *context;
    let mut mine: Vec<(TypeId, &'static str)> = Vec::new();
    let mut k: usize = 0;
    while k < visitors[at].deps.len()
        invariant
            is_index_of(visitors@, index@),
            at < visitors.len(),
            key == visitors@[at as int].ty.0,
            running == open.insert(key),
            0 <= k <= visitors@[at as int].deps@.len(),
            context.linked(visitors@, index@),
            context.closed_except(visitors@, running),
            context.extends(started),
            started.visited@.contains_key(key),
            started.visited@[key] == current,
            context.linked_upto(visitors@, at as int, k as int),
            mine@ == visitors@[at as int].deps@.take(k as int).filter(lacks(visitors@)),
            entry == *old(context),
            count_unseen(visitors@, started.visited@, visitors@.len()) < count_unseen(
                visitors@,
                entry.visited@,
                visitors@.len(),
            ),
            forall|key: TypeId| #[trigger] running.contains(key) ==> started.visited@.contains_key(key),
            count_unseen(visitors@, context.visited@, visitors@.len()) <= count_unseen(
                visitors@,
                started.visited@,
                visitors@.len(),
            ),
        decreases visitors@[at as int].deps@.len() - k,
    {
        let dep = visitors[at].deps[k];
        let ghost round = *context;
        let ghost is_missing = lacks(visitors@);
        proof {
            let upto = visitors@[at as int].deps@.take(k as int);
            let next = visitors@[at as int].deps@.take(k + 1);
            assert(next =~= upto + seq![dep]);
            Seq::filter_distributes_over_add(upto, seq![dep], is_missing);
            reveal_with_fuel(Seq::filter, 2);
            assert(seq![dep].filter(is_missing) =~= if is_missing(dep) {
                seq![dep]
            } else {
                Seq::empty()
            });
        }
        match index_get(&context.visited, &dep.0) {
            Some(node) => {
                graph_add_edge(&mut context.graph, current, node);
                proof {
                    assert(registered(visitors@, dep.0));
                    lemma_closed_stays(round, *context, visitors@, running);
                }
            },
            None => {
                match index_get(index, &dep.0) {
                    Some(position) => {
                        let node = visit(visitors, index, position, context, Ghost(running));
                        let ghost visited = *context;
                        graph_add_edge(&mut context.graph, current, node);
                        proof {
                            assert(registered(visitors@, dep.0));
                            lemma_closed_stays(visited, *context, visitors@, running);
                            lemma_count_unseen_grows(
                                visitors@,
                                round.visited@,
                                context.visited@,
                                visitors@.len(),
                            );
                        }
                    },
                    None => {
                        mine.push(dep);
                        proof {
                            assert(!registered(visitors@, dep.0));
                        }
                    },
                }
            },
        }
        proof {
            assert(context.extends(round));
            assert(context.extends(started));
            assert(declares(visitors@, key, dep.0)) by {
                assert(visitors@[at as int].deps@[k as int].0 == dep.0);
            }
            assert(context.linked(visitors@, index@));
            assert(context.linked_upto(visitors@, at as int, k + 1)) by {
                assert forall|j: int|
                    0 <= j < k + 1 && registered(
                        visitors@,
                        (#[trigger] visitors@[at as int].deps@[j]).0,
                    ) implies context.visited@.contains_key(visitors@[at as int].deps@[j].0)
                    && context.visited@.contains_key(visitors@[at as int].ty.0) && graph_edges(
                    context.graph,
                ).contains(
                    (
                        context.visited@[visitors@[at as int].ty.0] as int,
                        context.visited@[visitors@[at as int].deps@[j].0] as int,
                    ),
                ) by {
                    if j < k {
                        let seen = round.visited@;
                        let edge = (
                            seen[key] as int,
                            seen[visitors@[at as int].deps@[j].0] as int,
                        );
                        let e = choose|e: int|
                            0 <= e < graph_edges(round.graph).len() && graph_edges(
                                round.graph,
                            )[e] == edge;
                        assert(graph_edges(context.graph)[e] == edge);
                    } else {
                        let last = graph_edges(context.graph).len() - 1;
                        assert(graph_edges(context.graph)[last] == (
                            current as int,
                            context.visited@[dep.0] as int,
                        ));
                    }
                }
            }
        }
        k += 1;
    }
    let ghost walked = *context;
    if mine.len() > 0 {
        context.missing.push(MissingDependencies { ty: visitors[at].ty, deps: mine });
    }
    proof {
        assert(visitors@[at as int].deps@.take(k as int) =~= visitors@[at as int].deps@);
        assert(context.extends(walked));
        assert(context.extends(entry));
        assert(context.linked(visitors@, index@));
        assert forall|p: int|
            0 <= p < visitors@.len() && context.visited@.contains_key(
                (#[trigger] visitors@[p]).ty.0,
            ) && !open.contains(visitors@[p].ty.0) implies context.done(visitors@, p) by {
            if p == at {
                if missing_of(visitors@, p).len() > 0 {
                    let m = context.missing@.len() - 1;
                    assert(context.missing@[m].owner().0 == key);
                }
            } else {
                lemma_done_stays(walked, *context, visitors@, p);
            }
        }
    }
    current
}

impl VisitorContext {
    /// What the context has to say without running the visitors: the error
    /// found, `Ok(true)` where the graph was found to be in order, or
    /// `Ok(false)` where the visitors have yet to run.
    spec fn cached(&self) -> Result<bool, ValidationError> {
        if self.missing@.len() > 0 {
            Err(ValidationError::Missing)
        } else {
            match self.validation_cache {
                Some(Ok(_)) => Ok(true),
                Some(Err(_)) => Err(ValidationError::Cycle),
                None => Ok(false),
            }
        }
    }

    /// Where the visitors have run, the context tells what validation says
    /// of them.
    proof fn lemma_cached_is_verdict(&self, visitors: Seq<Visitor>, index: Map<TypeId, usize>)
        requires
            is_index_of(visitors, index),
            self.fits(visitors, index),
            self.validation_cache is Some,
        ensures
            match verdict_of(visitors) {
                Ok(()) => self.cached() == Ok::<bool, ValidationError>(true),
                Err(error) => self.cached() == Err::<bool, ValidationError>(error),
            },
    {
        self.lemma_missing_found(visitors, index);
        match self.validation_cache->0 {
            Ok(order) => {
                if has_dep_cycle(visitors) {
                    let key = choose|key: TypeId| #[trigger] on_dep_cycle(visitors, key);
                    self.lemma_cycle_in_graph(visitors, index, key);
                    lemma_topological_no_cycle(
                        crate::graph::as_ints(order@),
                        graph_nodes(self.graph).len(),
                        graph_edges(self.graph),
                    );
                }
            },
            Err(node) => {
                self.lemma_cycle_in_deps(visitors, index, node as int);
            },
        }
    }

    /// Where the visitors have run, the context has entries of missing
    /// dependencies exactly if some dependency is not registered, and the
    /// entries are the full report.
    proof fn lemma_missing_found(&self, visitors: Seq<Visitor>, index: Map<TypeId, usize>)
        requires
            is_index_of(visitors, index),
            self.linked(visitors, index),
            self.complete(visitors),
        ensures
            self.missing@.len() > 0 <==> has_missing(visitors),
            is_missing_report(visitors, self.missing@),
    {
        if self.missing@.len() > 0 {
            let entry = self.missing@[0];
            assert(missing_of(visitors, index[entry.ty.0] as int).len() > 0);
        }
        assert forall|m: int| 0 <= m < self.missing@.len() implies exists|p: int|
            0 <= p < visitors.len() && (#[trigger] self.missing@[m]).owner() == (
            #[trigger] visitors[p]).ty && self.missing@[m].missing() == missing_of(visitors, p)
                && self.missing@[m].missing().len() > 0 by {
            let entry = self.missing@[m];
            let p = index[entry.ty.0] as int;
            assert(entry.owner() == visitors[p].ty);
        }
        assert forall|p: int|
            0 <= p < visitors.len() && (#[trigger] missing_of(visitors, p)).len()
                > 0 implies reports(self.missing@, visitors[p].ty.0) by {
            assert(self.visited@.contains_key(visitors[p].ty.0));
            assert(self.done(visitors, p));
        }
    }

    /// A cycle of the graph is a cycle of the dependencies.
    proof fn lemma_cycle_in_deps(
        &self,
        visitors: Seq<Visitor>,
        index: Map<TypeId, usize>,
        node: int,
    )
        requires
            is_index_of(visitors, index),
            self.linked(visitors, index),
            0 <= node < graph_nodes(self.graph).len(),
            on_cycle(graph_edges(self.graph), node),
        ensures
            on_dep_cycle(visitors, self.node_keys@[node]),
            has_dep_cycle(visitors),
    {
        let edges = graph_edges(self.graph);
        let keys = self.node_keys@;
        let walk = choose|walk: Seq<int>| #[trigger]
            is_walk(edges, walk) && walk.first() == node && walk.last() == node;
        assert forall|j: int| 0 <= j < keys.len() implies registered(
            visitors,
            #[trigger] keys[j],
        ) by {
            assert(visitors[index[keys[j]] as int].ty.0 == keys[j]);
        }
        lemma_walk_in_deps(visitors, keys, edges, walk);
    }

    /// A cycle of the dependencies is a cycle of the finished graph.
    proof fn lemma_cycle_in_graph(
        &self,
        visitors: Seq<Visitor>,
        index: Map<TypeId, usize>,
        key: TypeId,
    )
        requires
            is_index_of(visitors, index),
            self.linked(visitors, index),
            self.complete(visitors),
            on_dep_cycle(visitors, key),
        ensures
            has_cycle(graph_edges(self.graph)),
    {
        let edges = graph_edges(self.graph);
        let seen = self.visited@;
        let key_walk = choose|walk: Seq<TypeId>| #[trigger]
            is_dep_walk(visitors, walk) && walk.first() == key && walk.last() == key;
        let walk = Seq::new(key_walk.len(), |k: int| seen[key_walk[k]] as int);
        assert forall|k: int| 0 <= k < walk.len() - 1 implies edges.contains(
            (#[trigger] walk[k], walk[k + 1]),
        ) by {
            assert(depends(visitors, key_walk[k], key_walk[k + 1]));
            let (p, j) = choose|p: int, j: int|
                0 <= p < visitors.len() && 0 <= j < visitors[p].deps@.len() && visitors[p].ty.0
                    == key_walk[k] && (#[trigger] visitors[p].deps@[j]).0 == key_walk[k + 1];
            assert(self.visited@.contains_key(visitors[p].ty.0));
            assert(self.done(visitors, p));
            assert(registered(visitors, visitors[p].deps@[j].0));
        }
        assert(is_walk(edges, walk));
        assert(walk.first() == walk.last());
        assert(on_cycle(edges, walk.first()));
    }

    /// Where the visitors have run, the graph shows the registered types and
    /// their dependencies: each node stands for a registered type of its
    /// own, each registered type has a node, and the edges are the
    /// dependencies between registered types.
    proof fn lemma_graph_shows(&self, visitors: Seq<Visitor>, index: Map<TypeId, usize>)
        requires
            is_index_of(visitors, index),
            self.linked(visitors, index),
            self.complete(visitors),
        ensures
            shows(
                visitors,
                Seq::new(self.node_keys@.len(), |j: int| index[self.node_keys@[j]] as int),
                graph_nodes(self.graph),
                graph_edges(self.graph),
            ),
    {
        let keys = self.node_keys@;
        let seen = self.visited@;
        let edges = graph_edges(self.graph);
        let stands_for = Seq::new(keys.len(), |j: int| index[keys[j]] as int);
        assert forall|p: int| 0 <= p < visitors.len() implies stands_for.contains(p) by {
            assert(seen.contains_key(visitors[p].ty.0));
            let j = seen[visitors[p].ty.0] as int;
            assert(stands_for[j] == p);
        }
        assert forall|a: int, b: int|
            0 <= a < stands_for.len() && 0 <= b < stands_for.len() implies (edges.contains((a, b))
            <==> depends(
            visitors,
            visitors[#[trigger] stands_for[a]].ty.0,
            visitors[#[trigger] stands_for[b]].ty.0,
        )) by {
            let from = visitors[stands_for[a]].ty.0;
            let to = visitors[stands_for[b]].ty.0;
            assert(from == keys[a] && to == keys[b]);
            if edges.contains((a, b)) {
                let e = choose|e: int| 0 <= e < edges.len() && edges[e] == (a, b);
                assert(edges[e] == (a, b));
                assert(declares(visitors, keys[a], keys[b]));
                assert(visitors[index[to] as int].ty.0 == to);
            }
            if depends(visitors, from, to) {
                let (p, j) = choose|p: int, j: int|
                    0 <= p < visitors.len() && 0 <= j < visitors[p].deps@.len()
                        && visitors[p].ty.0 == from && (#[trigger] visitors[p].deps@[j]).0 == to;
                assert(seen.contains_key(visitors[p].ty.0));
                assert(self.done(visitors, p));
                assert(registered(visitors, visitors[p].deps@[j].0));
            }
        }
        assert forall|e: int| 0 <= e < edges.len() implies 0 <= (#[trigger] edges[e]).0
            < stands_for.len() && 0 <= edges[e].1 < stands_for.len() by {}
    }
}

/// The graph with these node names and edges shows the visitors, node `j`
/// standing for the visitor at `stands_for[j]`: each node stands for a visitor
/// of its own and carries the display name of its type, each visitor has a
/// node, and an edge leads from one node to another exactly if the type of the
/// first depends on the type of the second.
pub open spec fn shows(
    visitors: Seq<Visitor>,
    stands_for: Seq<int>,
    nodes: Seq<Seq<char>>,
    edges: Seq<(int, int)>,
) -> bool {
    &&& stands_for.len() == nodes.len()
    &&& stands_for.no_duplicates()
    &&& forall|j: int|
        0 <= j < stands_for.len() ==> 0 <= (#[trigger] stands_for[j]) < visitors.len() && nodes[j]
            == visitors[stands_for[j]].ty.1@
    &&& forall|p: int| 0 <= p < visitors.len() ==> #[trigger] stands_for.contains(p)
    &&& forall|e: int|
        0 <= e < edges.len() ==> 0 <= (#[trigger] edges[e]).0 < stands_for.len() && 0
            <= edges[e].1 < stands_for.len()
    &&& forall|a: int, b: int|
        0 <= a < stands_for.len() && 0 <= b < stands_for.len() ==> (edges.contains((a, b))
            <==> depends(
            visitors,
            visitors[#[trigger] stands_for[a]].ty.0,
            visitors[#[trigger] stands_for[b]].ty.0,
        ))
}

/// `text` is what the graph library writes for some graph that shows the
/// visitors.
pub open spec fn renders(visitors: Seq<Visitor>, text: Seq<char>) -> bool {
    exists|stands_for: Seq<int>, nodes: Seq<Seq<char>>, edges: Seq<(int, int)>| #[trigger]
        shows(visitors, stands_for, nodes, edges) && text == crate::graph::dot_text(nodes, edges)
}

/// A walk in a graph of which each node stands for a registered type and
/// each edge for a declared dependency is a walk along the dependencies.
proof fn lemma_walk_in_deps(
    visitors: Seq<Visitor>,
    keys: Seq<TypeId>,
    edges: Seq<(int, int)>,
    walk: Seq<int>,
)
    requires
        forall|j: int| 0 <= j < keys.len() ==> registered(visitors, #[trigger] keys[j]),
        forall|e: int|
            0 <= e < edges.len() ==> {
                let edge = #[trigger] edges[e];
                &&& 0 <= edge.0 < keys.len()
                &&& 0 <= edge.1 < keys.len()
                &&& declares(visitors, keys[edge.0], keys[edge.1])
            },
        is_walk(edges, walk),
        walk.first() == walk.last(),
    ensures
        on_dep_cycle(visitors, keys[walk.first()]),
        has_dep_cycle(visitors),
{
    let key_walk = Seq::new(walk.len(), |k: int| keys[walk[k]]);
    assert forall|k: int| 0 <= k < key_walk.len() - 1 implies depends(
        visitors,
        #[trigger] key_walk[k],
        key_walk[k + 1],
    ) by {
        let edge = (walk[k], walk[k + 1]);
        assert(edges.contains(edge));
        let e = choose|e: int| 0 <= e < edges.len() && edges[e] == edge;
        assert(edges[e] == edge);
        assert(declares(visitors, keys[edge.0], keys[edge.1]));
        assert(registered(visitors, keys[edge.1]));
    }
    let first = keys[walk.first()];
    assert(edges.contains((walk[0], walk[1])));
    assert(is_dep_walk(visitors, key_walk) && key_walk.first() == first && key_walk.last()
        == first);
    assert(on_dep_cycle(visitors, first));
}

/// Along a walk, places in a topological order only grow.
proof fn lemma_walk_climbs(
    order: Seq<int>,
    count: nat,
    edges: Seq<(int, int)>,
    walk: Seq<int>,
    upto: int,
    i: int,
    j: int,
)
    requires
        is_topological(order, count, edges),
        forall|e: int|
            0 <= e < edges.len() ==> 0 <= (#[trigger] edges[e]).0 < count && 0 <= edges[e].1
                < count,
        is_walk(edges, walk),
        1 <= upto < walk.len(),
        0 <= i < order.len(),
        0 <= j < order.len(),
        order[i] == walk[0],
        order[j] == walk[upto],
    ensures
        i < j,
    decreases upto,
{
    let e = choose|e: int| 0 <= e < edges.len() && edges[e] == (walk[upto - 1], walk[upto]);
    assert(edges.contains((walk[upto - 1], walk[upto])));
    assert(edges[e] == (walk[upto - 1], walk[upto]));
    if upto == 1 {
        assert(edges.contains((order[i], order[j])));
    } else {
        let before = walk[upto - 1];
        assert(order.contains(before));
        let q = choose|q: int| 0 <= q < order.len() && order[q] == before;
        lemma_walk_climbs(order, count, edges, walk, upto - 1, i, q);
        assert(edges.contains((order[q], order[j])));
    }
}

/// A graph that has a topological order has no cycle.
proof fn lemma_topological_no_cycle(order: Seq<int>, count: nat, edges: Seq<(int, int)>)
    requires
        is_topological(order, count, edges),
        forall|e: int|
            0 <= e < edges.len() ==> 0 <= (#[trigger] edges[e]).0 < count && 0 <= edges[e].1
                < count,
    ensures
        !has_cycle(edges),
{
    if has_cycle(edges) {
        let node = choose|node: int| #[trigger] on_cycle(edges, node);
        let walk = choose|walk: Seq<int>| #[trigger]
            is_walk(edges, walk) && walk.first() == node && walk.last() == node;
        assert(edges.contains((walk[0], walk[1])));
        let e = choose|e: int| 0 <= e < edges.len() && edges[e] == (walk[0], walk[1]);
        assert(edges[e] == (walk[0], walk[1]));
        assert(order.contains(node));
        let i = choose|i: int| 0 <= i < order.len() && order[i] == node;
        lemma_walk_climbs(order, count, edges, walk, walk.len() - 1, i, i);
    }
}

/// Runs all visitors on a blank context, then sorts the finished graph
/// topologically and keeps the verdict.
fn calculate_validation(visitors: &Vec<Visitor>, index: &TypeIndex, context: &mut VisitorContext)
    requires
        is_index_of(visitors@, index@),
        old(context).is_blank(),
    ensures
        final(context).fits(visitors@, index@),
        final(context).validation_cache is Some,
{
    let mut at: usize = 0;
    while at < visitors.len()
        invariant
            is_index_of(visitors@, index@),
            0 <= at <= visitors.len(),
            context.linked(visitors@, index@),
            context.closed_except(visitors@, Set::empty()),
            context.validation_cache is None,
            forall|p: int|
                0 <= p < at ==> context.visited@.contains_key((#[trigger] visitors@[p]).ty.0),
        decreases visitors.len() - at,
    {
        let ghost before = *context;
        visit(visitors, index, at, context, Ghost(Set::empty()));
        at += 1;
    }
    let verdict = graph_toposort(&context.graph);
    context.validation_cache = Some(verdict);
}

/// Tells what the context has to say without running the visitors.
fn validate_context(context: &VisitorContext) -> (cached: Result<bool, ValidationError>)
    ensures
        cached == context.cached(),
{
    if context.missing.len() > 0 {
        return Err(ValidationError::Missing);
    }
    match &context.validation_cache {
        Some(Ok(_)) => Ok(true),
        Some(Err(_)) => Err(ValidationError::Cycle),
        None => Ok(false),
    }
}

/// Validation whether all dependencies are registered, and whether the
/// dependencies are free of cycles.
#[derive(Debug)]
pub struct DependencyValidator {
    /// The visitors, in the order in which their types were registered.
    visitor: Vec<Visitor>,
    /// The position of each type's visitor.
    index: TypeIndex,
    /// The graph and the verdict, kept from one validation to the next.
    context: VisitorContext,
}

impl DependencyValidator {
    /// The visitors, in the order in which their types were registered.
    pub closed spec fn visitors(&self) -> Seq<Visitor> {
        self.visitor@
    }

    /// The validator is in order: it finds each visitor by its type, and
    /// what it has kept of the last validation fits the visitors.
    pub closed spec fn wf(&self) -> bool {
        &&& is_index_of(self.visitor@, self.index@)
        &&& self.context.fits(self.visitor@, self.index@)
    }

    /// A validation has run since the last type was registered.
    pub closed spec fn is_cached(&self) -> bool {
        self.context.validation_cache is Some
    }

    /// How far the type with this id stands from the end of the topological
    /// order that the last validation found. Without such an order the rank
    /// is zero.
    pub closed spec fn rank(&self, key: TypeId) -> nat {
        match self.context.validation_cache {
            Some(Ok(order)) => if self.context.visited@.contains_key(key) {
                (order@.len() - crate::graph::as_ints(order@).index_of(
                    self.context.visited@[key] as int,
                )) as nat
            } else {
                0
            },
            _ => 0,
        }
    }

    /// After a validation that found nothing wrong, a type ranks above each
    /// registered type that it depends on.
    pub proof fn lemma_rank_decreases(&self, owner: TypeId, dep: TypeId)
        requires
            self.wf(),
            self.is_cached(),
            verdict_of(self.visitors()) is Ok,
            depends(self.visitors(), owner, dep),
        ensures
            self.rank(dep) < self.rank(owner),
    {
        let visitors = self.visitor@;
        let context = self.context;
        let seen = context.visited@;
        let edges = graph_edges(context.graph);
        context.lemma_cached_is_verdict(visitors, self.index@);
        let order = crate::graph::as_ints(context.validation_cache->0->Ok_0@);
        let (p, j) = choose|p: int, j: int|
            0 <= p < visitors.len() && 0 <= j < visitors[p].deps@.len() && visitors[p].ty.0
                == owner && (#[trigger] visitors[p].deps@[j]).0 == dep;
        assert(seen.contains_key(visitors[p].ty.0));
        assert(context.done(visitors, p));
        assert(registered(visitors, visitors[p].deps@[j].0));
        let from = seen[owner] as int;
        let to = seen[dep] as int;
        assert(edges.contains((from, to)));
        assert(order.contains(from));
        assert(order.contains(to));
        let i = order.index_of(from);
        let k = order.index_of(to);
        assert(edges.contains((order[i], order[k])));
    }

    /// Where validation finds nothing wrong, every dependency of every
    /// visitor is registered; after such a validation, the visitor's type
    /// ranks above each of its dependencies.
    pub proof fn lemma_deps_rank_below(&self, p: int, k: int)
        requires
            self.wf(),
            verdict_of(self.visitors()) is Ok,
            0 <= p < self.visitors().len(),
            0 <= k < self.visitors()[p].deps@.len(),
        ensures
            registered(self.visitors(), self.visitors()[p].deps@[k].0),
            depends(self.visitors(), self.visitors()[p].ty.0, self.visitors()[p].deps@[k].0),
            self.is_cached() ==> self.rank(self.visitors()[p].deps@[k].0) < self.rank(
                self.visitors()[p].ty.0,
            ),
    {
        let visitors = self.visitor@;
        let dep = visitors[p].deps@[k];
        broadcast use vstd::seq_lib::group_filter_ensures;
        if !registered(visitors, dep.0) {
            assert(lacks(visitors)(visitors[p].deps@[k]));
            assert(missing_of(visitors, p).contains(dep));
            assert(missing_of(visitors, p).len() > 0);
        }
        assert(declares(visitors, visitors[p].ty.0, dep.0));
        if self.is_cached() {
            self.lemma_rank_decreases(visitors[p].ty.0, dep.0);
        }
    }

    /// Creates a validator without visitors.
    pub fn new() -> (validator: Self)
        ensures
            validator.wf(),
            validator.visitors().len() == 0,
            !validator.is_cached(),
    {
        Self { visitor: Vec::new(), index: index_new(), context: VisitorContext::new() }
    }

    /// Tells whether a visitor is registered for the type with this id.
    pub fn is_registered(&self, key: &TypeId) -> (found: bool)
        requires
            self.wf(),
        ensures
            found == registered(self.visitors(), *key),
    {
        let found = index_get(&self.index, key);
        proof {
            if found is Some {
                assert(self.visitor@[found->0 as int].ty.0 == *key);
            }
        }
        found.is_some()
    }

    /// Adds a visitor, and forgets the last validation.
    fn add(&mut self, ty: (TypeId, &'static str), deps: Vec<(TypeId, &'static str)>)
        requires
            old(self).wf(),
            !registered(old(self).visitors(), ty.0),
        ensures
            final(self).wf(),
            !final(self).is_cached(),
            final(self).visitors() == old(self).visitors().push(Visitor { ty, deps }),
    {
        let position = self.visitor.len();
        proof {
            if self.index@.contains_key(ty.0) {
                assert(self.visitor@[self.index@[ty.0] as int].ty.0 == ty.0);
            }
        }
        self.visitor.push(Visitor { ty, deps });
        index_insert(&mut self.index, ty.0, position);
        self.context.reset();
    }

    /// Registers a new transient, without any dependencies.
    pub fn add_transient_no_deps<T: Registerable>(&mut self)
        requires
            old(self).wf(),
            !registered(old(self).visitors(), type_id_of::<T>()),
        ensures
            final(self).wf(),
            !final(self).is_cached(),
            adds(
                old(self).visitors(),
                final(self).visitors(),
                type_id_of::<T>(),
                T::name(),
                Seq::empty(),
            ),
    {
        let ty = (type_id::<T>(), T::display_name());
        self.add(ty, Vec::new());
        assert(self.visitors().drop_last() =~= old(self).visitors());
    }

    /// Registers a new singleton, without any dependencies.
    pub fn add_singleton_no_deps<T: RegisterableSingleton>(&mut self)
        requires
            old(self).wf(),
            !registered(old(self).visitors(), type_id_of::<T>()),
        ensures
            final(self).wf(),
            !final(self).is_cached(),
            adds(
                old(self).visitors(),
                final(self).visitors(),
                type_id_of::<T>(),
                T::name(),
                Seq::empty(),
            ),
    {
        self.add_transient_no_deps::<T>();
    }

    /// Registers a new transient, with the dependencies that `Deps` lists.
    pub fn add_transient_deps<T: Registerable, Deps: DepBuilder>(&mut self)
        requires
            old(self).wf(),
            !registered(old(self).visitors(), type_id_of::<T>()),
        ensures
            final(self).wf(),
            !final(self).is_cached(),
            adds(
                old(self).visitors(),
                final(self).visitors(),
                type_id_of::<T>(),
                T::name(),
                Deps::spec_deps(),
            ),
    {
        let ty = (type_id::<T>(), T::display_name());
        let deps = Deps::as_typeids(SealToken);
        self.add(ty, deps);
        assert(self.visitors().drop_last() =~= old(self).visitors());
    }

    /// Registers a new singleton, with the dependencies that `Deps` lists.
    pub fn add_singleton_deps<T: RegisterableSingleton, Deps: DepBuilder>(&mut self)
        requires
            old(self).wf(),
            !registered(old(self).visitors(), type_id_of::<T>()),
        ensures
            final(self).wf(),
            !final(self).is_cached(),
            adds(
                old(self).visitors(),
                final(self).visitors(),
                type_id_of::<T>(),
                T::name(),
                Deps::spec_deps(),
            ),
    {
        self.add_transient_deps::<T, Deps>();
    }

    /// Walks the dependency graph and checks that every dependency is
    /// registered and that the dependencies form no cycle. The verdict is kept
    /// until the next type is registered.
    pub fn validate_all(&mut self) -> (verdict: Result<(), ValidationError>)
        requires
            old(self).wf(),
        ensures
            final(self).wf(),
            final(self).is_cached(),
            final(self).visitors() == old(self).visitors(),
            old(self).is_cached() ==> *final(self) == *old(self),
            verdict == verdict_of(old(self).visitors()),
    {
        match validate_context(&self.context) {
            Err(error) => {
                proof {
                    self.context.lemma_cached_is_verdict(self.visitor@, self.index@);
                }
                return Err(error);
            },
            Ok(true) => {
                proof {
                    self.context.lemma_cached_is_verdict(self.visitor@, self.index@);
                }
                return Ok(());
            },
            Ok(false) => {},
        }
        calculate_validation(&self.visitor, &self.index, &mut self.context);
        proof {
            self.context.lemma_cached_is_verdict(self.visitor@, self.index@);
        }
        match validate_context(&self.context) {
            Err(error) => Err(error),
            Ok(_) => Ok(()),
        }
    }

    /// Walks the dependency graph like `validate_all`, and tells in detail
    /// what is wrong: what each type lacks, or the name of a type that lies on
    /// a cycle. Nothing is kept of this validation.
    pub fn validate_all_full(&self) -> (verdict: Result<(), FullValidationError>)
        requires
            self.wf(),
        ensures
            verdict is Ok <==> verdict_of(self.visitors()) is Ok,
            verdict matches Err(FullValidationError::Missing(report)) ==> has_missing(
                self.visitors(),
            ) && is_missing_report(self.visitors(), report@),
            verdict matches Err(FullValidationError::Cycle(name)) ==> !has_missing(
                self.visitors(),
            ) && name is Some && names_cycle(self.visitors(), name->0@),
    {
        let mut context = VisitorContext::new();
        calculate_validation(&self.visitor, &self.index, &mut context);
        proof {
            context.lemma_cached_is_verdict(self.visitor@, self.index@);
            context.lemma_missing_found(self.visitor@, self.index@);
        }
        if context.missing.len() > 0 {
            return Err(FullValidationError::Missing(context.missing));
        }
        match &context.validation_cache {
            Some(Ok(_)) => Ok(()),
            Some(Err(node)) => {
                let node_name = graph_node_name(&context.graph, *node);
                proof {
                    context.lemma_cycle_in_deps(self.visitor@, self.index@, *node as int);
                    let key = context.node_keys@[*node as int];
                    let p = self.index@[key] as int;
                    assert(self.visitor@[p].ty.0 == key);
                }
                match node_name {
                    Some(name) => Err(FullValidationError::Cycle(Some(name.to_owned()))),
                    None => Err(FullValidationError::Cycle(None)),
                }
            },
            None => Ok(()),
        }
    }

    /// Checks whether the type `T` can be constructed. This validates all
    /// registered types, as `validate_all` does.
    pub fn validate<T: Registerable>(&mut self) -> (verdict: Result<(), ValidationError>)
        requires
            old(self).wf(),
        ensures
            final(self).wf(),
            final(self).is_cached(),
            final(self).visitors() == old(self).visitors(),
            old(self).is_cached() ==> *final(self) == *old(self),
            verdict == verdict_of(old(self).visitors()),
    {
        self.validate_all()
    }

    /// Writes the dependency graph in the `dot` language of graphviz, after
    /// a validation that must find nothing wrong.
    pub fn dotgraph(&mut self) -> (text: Result<String, ValidationError>)
        requires
            old(self).wf(),
        ensures
            final(self).wf(),
            final(self).is_cached(),
            final(self).visitors() == old(self).visitors(),
            old(self).is_cached() ==> *final(self) == *old(self),
            match text {
                Ok(text) => verdict_of(old(self).visitors()) is Ok && renders(
                    old(self).visitors(),
                    text@,
                ),
                Err(error) => verdict_of(old(self).visitors()) == Err::<(), ValidationError>(error),
            },
    {
        match self.validate_all() {
            Err(error) => Err(error),
            Ok(()) => {
                let text = graph_dot(&self.context.graph);
                proof {
                    self.context.lemma_graph_shows(self.visitor@, self.index@);
                    let keys = self.context.node_keys@;
                    let stands_for = Seq::new(keys.len(), |j: int| self.index@[keys[j]] as int);
                    assert(shows(
                        self.visitor@,
                        stands_for,
                        graph_nodes(self.context.graph),
                        graph_edges(self.context.graph),
                    ));
                }
                Ok(text)
            },
        }
    }
}

/// `name` is the display name of a registered type that depends on itself,
/// directly or through other registered types.
pub open spec fn names_cycle(visitors: Seq<Visitor>, name: Seq<char>) -> bool {
    exists|p: int|
        0 <= p < visitors.len() && on_dep_cycle(visitors, (#[trigger] visitors[p]).ty.0)
            && visitors[p].ty.1@ == name
}

} // verus!
