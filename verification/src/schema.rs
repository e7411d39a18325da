//! The in-memory model of a `.trurl/` directory: project metadata,
//! components, decisions, patterns and the graph index that links them.
use vstd::prelude::*;
use crate::namemap::{NameMap, Named};
use crate::render::lemma_render_filter_take;
use crate::text::str_eq;

verus! {

/// The name under which project-wide decisions are filed.
pub const PROJECT: &'static str = "project";

/// `project.toml`: format version and project metadata.
#[derive(Debug)]
pub struct ProjectFile {
    pub trurl_version: String,
    pub project: Project,
}

#[derive(Debug)]
pub struct Project {
    pub name: String,
    pub description: String,
}

/// A component of the system (`components/<name>.toml`).
#[derive(Debug)]
pub struct Component {
    pub name: String,
    pub description: String,
}

/// An architectural decision (`decisions/<name>.toml`).
/// `created` counts nanoseconds since the UNIX epoch, UTC.
#[derive(Debug)]
pub struct Decision {
    pub component: String,
    pub choice: String,
    pub reason: String,
    pub alternatives: Vec<String>,
    pub tags: Vec<String>,
    pub created: i128,
}

/// A recurring pattern formed by several decisions.
#[derive(Debug)]
pub struct Pattern {
    pub description: String,
    pub decisions: Vec<String>,
}

#[derive(PartialEq, Eq, Structural, Debug, Clone, Copy)]
pub enum NodeKind {
    Component,
    Decision,
    Pattern,
}

/// A node of the graph index, with the content hash of its file.
#[derive(Debug)]
pub struct NodeEntry {
    pub name: String,
    pub kind: NodeKind,
    pub tags: Vec<String>,
    pub hash: String,
}

#[derive(PartialEq, Eq, Structural, Debug, Clone, Copy)]
pub enum EdgeKind {
    /// A component talks to another component.
    ConnectsTo,
    /// A decision is filed under a component (or the project).
    BelongsTo,
    /// A decision replaces an earlier decision.
    Supersedes,
}

#[derive(Debug)]
pub struct EdgeEntry {
    pub from: String,
    pub to: String,
    pub kind: EdgeKind,
}

/// `graph.toml`: the index of nodes and edges. `rebuilt` is in
/// nanoseconds since the UNIX epoch, UTC.
#[derive(Debug)]
pub struct GraphIndex {
    pub version: u32,
    pub rebuilt: i128,
    pub nodes: Vec<NodeEntry>,
    pub edges: Vec<EdgeEntry>,
}

/// Everything loaded from `.trurl/`.
pub struct ProjectState {
    pub project: ProjectFile,
    pub components: NameMap<Component>,
    pub decisions: NameMap<Decision>,
    pub patterns: NameMap<Pattern>,
    pub graph_index: GraphIndex,
}

/// `name` is the project scope or an existing component.
pub open spec fn is_scope(st: ProjectState, name: Seq<char>) -> bool {
    name == PROJECT@ || st.components.has(name)
}

impl ProjectState {
    /// The three collections are ordered by name, without repeats.
    pub open spec fn wf(&self) -> bool {
        &&& self.components.wf()
        &&& self.decisions.wf()
        &&& self.patterns.wf()
    }

    /// Referential integrity of the decision records: every decision is
    /// filed under the project or an existing component, every
    /// `BelongsTo` edge leads from a decision to its scope, every
    /// `Supersedes` edge joins two existing decisions, and every
    /// `ConnectsTo` edge joins two existing components (or the project).
    pub open spec fn consistent(&self) -> bool {
        &&& self.wf()
        &&& forall|k: Seq<char>|
            #[trigger] self.decisions.as_map().dom().contains(k) ==> is_scope(
                *self,
                self.decisions.as_map()[k].component@,
            )
        &&& forall|i: int|
            0 <= i < self.graph_index.edges@.len() ==> edge_consistent(
                *self,
                #[trigger] self.graph_index.edges@[i],
            )
    }

    /// Builds a state from its parts.
    pub fn new(
        project: ProjectFile,
        components: NameMap<Component>,
        decisions: NameMap<Decision>,
        patterns: NameMap<Pattern>,
        graph_index: GraphIndex,
    ) -> (st: Self)
        ensures
            st.project == project,
            st.components == components,
            st.decisions == decisions,
            st.patterns == patterns,
            st.graph_index == graph_index,
    {
        ProjectState { project, components, decisions, patterns, graph_index }
    }
}

impl ProjectState {
    fn is_scope_name(&self, name: &str) -> (r: bool)
        ensures
            r == is_scope(*self, name@),
    {
        str_eq(name, PROJECT) || self.components.contains_key(name)
    }

    /// Whether the state is well formed and its decision records are
    /// referentially intact (see `consistent`).
    pub fn check_integrity(&self) -> (r: bool)
        ensures
            r == self.consistent(),
    {
        if !(self.components.is_well_formed() && self.decisions.is_well_formed()
            && self.patterns.is_well_formed()) {
            return false;
        }
        let ds = &self.decisions.entries;
        for i in 0..ds.len()
            invariant
                self.wf(),
                ds == &self.decisions.entries,
                forall|j: int| 0 <= j < i ==> is_scope(*self, (#[trigger] ds@[j]).value.component@),
        {
            if !self.is_scope_name(ds[i].value.component.as_str()) {
                proof {
                    self.decisions.lemma_index(i as int);
                    assert(self.decisions.as_map().dom().contains(ds@[i as int].name@));
                }
                return false;
            }
        }
        assert forall|k: Seq<char>| #[trigger] self.decisions.as_map().dom().contains(k) implies is_scope(
            *self,
            self.decisions.as_map()[k].component@,
        ) by {
            let j = self.decisions.index_of(k);
            self.decisions.lemma_index(j);
        }
        let es = &self.graph_index.edges;
        for i in 0..es.len()
            invariant
                self.wf(),
                es == &self.graph_index.edges,
                forall|j: int| 0 <= j < i ==> edge_consistent(*self, #[trigger] es@[j]),
        {
            let e = &es[i];
            let ok = match e.kind {
                EdgeKind::BelongsTo => self.decisions.contains_key(e.from.as_str()) && self.is_scope_name(
                    e.to.as_str(),
                ),
                EdgeKind::Supersedes => self.decisions.contains_key(e.from.as_str())
                    && self.decisions.contains_key(e.to.as_str()),
                EdgeKind::ConnectsTo => self.is_scope_name(e.from.as_str()) && self.is_scope_name(
                    e.to.as_str(),
                ),
            };
            if !ok {
                return false;
            }
        }
        true
    }
}

/// The decision records filed under a scope that does not exist.
pub open spec fn unscoped(st: ProjectState) -> spec_fn(Named<Decision>) -> bool {
    |e: Named<Decision>| !is_scope(st, e.value.component@)
}

/// The edges whose ends do not exist.
pub open spec fn dangling(st: ProjectState) -> spec_fn(EdgeEntry) -> bool {
    |e: EdgeEntry| !edge_consistent(st, e)
}

/// The number of integrity issues: decisions filed under a missing scope,
/// and edges with a missing end.
pub open spec fn issue_count(st: ProjectState) -> nat {
    st.decisions.entries@.filter(unscoped(st)).len() + st.graph_index.edges@.filter(dangling(st)).len()
}

proof fn lemma_filter_empty_iff<A>(s: Seq<A>, p: spec_fn(A) -> bool)
    ensures
        s.filter(p).len() == 0 <==> forall|i: int| 0 <= i < s.len() ==> !p(#[trigger] s[i]),
{
    if forall|i: int| 0 <= i < s.len() ==> !p(#[trigger] s[i]) {
        assert(s.all(|x: A| !p(x))) by {
            assert forall|i: int| 0 <= i < s.len() implies (|x: A| !p(x))(#[trigger] s[i]) by {}
        }
        s.lemma_all_neg_filter_empty(p);
    } else {
        let i = choose|i: int| 0 <= i < s.len() && p(#[trigger] s[i]);
        s.lemma_filter_contains(p, i);
    }
}

impl ProjectState {
    /// The number of integrity issues in a well-formed state; none exactly
    /// when the state is consistent.
    pub fn integrity_issues(&self) -> (n: usize)
        requires
            self.wf(),
            self.decisions.entries@.len() + self.graph_index.edges@.len() <= usize::MAX,
        ensures
            n == issue_count(*self),
            n == 0 <==> self.consistent(),
    {
        let ghost f = |e: Named<Decision>| Seq::<char>::empty();
        let ghost g = |e: EdgeEntry| Seq::<char>::empty();
        let ghost pu = unscoped(*self);
        let ghost pd = dangling(*self);
        let ds = &self.decisions.entries;
        let mut a: usize = 0;
        for i in 0..ds.len()
            invariant
                ds == &self.decisions.entries,
                pu == unscoped(*self),
                a == ds@.take(i as int).filter(pu).len(),
                a <= i,
        {
            proof {
                lemma_render_filter_take(ds@, i as int, pu, f);
            }
            if !self.is_scope_name(ds[i].value.component.as_str()) {
                a = a + 1;
            }
        }
        assert(ds@.take(ds@.len() as int) =~= ds@);
        let es = &self.graph_index.edges;
        let mut b: usize = 0;
        for i in 0..es.len()
            invariant
                es == &self.graph_index.edges,
                pd == dangling(*self),
                b == es@.take(i as int).filter(pd).len(),
                b <= i,
        {
            proof {
                lemma_render_filter_take(es@, i as int, pd, g);
            }
            let e = &es[i];
            let ok = match e.kind {
                EdgeKind::BelongsTo => self.decisions.contains_key(e.from.as_str()) && self.is_scope_name(
                    e.to.as_str(),
                ),
                EdgeKind::Supersedes => self.decisions.contains_key(e.from.as_str())
                    && self.decisions.contains_key(e.to.as_str()),
                EdgeKind::ConnectsTo => self.is_scope_name(e.from.as_str()) && self.is_scope_name(
                    e.to.as_str(),
                ),
            };
            if !ok {
                b = b + 1;
            }
        }
        assert(es@.take(es@.len() as int) =~= es@);
        proof {
            lemma_filter_empty_iff(ds@, pu);
            lemma_filter_empty_iff(es@, pd);
            if a == 0 {
                assert forall|k: Seq<char>| #[trigger] self.decisions.as_map().dom().contains(k) implies is_scope(
                    *self,
                    self.decisions.as_map()[k].component@,
                ) by {
                    let j = self.decisions.index_of(k);
                    self.decisions.lemma_index(j);
                    assert(!pu(ds@[j]));
                }
            }
            if a > 0 {
                let j = choose|j: int| 0 <= j < ds@.len() && pu(#[trigger] ds@[j]);
                self.decisions.lemma_index(j);
                assert(self.decisions.as_map().dom().contains(ds@[j].name@));
                assert(!is_scope(*self, self.decisions.as_map()[ds@[j].name@].component@));
            }
            if b == 0 {
                assert forall|i: int| 0 <= i < es@.len() implies edge_consistent(*self, #[trigger] es@[i]) by {
                    assert(!pd(es@[i]));
                }
            }
            if b > 0 {
                let j = choose|j: int| 0 <= j < es@.len() && pd(#[trigger] es@[j]);
                assert(!edge_consistent(*self, es@[j]));
            }
        }
        a + b
    }
}

pub open spec fn edge_consistent(st: ProjectState, e: EdgeEntry) -> bool {
    match e.kind {
        EdgeKind::BelongsTo => st.decisions.as_map().dom().contains(e.from@) && is_scope(st, e.to@),
        EdgeKind::Supersedes => st.decisions.as_map().dom().contains(e.from@)
            && st.decisions.as_map().dom().contains(e.to@),
        EdgeKind::ConnectsTo => is_scope(st, e.from@) && is_scope(st, e.to@),
    }
}

} // verus!
