//! Recording and removing decisions on the in-memory state: the checks
//! that guard a mutation and the graph edges that accompany it.
use vstd::prelude::*;
use crate::clock::{clock_failure, clock_failure_message, now_nanos};
use crate::error::Error;
use crate::naming::{
    candidate, empty_name_message, first_free, is_kebab, is_valid_kebab_case, lemma_candidate_is_kebab, lemma_slug_is_kebab, slug,
    slugify, unique_decision_stem,
};
use crate::schema::{
    edge_consistent, is_scope, Decision, EdgeEntry, EdgeKind, NodeEntry, NodeKind, ProjectState,
    PROJECT,
};
use crate::text::str_eq;

verus! {

pub open spec fn component_missing_message(c: Seq<char>) -> Seq<char> {
    "component `"@ + c + "` does not exist"@
}

pub open spec fn supersede_missing_message(s: Seq<char>) -> Seq<char> {
    "decision `"@ + s + "` does not exist (cannot supersede)"@
}

pub open spec fn decision_missing_message(n: Seq<char>) -> Seq<char> {
    "decision `"@ + n + "` does not exist"@
}

fn component_missing(c: &str) -> (s: String)
    ensures
        s@ == component_missing_message(c@),
{
    let mut s = String::new();
    s.append("component `");
    s.append(c);
    s.append("` does not exist");
    s
}

fn supersede_missing(n: &str) -> (s: String)
    ensures
        s@ == supersede_missing_message(n@),
{
    let mut s = String::new();
    s.append("decision `");
    s.append(n);
    s.append("` does not exist (cannot supersede)");
    s
}

/// The refusal of a change that would leave the records inconsistent.
pub open spec fn integrity_failure_message() -> Seq<char> {
    "the change would leave .trurl/ with consistency issues — run `trurl check`"@
}

fn integrity_failure() -> (s: String)
    ensures
        s@ == integrity_failure_message(),
{
    String::from_str("the change would leave .trurl/ with consistency issues — run `trurl check`")
}

fn decision_missing(n: &str) -> (s: String)
    ensures
        s@ == decision_missing_message(n@),
{
    let mut s = String::new();
    s.append("decision `");
    s.append(n);
    s.append("` does not exist");
    s
}

pub open spec fn opt_view(o: Option<&str>) -> Option<Seq<char>> {
    match o {
        Some(s) => Some(s@),
        None => None,
    }
}

pub open spec fn edge_is(e: EdgeEntry, from: Seq<char>, to: Seq<char>, kind: EdgeKind) -> bool {
    e.from@ == from && e.to@ == to && e.kind == kind
}

/// The fields of a freshly recorded decision.
pub open spec fn decision_holds(
    d: Decision,
    component: Seq<char>,
    choice: Seq<char>,
    reason: Seq<char>,
    alternatives: Seq<String>,
    created: i128,
) -> bool {
    &&& d.component@ == component
    &&& d.choice@ == choice
    &&& d.reason@ == reason
    &&& d.alternatives@ == alternatives
    &&& d.tags@.len() == 0
    &&& d.created == created
}

/// A component name that may carry decisions: the project or kebab-case.
pub open spec fn acceptable_name(component: Seq<char>) -> bool {
    component == PROJECT@ || is_kebab(component)
}

pub open spec fn supersede_target_exists(st: ProjectState, supersedes: Option<Seq<char>>) -> bool {
    match supersedes {
        Some(s) => st.decisions.has(s),
        None => true,
    }
}

/// The component and supersede target pass the checks of `decide`.
pub open spec fn request_valid(st: ProjectState, component: Seq<char>, supersedes: Option<Seq<char>>) -> bool {
    acceptable_name(component) && is_scope(st, component) && supersede_target_exists(st, supersedes)
}

/// What `decide` does, given the clock's reading (`None` when it could not
/// be read): which error it returns, or how the state grows under the
/// returned name. The decision's node carries its content hash.
pub open spec fn decide_post(
    old: ProjectState,
    new: ProjectState,
    component: Seq<char>,
    choice: Seq<char>,
    reason: Seq<char>,
    supersedes: Option<Seq<char>>,
    alternatives: Seq<String>,
    created: Option<i128>,
    r: Result<String, Error>,
) -> bool {
    &&& new.wf()
    &&& r is Ok ==> new.consistent()
    &&& r is Err ==> new == old || refused_for_integrity(
        old,
        new,
        component,
        choice,
        reason,
        supersedes,
        alternatives,
        created,
        r,
    )
    &&& old.consistent() && r is Err ==> new == old
    &&& !acceptable_name(component) ==> (r matches Err(Error::InvalidName(m)) && m@ == component)
    &&& acceptable_name(component) && !is_scope(old, component) ==> (r matches Err(
        Error::Validation(m),
    ) && m@ == component_missing_message(component))
    &&& acceptable_name(component) && is_scope(old, component) && !supersede_target_exists(
        old,
        supersedes,
    ) ==> (r matches Err(Error::Validation(m)) && m@ == supersede_missing_message(
        supersedes->0,
    ))
    &&& request_valid(old, component, supersedes) && slug(choice).len() == 0 ==> (r matches Err(
        Error::Validation(m),
    ) && m@ == empty_name_message())
    &&& request_valid(old, component, supersedes) && slug(choice).len() > 0 && created is None ==> (
    r matches Err(Error::Io(m)) && m@ == clock_failure_message())
    &&& r matches Ok(stem) ==> created is Some && decided(
        old,
        new,
        stem@,
        component,
        choice,
        reason,
        supersedes,
        alternatives,
        created->0,
    )
}

/// The decision was recorded in memory, but the result is inconsistent,
/// so the change is refused (and is not to be stored).
pub open spec fn refused_for_integrity(
    old: ProjectState,
    new: ProjectState,
    component: Seq<char>,
    choice: Seq<char>,
    reason: Seq<char>,
    supersedes: Option<Seq<char>>,
    alternatives: Seq<String>,
    created: Option<i128>,
    r: Result<String, Error>,
) -> bool {
    &&& r matches Err(Error::Validation(m)) && m@ == integrity_failure_message()
    &&& !new.consistent()
    &&& created is Some
    &&& exists|stem: Seq<char>|
        decided(old, new, stem, component, choice, reason, supersedes, alternatives, created->0)
}

/// `content_hash` gave `h` for the decision `d`.
pub open spec fn hashed<F: Fn(&Decision) -> Result<String, Error>>(
    content_hash: F,
    d: Decision,
    h: Result<String, Error>,
) -> bool {
    content_hash.ensures((&d,), h)
}

/// What `decide` owes once the request passed every check and the clock
/// was read: the decision's file is hashed; a failure of the hash is the
/// result, and on success the new node carries the hash.
pub open spec fn decide_hash_post<F: Fn(&Decision) -> Result<String, Error>>(
    old: ProjectState,
    new: ProjectState,
    component: Seq<char>,
    choice: Seq<char>,
    reason: Seq<char>,
    supersedes: Option<Seq<char>>,
    alternatives: Seq<String>,
    created: Option<i128>,
    content_hash: F,
    r: Result<String, Error>,
) -> bool {
    &&& request_valid(old, component, supersedes) && slug(choice).len() > 0 && created is Some ==> (r is Ok
        || refused_for_integrity(old, new, component, choice, reason, supersedes, alternatives, created, r)
        || exists|d: Decision|
        decision_holds(d, component, choice, reason, alternatives, created->0) && hashed(
            content_hash,
            d,
            r,
        ))
    &&& r matches Ok(stem) ==> hashed(
        content_hash,
        new.decisions.as_map()[stem@],
        Ok(new.graph_index.nodes@.last().hash),
    )
}

/// The state after recording a decision under `stem`.
pub open spec fn decided(
    old: ProjectState,
    new: ProjectState,
    stem: Seq<char>,
    component: Seq<char>,
    choice: Seq<char>,
    reason: Seq<char>,
    supersedes: Option<Seq<char>>,
    alternatives: Seq<String>,
    created: i128,
) -> bool {
    let n = old.graph_index.edges@.len();
    &&& slug(choice).len() > 0
    &&& exists|k: nat| first_free(old.decisions, slug(choice), k) && stem == candidate(slug(choice), k)
    &&& !old.decisions.has(stem)
    &&& new.decisions.as_map() == old.decisions.as_map().insert(stem, new.decisions.as_map()[stem])
    &&& decision_holds(new.decisions.as_map()[stem], component, choice, reason, alternatives, created)
    &&& new.graph_index.nodes@.len() == old.graph_index.nodes@.len() + 1
    &&& new.graph_index.nodes@.drop_last() == old.graph_index.nodes@
    &&& new.graph_index.nodes@.last().name@ == stem
    &&& new.graph_index.nodes@.last().kind == NodeKind::Decision
    &&& new.graph_index.nodes@.last().tags@.len() == 0
    &&& new.graph_index.edges@.take(n as int) == old.graph_index.edges@
    &&& edge_is(new.graph_index.edges@[n as int], stem, component, EdgeKind::BelongsTo)
    &&& match supersedes {
        Some(s) => new.graph_index.edges@.len() == n + 2 && edge_is(
            new.graph_index.edges@[n as int + 1],
            stem,
            s,
            EdgeKind::Supersedes,
        ),
        None => new.graph_index.edges@.len() == n + 1,
    }
    &&& new.components == old.components
    &&& new.patterns == old.patterns
    &&& new.project == old.project
    &&& new.graph_index.version == old.graph_index.version
    &&& new.graph_index.rebuilt == old.graph_index.rebuilt
}

/// Records a decision under `component` (a component name or
/// `project`), created now; `content_hash` gives the content hash of the
/// decision's file. The result is checked: a change that leaves the
/// records inconsistent is refused. Returns the name it was filed under.
pub fn decide<F: Fn(&Decision) -> Result<String, Error>>(
    state: &mut ProjectState,
    component: &str,
    choice: &str,
    reason: &str,
    supersedes: Option<&str>,
    alternatives: &[String],
    content_hash: F,
) -> (r: Result<String, Error>)
    requires
        old(state).wf(),
        forall|d: &Decision| content_hash.requires((d,)),
    ensures
        exists|created: Option<i128>|
            (created matches Some(t) ==> t >= 0) && decide_post(
                *old(state),
                *final(state),
                component@,
                choice@,
                reason@,
                opt_view(supersedes),
                alternatives@,
                created,
                r,
            ) && decide_hash_post(
                *old(state),
                *final(state),
                component@,
                choice@,
                reason@,
                opt_view(supersedes),
                alternatives@,
                created,
                content_hash,
                r,
            ),
{
    let created = now_nanos();
    decide_at(state, component, choice, reason, supersedes, alternatives, created, content_hash)
}

/// Records a decision under `component` with the clock's reading
/// (nanoseconds since the UNIX epoch, `None` when the clock could not be
/// read); `content_hash` gives the content hash of the decision's file.
pub fn decide_at<F: Fn(&Decision) -> Result<String, Error>>(
    state: &mut ProjectState,
    component: &str,
    choice: &str,
    reason: &str,
    supersedes: Option<&str>,
    alternatives: &[String],
    created: Option<i128>,
    content_hash: F,
) -> (r: Result<String, Error>)
    requires
        old(state).wf(),
        forall|d: &Decision| content_hash.requires((d,)),
    ensures
        decide_post(
            *old(state),
            *final(state),
            component@,
            choice@,
            reason@,
            opt_view(supersedes),
            alternatives@,
            created,
            r,
        ),
        decide_hash_post(
            *old(state),
            *final(state),
            component@,
            choice@,
            reason@,
            opt_view(supersedes),
            alternatives@,
            created,
            content_hash,
            r,
        ),
{
    let is_project = str_eq(component, PROJECT);
    if !is_project && !is_valid_kebab_case(component) {
        return Err(Error::InvalidName(String::from_str(component)));
    }
    if !is_project && !state.components.contains_key(component) {
        return Err(Error::Validation(component_missing(component)));
    }
    if let Some(sup) = supersedes {
        if !state.decisions.contains_key(sup) {
            return Err(Error::Validation(supersede_missing(sup)));
        }
    }
    let base = slugify(choice);
    let stem = match unique_decision_stem(&state.decisions, base.as_str()) {
        Ok(s) => s,
        Err(e) => {
            return Err(e);
        },
    };
    let created = match created {
        Some(t) => t,
        None => {
            return Err(Error::Io(clock_failure()));
        },
    };
    let mut alts: Vec<String> = Vec::new();
    for i in 0..alternatives.len()
        invariant
            alts@ == alternatives@.take(i as int),
    {
        alts.push(alternatives[i].clone());
        assert(alternatives@.take(i + 1) =~= alternatives@.take(i as int).push(alternatives@[i as int]));
    }
    assert(alternatives@.take(alternatives@.len() as int) =~= alternatives@);
    let decision = Decision {
        component: String::from_str(component),
        choice: String::from_str(choice),
        reason: String::from_str(reason),
        alternatives: alts,
        tags: Vec::new(),
        created,
    };
    let hash = match content_hash(&decision) {
        Ok(h) => h,
        Err(e) => {
            proof {
                assert(decision_holds(decision, component@, choice@, reason@, alternatives@, created));
                assert(hashed(content_hash, decision, Err(e)));
            }
            return Err(e);
        },
    };
    let ghost old_state = *state;
    state.graph_index.nodes.push(
        NodeEntry { name: stem.clone(), kind: NodeKind::Decision, tags: Vec::new(), hash },
    );
    state.graph_index.edges.push(
        EdgeEntry { from: stem.clone(), to: String::from_str(component), kind: EdgeKind::BelongsTo },
    );
    if let Some(sup) = supersedes {
        state.graph_index.edges.push(
            EdgeEntry { from: stem.clone(), to: String::from_str(sup), kind: EdgeKind::Supersedes },
        );
    }
    let ghost d = decision;
    state.decisions.insert(stem.clone(), decision);
    proof {
        let n = old_state.graph_index.edges@.len();
        assert(state.graph_index.edges@.take(n as int) =~= old_state.graph_index.edges@);
        assert(state.graph_index.nodes@.drop_last() =~= old_state.graph_index.nodes@);
        assert(state.decisions.as_map()[stem@] == d);
        assert(state.decisions.as_map() =~= old_state.decisions.as_map().insert(stem@, d));
        assert(decided(
            old_state,
            *state,
            stem@,
            component@,
            choice@,
            reason@,
            opt_view(supersedes),
            alternatives@,
            created,
        ));
    }
    proof {
        let n = old_state.graph_index.edges@.len();
        if old_state.consistent() {
            assert forall|k: Seq<char>| #[trigger] state.decisions.as_map().dom().contains(k) implies is_scope(
                *state,
                state.decisions.as_map()[k].component@,
            ) by {
                if k != stem@ {
                    assert(old_state.decisions.as_map().dom().contains(k));
                }
            }
            assert forall|i: int| 0 <= i < state.graph_index.edges@.len() implies edge_consistent(
                *state,
                #[trigger] state.graph_index.edges@[i],
            ) by {
                if i < n {
                    assert(state.graph_index.edges@[i] == old_state.graph_index.edges@[i]);
                    assert(edge_consistent(old_state, old_state.graph_index.edges@[i]));
                }
            }
        }
    }
    if !state.check_integrity() {
        return Err(Error::Validation(integrity_failure()));
    }
    Ok(stem)
}


/// Keeps the nodes not named `name`.
pub open spec fn keeps_node(name: Seq<char>) -> spec_fn(NodeEntry) -> bool {
    |n: NodeEntry| n.name@ != name
}

/// Keeps the edges that neither start nor end at `name`.
pub open spec fn keeps_edge(name: Seq<char>) -> spec_fn(EdgeEntry) -> bool {
    |e: EdgeEntry| e.from@ != name && e.to@ != name
}

/// The `Supersedes` edges that point at `name`.
pub open spec fn supersedes_edge_to(name: Seq<char>) -> spec_fn(EdgeEntry) -> bool {
    |e: EdgeEntry| e.to@ == name && e.kind == EdgeKind::Supersedes
}

/// The decisions that supersede `name`, in edge order.
pub open spec fn superseders(edges: Seq<EdgeEntry>, name: Seq<char>) -> Seq<Seq<char>> {
    edges.filter(supersedes_edge_to(name)).map_values(|e: EdgeEntry| e.from@)
}

pub proof fn lemma_filter_subset<A>(s: Seq<A>, p: spec_fn(A) -> bool, i: int)
    requires
        0 <= i < s.filter(p).len(),
    ensures
        s.contains(s.filter(p)[i]),
        p(s.filter(p)[i]),
    decreases s.len(),
{
    reveal(Seq::filter);
    if s.len() > 0 {
        let sub = s.drop_last().filter(p);
        if i < sub.len() {
            assert(s.filter(p)[i] == sub[i]);
            lemma_filter_subset(s.drop_last(), p, i);
            let j = choose|j: int| 0 <= j < s.drop_last().len() && s.drop_last()[j] == sub[i];
            assert(s[j] == sub[i]);
        } else {
            assert(s.filter(p)[i] == s.last());
            assert(s[s.len() - 1] == s.last());
        }
    }
}

proof fn lemma_filter_step<A>(s: Seq<A>, p: spec_fn(A) -> bool, j: int)
    requires
        0 <= j < s.len(),
    ensures
        s.take(j + 1).filter(p) == if p(s[j]) {
            s.take(j).filter(p).push(s[j])
        } else {
            s.take(j).filter(p)
        },
{
    reveal(Seq::filter);
    assert(s.take(j + 1).drop_last() =~= s.take(j));
    assert(s.take(j + 1).last() == s[j]);
}

fn retain_nodes(nodes: &mut Vec<NodeEntry>, name: &str)
    ensures
        final(nodes)@ == old(nodes)@.filter(keeps_node(name@)),
{
    let ghost orig = nodes@;
    let ghost p = keeps_node(name@);
    let ghost mut j: int = 0;
    let mut i: usize = 0;
    while i < nodes.len()
        invariant
            p == keeps_node(name@),
            0 <= j <= orig.len(),
            nodes@ == orig.take(j).filter(p) + orig.skip(j),
            i == orig.take(j).filter(p).len(),
        decreases orig.len() - j,
    {
        proof {
            assert(orig.skip(j).len() > 0);
            assert(nodes@[i as int] == orig[j]);
            lemma_filter_step(orig, p, j);
            assert(p(orig[j]) == (orig[j].name@ != name@));
            assert(orig.skip(j).drop_first() =~= orig.skip(j + 1));
        }
        if str_eq(nodes[i].name.as_str(), name) {
            nodes.remove(i);
            proof {
                assert(nodes@ =~= orig.take(j + 1).filter(p) + orig.skip(j + 1));
                j = j + 1;
            }
        } else {
            proof {
                assert(nodes@ =~= orig.take(j + 1).filter(p) + orig.skip(j + 1));
                j = j + 1;
            }
            i = i + 1;
        }
    }
    proof {
        assert(orig.skip(j).len() == 0);
        assert(orig.take(j) =~= orig);
        assert(nodes@ =~= orig.filter(p));
    }
}

fn retain_edges(edges: &mut Vec<EdgeEntry>, name: &str)
    ensures
        final(edges)@ == old(edges)@.filter(keeps_edge(name@)),
{
    let ghost orig = edges@;
    let ghost p = keeps_edge(name@);
    let ghost mut j: int = 0;
    let mut i: usize = 0;
    while i < edges.len()
        invariant
            p == keeps_edge(name@),
            0 <= j <= orig.len(),
            edges@ == orig.take(j).filter(p) + orig.skip(j),
            i == orig.take(j).filter(p).len(),
        decreases orig.len() - j,
    {
        proof {
            assert(orig.skip(j).len() > 0);
            assert(edges@[i as int] == orig[j]);
            lemma_filter_step(orig, p, j);
            assert(p(orig[j]) == (orig[j].from@ != name@ && orig[j].to@ != name@));
            assert(orig.skip(j).drop_first() =~= orig.skip(j + 1));
        }
        if str_eq(edges[i].from.as_str(), name) || str_eq(edges[i].to.as_str(), name) {
            edges.remove(i);
            proof {
                assert(edges@ =~= orig.take(j + 1).filter(p) + orig.skip(j + 1));
                j = j + 1;
            }
        } else {
            proof {
                assert(edges@ =~= orig.take(j + 1).filter(p) + orig.skip(j + 1));
                j = j + 1;
            }
            i = i + 1;
        }
    }
    proof {
        assert(orig.skip(j).len() == 0);
        assert(orig.take(j) =~= orig);
        assert(edges@ =~= orig.filter(p));
    }
}

/// The names of the decisions whose `Supersedes` edge points at `name`.
fn dependents_of(edges: &Vec<EdgeEntry>, name: &str) -> (deps: Vec<String>)
    ensures
        deps@.map_values(|s: String| s@) == superseders(edges@, name@),
{
    let ghost p = supersedes_edge_to(name@);
    let mut deps: Vec<String> = Vec::new();
    for i in 0..edges.len()
        invariant
            p == supersedes_edge_to(name@),
            deps@.map_values(|s: String| s@) == edges@.take(i as int).filter(p).map_values(
                |e: EdgeEntry| e.from@,
            ),
    {
        proof {
            lemma_filter_step(edges@, p, i as int);
        }
        let e = &edges[i];
        if e.kind == EdgeKind::Supersedes && str_eq(e.to.as_str(), name) {
            let ghost before = deps@;
            deps.push(e.from.clone());
            assert(deps@.map_values(|s: String| s@) =~= before.map_values(|s: String| s@).push(e.from@));
            assert(edges@.take(i + 1).filter(p).map_values(|e: EdgeEntry| e.from@) =~= edges@.take(
                i as int,
            ).filter(p).map_values(|e: EdgeEntry| e.from@).push(e.from@));
        }
    }
    assert(edges@.take(edges@.len() as int) =~= edges@);
    deps
}

/// The state after removing the decision `name`: the decision, its node
/// and every edge that mentions it are gone; nothing else changes.
pub open spec fn removed(old: ProjectState, new: ProjectState, name: Seq<char>) -> bool {
    &&& new.decisions.as_map() == old.decisions.as_map().remove(name)
    &&& new.graph_index.nodes@ == old.graph_index.nodes@.filter(keeps_node(name))
    &&& new.graph_index.edges@ == old.graph_index.edges@.filter(keeps_edge(name))
    &&& new.components == old.components
    &&& new.patterns == old.patterns
    &&& new.project == old.project
    &&& new.graph_index.version == old.graph_index.version
    &&& new.graph_index.rebuilt == old.graph_index.rebuilt
}

/// Removes the decision `name` with its node and every edge that
/// mentions it, then checks the result: a removal that leaves the records
/// inconsistent is refused (the state is then the removed one, which is
/// not to be stored). Returns the decisions that superseded it, whose
/// supersede chain is now broken.
pub fn remove_decision(state: &mut ProjectState, name: &str) -> (r: Result<Vec<String>, Error>)
    requires
        old(state).wf(),
    ensures
        final(state).wf(),
        !old(state).decisions.has(name@) ==> (r matches Err(Error::Validation(m)) && m@
            == decision_missing_message(name@)) && *final(state) == *old(state),
        old(state).decisions.has(name@) ==> removed(*old(state), *final(state), name@),
        old(state).decisions.has(name@) ==> (r is Ok <==> final(state).consistent()),
        old(state).decisions.has(name@) && r is Err ==> (r matches Err(Error::Validation(m)) && m@
            == integrity_failure_message()),
        old(state).consistent() && old(state).decisions.has(name@) ==> r is Ok,
        r matches Ok(deps) ==> deps@.map_values(|s: String| s@) == superseders(
            old(state).graph_index.edges@,
            name@,
        ),
{
    if !state.decisions.contains_key(name) {
        return Err(Error::Validation(decision_missing(name)));
    }
    let deps = dependents_of(&state.graph_index.edges, name);
    let ghost old_state = *state;
    state.decisions.remove(name);
    retain_nodes(&mut state.graph_index.nodes, name);
    retain_edges(&mut state.graph_index.edges, name);
    proof {
        if old_state.consistent() {
            assert forall|k: Seq<char>| #[trigger] state.decisions.as_map().dom().contains(k) implies is_scope(
                *state,
                state.decisions.as_map()[k].component@,
            ) by {
                assert(old_state.decisions.as_map().dom().contains(k));
            }
            assert forall|i: int| 0 <= i < state.graph_index.edges@.len() implies edge_consistent(
                *state,
                #[trigger] state.graph_index.edges@[i],
            ) by {
                let e = state.graph_index.edges@[i];
                lemma_filter_subset(old_state.graph_index.edges@, keeps_edge(name@), i);
                let j = choose|j: int| 0 <= j < old_state.graph_index.edges@.len() && old_state.graph_index.edges@[j] == e;
                assert(edge_consistent(old_state, old_state.graph_index.edges@[j]));
            }
        }
    }
    if !state.check_integrity() {
        return Err(Error::Validation(integrity_failure()));
    }
    Ok(deps)
}


proof fn lemma_filter_all<A>(s: Seq<A>, p: spec_fn(A) -> bool)
    requires
        forall|i: int| 0 <= i < s.len() ==> p(#[trigger] s[i]),
    ensures
        s.filter(p) == s,
    decreases s.len(),
{
    reveal(Seq::filter);
    if s.len() > 0 {
        lemma_filter_all(s.drop_last(), p);
        assert(p(s[s.len() - 1]));
        assert(s.drop_last().push(s.last()) =~= s);
    }
}

proof fn lemma_filter_none<A>(s: Seq<A>, p: spec_fn(A) -> bool)
    requires
        forall|i: int| 0 <= i < s.len() ==> !p(#[trigger] s[i]),
    ensures
        s.filter(p) == Seq::<A>::empty(),
    decreases s.len(),
{
    reveal(Seq::filter);
    if s.len() > 0 {
        lemma_filter_none(s.drop_last(), p);
        assert(!p(s[s.len() - 1]));
    }
}

/// Removing a decision right after recording it restores the decisions,
/// the graph nodes and the graph edges of before, provided no node of the
/// graph already carried the new decision's name and that name is not a
/// component's (or `project`).
pub proof fn lemma_remove_undoes_decide(
    before: ProjectState,
    mid: ProjectState,
    after: ProjectState,
    stem: Seq<char>,
    component: Seq<char>,
    choice: Seq<char>,
    reason: Seq<char>,
    supersedes: Option<Seq<char>>,
    alternatives: Seq<String>,
    created: i128,
)
    requires
        before.consistent(),
        decided(before, mid, stem, component, choice, reason, supersedes, alternatives, created),
        removed(mid, after, stem),
        forall|i: int| 0 <= i < before.graph_index.nodes@.len() ==> (#[trigger] before.graph_index.nodes@[i]).name@ != stem,
        !is_scope(before, stem),
    ensures
        after.decisions.as_map() == before.decisions.as_map(),
        after.graph_index.nodes@ == before.graph_index.nodes@,
        after.graph_index.edges@ == before.graph_index.edges@,
        after.components == before.components,
        after.patterns == before.patterns,
        after.project == before.project,
{
    broadcast use Seq::filter_distributes_over_add;

    assert(after.decisions.as_map() =~= before.decisions.as_map());
    let bn = before.graph_index.nodes@;
    let mn = mid.graph_index.nodes@;
    assert(mn =~= bn + seq![mn.last()]);
    lemma_filter_all(bn, keeps_node(stem));
    lemma_filter_none(seq![mn.last()], keeps_node(stem));
    assert(mn.filter(keeps_node(stem)) == bn.filter(keeps_node(stem)) + seq![mn.last()].filter(keeps_node(stem)));
    assert(after.graph_index.nodes@ =~= bn);
    let be = before.graph_index.edges@;
    let me = mid.graph_index.edges@;
    assert forall|i: int| 0 <= i < be.len() implies keeps_edge(stem)(#[trigger] be[i]) by {
        assert(edge_consistent(before, be[i]));
    }
    let tail = me.skip(be.len() as int);
    assert(me =~= be + tail);
    lemma_filter_all(be, keeps_edge(stem));
    assert forall|i: int| 0 <= i < tail.len() implies !keeps_edge(stem)(#[trigger] tail[i]) by {
        assert(tail[i] == me[be.len() + i]);
    }
    lemma_filter_none(tail, keeps_edge(stem));
    assert(me.filter(keeps_edge(stem)) == be.filter(keeps_edge(stem)) + tail.filter(keeps_edge(stem)));
    assert(after.graph_index.edges@ =~= be);
}


/// A recorded decision is filed under a fresh, kebab-case name.
pub proof fn lemma_decided_name_is_fresh_kebab(
    before: ProjectState,
    after: ProjectState,
    stem: Seq<char>,
    component: Seq<char>,
    choice: Seq<char>,
    reason: Seq<char>,
    supersedes: Option<Seq<char>>,
    alternatives: Seq<String>,
    created: i128,
)
    requires
        decided(before, after, stem, component, choice, reason, supersedes, alternatives, created),
    ensures
        is_kebab(stem),
        !before.decisions.has(stem),
        after.decisions.has(stem),
{
    let k = choose|k: nat| first_free(before.decisions, slug(choice), k) && stem == candidate(slug(choice), k);
    lemma_slug_is_kebab(choice);
    lemma_candidate_is_kebab(slug(choice), k);
    assert(after.decisions.as_map().dom().contains(stem));
}

/// After a removal, nothing in the decisions, nodes or edges carries the
/// removed name.
pub proof fn lemma_removed_forgets_name(before: ProjectState, after: ProjectState, name: Seq<char>)
    requires
        removed(before, after, name),
    ensures
        !after.decisions.as_map().dom().contains(name),
        forall|i: int| 0 <= i < after.graph_index.nodes@.len() ==> (#[trigger] after.graph_index.nodes@[i]).name@ != name,
        forall|i: int|
            0 <= i < after.graph_index.edges@.len() ==> (#[trigger] after.graph_index.edges@[i]).from@ != name
                && after.graph_index.edges@[i].to@ != name,
{
    assert forall|i: int| 0 <= i < after.graph_index.nodes@.len() implies (#[trigger] after.graph_index.nodes@[i]).name@ != name by {
        lemma_filter_subset(before.graph_index.nodes@, keeps_node(name), i);
    }
    assert forall|i: int| 0 <= i < after.graph_index.edges@.len() implies (#[trigger] after.graph_index.edges@[i]).from@ != name
        && after.graph_index.edges@[i].to@ != name by {
        lemma_filter_subset(before.graph_index.edges@, keeps_edge(name), i);
    }
}

} // verus!
