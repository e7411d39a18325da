//! Queries over the project state (decisions by scope, connections,
//! patterns) and the rendering of their listings into prompt text.
use vstd::prelude::*;
use crate::namemap::Named;
use crate::render::{join, lemma_join_push, lemma_render_filter_take, lemma_take_full, render};
use crate::schema::{Decision, EdgeEntry, EdgeKind, Pattern, ProjectState};
use crate::text::str_eq;

verus! {

/// The decisions filed under `scope` (a component or `project`).
pub open spec fn in_scope(scope: Seq<char>) -> spec_fn(Named<Decision>) -> bool {
    |e: Named<Decision>| e.value.component@ == scope
}

/// The decisions filed under `scope`, in name order.
pub open spec fn decisions_for(st: ProjectState, scope: Seq<char>) -> Seq<Named<Decision>> {
    st.decisions.entries@.filter(in_scope(scope))
}

/// The number of decisions filed under `scope`.
pub fn count_decisions_for(entries: &Vec<Named<Decision>>, scope: &str) -> (n: usize)
    ensures
        n == entries@.filter(in_scope(scope@)).len(),
{
    let ghost p = in_scope(scope@);
    let ghost f = |e: Named<Decision>| Seq::<char>::empty();
    let mut n: usize = 0;
    for i in 0..entries.len()
        invariant
            p == in_scope(scope@),
            n == entries@.take(i as int).filter(p).len(),
    {
        proof {
            lemma_render_filter_take(entries@, i as int, p, f);
        }
        if str_eq(entries[i].value.component.as_str(), scope) {
            n = n + 1;
        }
    }
    proof {
        lemma_take_full(entries@);
    }
    n
}

/// The ways a decision is listed in the prompts.
#[derive(PartialEq, Eq, Structural, Debug, Clone, Copy)]
pub enum LineStyle {
    /// `- name: choice (reason: reason)`
    NameChoiceReasonLabelled,
    /// `- choice (project rule)`
    ChoiceProjectRule,
    /// `- choice (reason)`
    ChoiceReason,
    /// `- [project] name: choice (reason)`
    ProjectNameChoiceReason,
    /// `- name: choice (reason)`
    NameChoiceReason,
    /// `  [project] name: choice`
    IndentedProjectNameChoice,
    /// `  name: choice`
    IndentedNameChoice,
    /// `  name: choice — ask: "Is this still accurate?"`
    IndentedStillAccurate,
}

/// The line for one decision in the given style.
pub open spec fn decision_line(style: LineStyle, e: Named<Decision>) -> Seq<char> {
    let n = e.name@;
    let c = e.value.choice@;
    let r = e.value.reason@;
    match style {
        LineStyle::NameChoiceReasonLabelled => "- "@ + n + ": "@ + c + " (reason: "@ + r + ")\n"@,
        LineStyle::ChoiceProjectRule => "- "@ + c + " (project rule)\n"@,
        LineStyle::ChoiceReason => "- "@ + c + " ("@ + r + ")\n"@,
        LineStyle::ProjectNameChoiceReason => "- [project] "@ + n + ": "@ + c + " ("@ + r + ")\n"@,
        LineStyle::NameChoiceReason => "- "@ + n + ": "@ + c + " ("@ + r + ")\n"@,
        LineStyle::IndentedProjectNameChoice => "  [project] "@ + n + ": "@ + c + "\n"@,
        LineStyle::IndentedNameChoice => "  "@ + n + ": "@ + c + "\n"@,
        LineStyle::IndentedStillAccurate => "  "@ + n + ": "@ + c
            + " — ask: \"Is this still accurate?\"\n"@,
    }
}

pub open spec fn line_fn(style: LineStyle) -> spec_fn(Named<Decision>) -> Seq<char> {
    |e: Named<Decision>| decision_line(style, e)
}

/// The listing of the decisions filed under `scope`, one line each.
pub open spec fn decision_lines(st: ProjectState, scope: Seq<char>, style: LineStyle) -> Seq<char> {
    render(decisions_for(st, scope), line_fn(style))
}

fn push_decision_line(out: &mut String, style: LineStyle, e: &Named<Decision>)
    ensures
        final(out)@ == old(out)@ + decision_line(style, *e),
{
    let n = e.name.as_str();
    let c = e.value.choice.as_str();
    let r = e.value.reason.as_str();
    match style {
        LineStyle::NameChoiceReasonLabelled => {
            out.append("- ");
            out.append(n);
            out.append(": ");
            out.append(c);
            out.append(" (reason: ");
            out.append(r);
            out.append(")\n");
        },
        LineStyle::ChoiceProjectRule => {
            out.append("- ");
            out.append(c);
            out.append(" (project rule)\n");
        },
        LineStyle::ChoiceReason => {
            out.append("- ");
            out.append(c);
            out.append(" (");
            out.append(r);
            out.append(")\n");
        },
        LineStyle::ProjectNameChoiceReason => {
            out.append("- [project] ");
            out.append(n);
            out.append(": ");
            out.append(c);
            out.append(" (");
            out.append(r);
            out.append(")\n");
        },
        LineStyle::NameChoiceReason => {
            out.append("- ");
            out.append(n);
            out.append(": ");
            out.append(c);
            out.append(" (");
            out.append(r);
            out.append(")\n");
        },
        LineStyle::IndentedProjectNameChoice => {
            out.append("  [project] ");
            out.append(n);
            out.append(": ");
            out.append(c);
            out.append("\n");
        },
        LineStyle::IndentedNameChoice => {
            out.append("  ");
            out.append(n);
            out.append(": ");
            out.append(c);
            out.append("\n");
        },
        LineStyle::IndentedStillAccurate => {
            out.append("  ");
            out.append(n);
            out.append(": ");
            out.append(c);
            out.append(" — ask: \"Is this still accurate?\"\n");
        },
    }
    assert(final(out)@ =~= old(out)@ + decision_line(style, *e));
}

/// Appends the listing of the decisions filed under `scope`.
pub fn push_decision_lines(out: &mut String, st: &ProjectState, scope: &str, style: LineStyle)
    ensures
        final(out)@ == old(out)@ + decision_lines(*st, scope@, style),
{
    let ghost p = in_scope(scope@);
    let ghost f = line_fn(style);
    let entries = &st.decisions.entries;
    for i in 0..entries.len()
        invariant
            p == in_scope(scope@),
            f == line_fn(style),
            entries == &st.decisions.entries,
            out@ == old(out)@ + render(entries@.take(i as int).filter(p), f),
    {
        proof {
            lemma_render_filter_take(entries@, i as int, p, f);
        }
        let e = &entries[i];
        if str_eq(e.value.component.as_str(), scope) {
            push_decision_line(out, style, e);
        }
        assert(out@ =~= old(out)@ + render(entries@.take(i + 1).filter(p), f));
    }
    proof {
        lemma_take_full(entries@);
    }
}

// ── Connections ─────────────────────────────────────────────────────────

/// `ConnectsTo` edges leaving `c`.
pub open spec fn connects_from_edge(c: Seq<char>) -> spec_fn(EdgeEntry) -> bool {
    |e: EdgeEntry| e.from@ == c && e.kind == EdgeKind::ConnectsTo
}

/// `ConnectsTo` edges arriving at `c`.
pub open spec fn connects_into_edge(c: Seq<char>) -> spec_fn(EdgeEntry) -> bool {
    |e: EdgeEntry| e.to@ == c && e.kind == EdgeKind::ConnectsTo
}

/// The components `c` connects to, in edge order.
pub open spec fn connects_to(st: ProjectState, c: Seq<char>) -> Seq<Seq<char>> {
    st.graph_index.edges@.filter(connects_from_edge(c)).map_values(|e: EdgeEntry| e.to@)
}

/// The components that connect to `c`, in edge order.
pub open spec fn connects_from(st: ProjectState, c: Seq<char>) -> Seq<Seq<char>> {
    st.graph_index.edges@.filter(connects_into_edge(c)).map_values(|e: EdgeEntry| e.from@)
}

fn is_connects(e: &EdgeEntry) -> (r: bool)
    ensures
        r == (e.kind == EdgeKind::ConnectsTo),
{
    match e.kind {
        EdgeKind::ConnectsTo => true,
        _ => false,
    }
}

/// The number of components `c` connects to.
pub fn count_connects_to(st: &ProjectState, c: &str) -> (n: usize)
    ensures
        n == connects_to(*st, c@).len(),
{
    let ghost p = connects_from_edge(c@);
    let ghost f = |e: EdgeEntry| Seq::<char>::empty();
    let edges = &st.graph_index.edges;
    let mut n: usize = 0;
    for i in 0..edges.len()
        invariant
            p == connects_from_edge(c@),
            edges == &st.graph_index.edges,
            n == edges@.take(i as int).filter(p).len(),
    {
        proof {
            lemma_render_filter_take(edges@, i as int, p, f);
        }
        if is_connects(&edges[i]) && str_eq(edges[i].from.as_str(), c) {
            n = n + 1;
        }
    }
    proof {
        lemma_take_full(edges@);
    }
    n
}

/// The number of components that connect to `c`.
pub fn count_connects_from(st: &ProjectState, c: &str) -> (n: usize)
    ensures
        n == connects_from(*st, c@).len(),
{
    let ghost p = connects_into_edge(c@);
    let ghost f = |e: EdgeEntry| Seq::<char>::empty();
    let edges = &st.graph_index.edges;
    let mut n: usize = 0;
    for i in 0..edges.len()
        invariant
            p == connects_into_edge(c@),
            edges == &st.graph_index.edges,
            n == edges@.take(i as int).filter(p).len(),
    {
        proof {
            lemma_render_filter_take(edges@, i as int, p, f);
        }
        if is_connects(&edges[i]) && str_eq(edges[i].to.as_str(), c) {
            n = n + 1;
        }
    }
    proof {
        lemma_take_full(edges@);
    }
    n
}

/// Appends the components `c` connects to, joined by `, `.
pub fn push_connects_to_joined(out: &mut String, st: &ProjectState, c: &str)
    ensures
        final(out)@ == old(out)@ + join(connects_to(*st, c@), ", "@),
{
    let ghost p = connects_from_edge(c@);
    let ghost g = |e: EdgeEntry| e.to@;
    let ghost f = |e: EdgeEntry| Seq::<char>::empty();
    let edges = &st.graph_index.edges;
    let mut first = true;
    for i in 0..edges.len()
        invariant
            p == connects_from_edge(c@),
            g == (|e: EdgeEntry| e.to@),
            edges == &st.graph_index.edges,
            out@ == old(out)@ + join(edges@.take(i as int).filter(p).map_values(g), ", "@),
            first == (edges@.take(i as int).filter(p).len() == 0),
    {
        proof {
            lemma_render_filter_take(edges@, i as int, p, f);
        }
        let e = &edges[i];
        if is_connects(e) && str_eq(e.from.as_str(), c) {
            let ghost prev = edges@.take(i as int).filter(p).map_values(g);
            proof {
                lemma_join_push(prev, e.to@, ", "@);
                assert(edges@.take(i + 1).filter(p).map_values(g) =~= prev.push(e.to@));
            }
            if !first {
                out.append(", ");
            }
            out.append(e.to.as_str());
            first = false;
        }
        assert(out@ =~= old(out)@ + join(edges@.take(i + 1).filter(p).map_values(g), ", "@));
    }
    proof {
        lemma_take_full(edges@);
    }
}

/// `- c → to` for each component `c` connects to, then `- from → c` for
/// each component that connects to `c`.
pub open spec fn connection_lines(st: ProjectState, c: Seq<char>) -> Seq<char> {
    render(connects_to(st, c), |t: Seq<char>| "- "@ + c + " → "@ + t + "\n"@) + render(
        connects_from(st, c),
        |f: Seq<char>| "- "@ + f + " → "@ + c + "\n"@,
    )
}

/// Appends the connection lines of `c`.
pub fn push_connection_lines(out: &mut String, st: &ProjectState, c: &str)
    ensures
        final(out)@ == old(out)@ + connection_lines(*st, c@),
{
    let ghost cv = c@;
    let ghost p = connects_from_edge(c@);
    let ghost q = connects_into_edge(c@);
    let ghost g = |e: EdgeEntry| e.to@;
    let ghost h = |e: EdgeEntry| e.from@;
    let ghost ft = |t: Seq<char>| "- "@ + cv + " → "@ + t + "\n"@;
    let ghost ff = |f: Seq<char>| "- "@ + f + " → "@ + cv + "\n"@;
    let ghost fe = |e: EdgeEntry| Seq::<char>::empty();
    let edges = &st.graph_index.edges;
    for i in 0..edges.len()
        invariant
            cv == c@,
            p == connects_from_edge(c@),
            g == (|e: EdgeEntry| e.to@),
            ft == (|t: Seq<char>| "- "@ + cv + " → "@ + t + "\n"@),
            edges == &st.graph_index.edges,
            out@ == old(out)@ + render(edges@.take(i as int).filter(p).map_values(g), ft),
    {
        proof {
            lemma_render_filter_take(edges@, i as int, p, fe);
        }
        let e = &edges[i];
        if is_connects(e) && str_eq(e.from.as_str(), c) {
            proof {
                let prev = edges@.take(i as int).filter(p).map_values(g);
                assert(edges@.take(i + 1).filter(p).map_values(g) =~= prev.push(e.to@));
                crate::render::lemma_render_push(prev, e.to@, ft);
            }
            out.append("- ");
            out.append(c);
            out.append(" → ");
            out.append(e.to.as_str());
            out.append("\n");
        }
        assert(out@ =~= old(out)@ + render(edges@.take(i + 1).filter(p).map_values(g), ft));
    }
    proof {
        lemma_take_full(edges@);
    }
    let ghost mid = out@;
    for i in 0..edges.len()
        invariant
            cv == c@,
            q == connects_into_edge(c@),
            h == (|e: EdgeEntry| e.from@),
            ff == (|f: Seq<char>| "- "@ + f + " → "@ + cv + "\n"@),
            edges == &st.graph_index.edges,
            out@ == mid + render(edges@.take(i as int).filter(q).map_values(h), ff),
    {
        proof {
            lemma_render_filter_take(edges@, i as int, q, fe);
        }
        let e = &edges[i];
        if is_connects(e) && str_eq(e.to.as_str(), c) {
            proof {
                let prev = edges@.take(i as int).filter(q).map_values(h);
                assert(edges@.take(i + 1).filter(q).map_values(h) =~= prev.push(e.from@));
                crate::render::lemma_render_push(prev, e.from@, ff);
            }
            out.append("- ");
            out.append(e.from.as_str());
            out.append(" → ");
            out.append(c);
            out.append("\n");
        }
        assert(out@ =~= mid + render(edges@.take(i + 1).filter(q).map_values(h), ff));
    }
    proof {
        lemma_take_full(edges@);
    }
    assert(out@ =~= old(out)@ + connection_lines(*st, c@));
}

// ── Patterns ────────────────────────────────────────────────────────────

/// A pattern touches `c` when one of its decisions is filed under `c`.
pub open spec fn pattern_touches(st: ProjectState, c: Seq<char>) -> spec_fn(Named<Pattern>) -> bool {
    |p: Named<Pattern>|
        exists|j: int|
            0 <= j < p.value.decisions@.len() && st.decisions.has(#[trigger] p.value.decisions@[j]@)
                && st.decisions.as_map()[p.value.decisions@[j]@].component@ == c
}

/// The patterns that touch `c`, in name order.
pub open spec fn patterns_for(st: ProjectState, c: Seq<char>) -> Seq<Named<Pattern>> {
    st.patterns.entries@.filter(pattern_touches(st, c))
}

/// `- name: description` for each pattern that touches `c`.
pub open spec fn pattern_lines(st: ProjectState, c: Seq<char>) -> Seq<char> {
    render(patterns_for(st, c), |p: Named<Pattern>| "- "@ + p.name@ + ": "@ + p.value.description@ + "\n"@)
}

fn touches(st: &ProjectState, p: &Named<Pattern>, c: &str) -> (r: bool)
    requires
        st.wf(),
    ensures
        r == pattern_touches(*st, c@)(*p),
{
    let ds = &p.value.decisions;
    for j in 0..ds.len()
        invariant
            st.wf(),
            ds == &p.value.decisions,
            forall|k: int|
                0 <= k < j ==> !(st.decisions.has(#[trigger] ds@[k]@) && st.decisions.as_map()[ds@[k]@].component@
                    == c@),
    {
        match st.decisions.get(ds[j].as_str()) {
            Some(d) => {
                if str_eq(d.component.as_str(), c) {
                    return true;
                }
            },
            None => {},
        }
    }
    false
}

/// The number of patterns that touch `c`.
pub fn count_patterns_for(st: &ProjectState, c: &str) -> (n: usize)
    requires
        st.wf(),
    ensures
        n == patterns_for(*st, c@).len(),
{
    let ghost p = pattern_touches(*st, c@);
    let ghost f = |e: Named<Pattern>| Seq::<char>::empty();
    let entries = &st.patterns.entries;
    let mut n: usize = 0;
    for i in 0..entries.len()
        invariant
            st.wf(),
            p == pattern_touches(*st, c@),
            entries == &st.patterns.entries,
            n == entries@.take(i as int).filter(p).len(),
    {
        proof {
            lemma_render_filter_take(entries@, i as int, p, f);
        }
        if touches(st, &entries[i], c) {
            n = n + 1;
        }
    }
    proof {
        lemma_take_full(entries@);
    }
    n
}

/// Appends the pattern lines of `c`.
pub fn push_pattern_lines(out: &mut String, st: &ProjectState, c: &str)
    requires
        st.wf(),
    ensures
        final(out)@ == old(out)@ + pattern_lines(*st, c@),
{
    let ghost p = pattern_touches(*st, c@);
    let ghost f = |q: Named<Pattern>| "- "@ + q.name@ + ": "@ + q.value.description@ + "\n"@;
    let entries = &st.patterns.entries;
    for i in 0..entries.len()
        invariant
            st.wf(),
            p == pattern_touches(*st, c@),
            f == (|q: Named<Pattern>| "- "@ + q.name@ + ": "@ + q.value.description@ + "\n"@),
            entries == &st.patterns.entries,
            out@ == old(out)@ + render(entries@.take(i as int).filter(p), f),
    {
        proof {
            lemma_render_filter_take(entries@, i as int, p, f);
        }
        let e = &entries[i];
        if touches(st, e, c) {
            out.append("- ");
            out.append(e.name.as_str());
            out.append(": ");
            out.append(e.value.description.as_str());
            out.append("\n");
        }
        assert(out@ =~= old(out)@ + render(entries@.take(i + 1).filter(p), f));
    }
    proof {
        lemma_take_full(entries@);
    }
}

} // verus!
