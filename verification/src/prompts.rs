//! The instructions of an agent-driven design session, in four modes:
//! full, quick, learn and review.
use vstd::prelude::*;
use crate::clock::{day_of, format_utc_date};
use crate::concerns::{
    area_keywords, area_label, concern_status, concern_status_text, lemma_keyword_in_choice_or_reason_covers,
    ConcernArea,
};
use crate::decision::component_missing_message;
use crate::graph::{
    decision_line, in_scope, line_fn, pattern_touches,
    connection_lines, connects_from, connects_to, count_connects_from, count_connects_to,
    count_decisions_for, count_patterns_for, decision_lines, decisions_for,
    pattern_lines, patterns_for, push_connection_lines, push_decision_lines, push_pattern_lines,
    LineStyle,
};
use crate::namemap::Named;
use crate::schema::Pattern;
use crate::prompt_text::{
    FULL_INTRO_A, FULL_INTRO_B, FULL_SOURCE_MANDATE, FULL_PROJECT_SCOPE, FULL_COMPONENT_SCOPE_A,
    FULL_COMPONENT_SCOPE_B, FULL_STATE_A, FULL_STATE_B, FULL_PHASES, QUICK_INTRO_A,
    QUICK_INTRO_B, QUICK_STEPS, LEARN_INTRO_A, LEARN_INTRO_B, LEARN_SOURCE_MANDATE,
    LEARN_ANALYZE, LEARN_PROJECT_SCOPE, LEARN_COMPONENT_SCOPE_A, LEARN_COMPONENT_SCOPE_B,
    LEARN_WALKTHROUGH, LEARN_REVIEW_HEAD, LEARN_REVIEW_TAIL, LEARN_COMPLETION, REVIEW_INTRO_A,
    REVIEW_INTRO_B, REVIEW_SOURCE_MANDATE, REVIEW_ITEM_VERIFY, REVIEW_ITEM_ARTICULATE,
    REVIEW_CLOSING, EXISTING_CONSTRAINTS, COMPONENT_GRAPH, ACTIVE_CONSTRAINTS, ALREADY_RECORDED,
    EXISTING_PATTERNS, NOTHING_TO_REVIEW, REVIEW_OLDEST_FIRST,
};
use crate::render::{lemma_render_filter_contains, lemma_render_push, lemma_take_full, render};
use crate::schema::{is_scope, Decision, ProjectState, PROJECT};
use crate::text::{
    decimal, lemma_contains_middle, lemma_contains_trans, lemma_contains_within, lower_seq, push_decimal,
    seq_contains, str_eq,
};

verus! {

// ── Modes ───────────────────────────────────────────────────────────────

/// How a design session is run.
#[derive(PartialEq, Eq, Structural, Debug, Clone, Copy)]
pub enum DesignMode {
    Full,
    Quick,
    Learn,
    Review,
}

/// The name by which a mode is requested.
pub open spec fn mode_name(m: DesignMode) -> Seq<char> {
    match m {
        DesignMode::Full => "full"@,
        DesignMode::Quick => "quick"@,
        DesignMode::Learn => "learn"@,
        DesignMode::Review => "review"@,
    }
}

/// The mode a name requests, if any.
pub open spec fn parsed_mode(s: Seq<char>) -> Option<DesignMode> {
    if s == "full"@ {
        Some(DesignMode::Full)
    } else if s == "quick"@ {
        Some(DesignMode::Quick)
    } else if s == "learn"@ {
        Some(DesignMode::Learn)
    } else if s == "review"@ {
        Some(DesignMode::Review)
    } else {
        None
    }
}

pub open spec fn invalid_mode_message(s: Seq<char>) -> Seq<char> {
    "invalid mode `"@ + s + "` — expected: full, quick, learn, review"@
}

/// How much text the agent should spend in a mode.
pub open spec fn budget(m: DesignMode) -> Seq<char> {
    match m {
        DesignMode::Full => "thorough"@,
        DesignMode::Quick => "compact"@,
        DesignMode::Learn => "standard"@,
        DesignMode::Review => "standard"@,
    }
}

impl DesignMode {
    /// Parses a mode name: `full`, `quick`, `learn` or `review`.
    pub fn parse(s: &str) -> (r: Result<Self, String>)
        ensures
            r matches Ok(m) ==> parsed_mode(s@) == Some(m),
            r matches Err(e) ==> parsed_mode(s@) is None && e@ == invalid_mode_message(s@),
            r is Ok <==> parsed_mode(s@) is Some,
    {
        if str_eq(s, "full") {
            Ok(DesignMode::Full)
        } else if str_eq(s, "quick") {
            Ok(DesignMode::Quick)
        } else if str_eq(s, "learn") {
            Ok(DesignMode::Learn)
        } else if str_eq(s, "review") {
            Ok(DesignMode::Review)
        } else {
            let mut e = String::new();
            e.append("invalid mode `");
            e.append(s);
            e.append("` — expected: full, quick, learn, review");
            Err(e)
        }
    }

    /// The token budget of the mode.
    pub fn token_budget(self) -> (r: &'static str)
        ensures
            r@ == budget(self),
    {
        match self {
            DesignMode::Full => "thorough",
            DesignMode::Quick => "compact",
            DesignMode::Learn => "standard",
            DesignMode::Review => "standard",
        }
    }
}

/// Every mode is parsed back from its own name.
pub proof fn lemma_parse_mode_name(m: DesignMode)
    ensures
        parsed_mode(mode_name(m)) == Some(m),
{
    reveal_strlit("full");
    reveal_strlit("quick");
    reveal_strlit("learn");
    reveal_strlit("review");
    assert("full"@[0] == 'f');
    assert("quick"@[0] == 'q');
    assert("learn"@[0] == 'l');
    assert("review"@[0] == 'r');
}

// ── Shared pieces ───────────────────────────────────────────────────────

/// `label` + the task + a blank line, when there is a task.
pub open spec fn task_line(label: Seq<char>, task: Option<Seq<char>>) -> Seq<char> {
    match task {
        Some(t) => label + t + "\n\n"@,
        None => Seq::empty(),
    }
}

pub open spec fn opt_str(o: Option<&str>) -> Option<Seq<char>> {
    match o {
        Some(s) => Some(s@),
        None => None,
    }
}

pub open spec fn nonempty<A>(s: Seq<A>) -> bool {
    s.len() > 0
}

// ── Full mode ───────────────────────────────────────────────────────────

/// The constraints already recorded: project rules, then the component's.
pub open spec fn full_constraints(st: ProjectState, c: Seq<char>) -> Seq<char> {
    if nonempty(decisions_for(st, PROJECT@)) || nonempty(decisions_for(st, c)) {
        EXISTING_CONSTRAINTS@ + decision_lines(st, PROJECT@, LineStyle::ChoiceProjectRule)
            + decision_lines(st, c, LineStyle::ChoiceReason) + "\n"@
    } else {
        Seq::empty()
    }
}

/// The connections of the component, both ways.
pub open spec fn full_graph(st: ProjectState, c: Seq<char>) -> Seq<char> {
    if nonempty(connects_to(st, c)) || nonempty(connects_from(st, c)) {
        COMPONENT_GRAPH@ + connection_lines(st, c) + "\n"@
    } else {
        Seq::empty()
    }
}

/// What may be recorded at this scope.
pub open spec fn full_scope(c: Seq<char>) -> Seq<char> {
    if c == PROJECT@ {
        FULL_PROJECT_SCOPE@
    } else {
        FULL_COMPONENT_SCOPE_A@ + c + FULL_COMPONENT_SCOPE_B@
    }
}

/// How many decisions the component has so far.
pub open spec fn full_state(st: ProjectState, c: Seq<char>) -> Seq<char> {
    FULL_STATE_A@ + decimal(decisions_for(st, c).len()) + FULL_STATE_B@
}

pub open spec fn full_instructions(st: ProjectState, c: Seq<char>, task: Option<Seq<char>>) -> Seq<char> {
    FULL_INTRO_A@ + c + FULL_INTRO_B@ + FULL_SOURCE_MANDATE@ + full_constraints(st, c) + full_graph(st, c)
        + task_line("TASK CONTEXT: "@, task) + full_scope(c) + concern_status_text(st.decisions, c)
        + full_state(st, c) + FULL_PHASES@
}

fn push_task(out: &mut String, label: &str, task: Option<&str>)
    ensures
        final(out)@ == old(out)@ + task_line(label@, opt_str(task)),
{
    if let Some(t) = task {
        out.append(label);
        out.append(t);
        out.append("\n\n");
    }
    assert(final(out)@ =~= old(out)@ + task_line(label@, opt_str(task)));
}

fn push_full_constraints(out: &mut String, state: &ProjectState, component: &str)
    ensures
        final(out)@ == old(out)@ + full_constraints(*state, component@),
{
    let n_rules = count_decisions_for(&state.decisions.entries, PROJECT);
    let n_existing = count_decisions_for(&state.decisions.entries, component);
    if n_rules > 0 || n_existing > 0 {
        out.append(EXISTING_CONSTRAINTS);
        push_decision_lines(out, state, PROJECT, LineStyle::ChoiceProjectRule);
        push_decision_lines(out, state, component, LineStyle::ChoiceReason);
        out.append("\n");
    }
    assert(final(out)@ =~= old(out)@ + full_constraints(*state, component@));
}

fn push_full_graph(out: &mut String, state: &ProjectState, component: &str)
    ensures
        final(out)@ == old(out)@ + full_graph(*state, component@),
{
    if count_connects_to(state, component) > 0 || count_connects_from(state, component) > 0 {
        out.append(COMPONENT_GRAPH);
        push_connection_lines(out, state, component);
        out.append("\n");
    }
    assert(final(out)@ =~= old(out)@ + full_graph(*state, component@));
}

fn push_full_scope(out: &mut String, component: &str)
    ensures
        final(out)@ == old(out)@ + full_scope(component@),
{
    if str_eq(component, PROJECT) {
        out.append(FULL_PROJECT_SCOPE);
    } else {
        out.append(FULL_COMPONENT_SCOPE_A);
        out.append(component);
        out.append(FULL_COMPONENT_SCOPE_B);
    }
    assert(final(out)@ =~= old(out)@ + full_scope(component@));
}

fn push_full_state(out: &mut String, state: &ProjectState, component: &str)
    ensures
        final(out)@ == old(out)@ + full_state(*state, component@),
{
    let n_existing = count_decisions_for(&state.decisions.entries, component);
    out.append(FULL_STATE_A);
    push_decimal(out, n_existing as u128);
    out.append(FULL_STATE_B);
    assert(final(out)@ =~= old(out)@ + full_state(*state, component@));
}

/// Instructions for a full design session on `component`.
pub fn build_full_instructions(state: &ProjectState, component: &str, task: Option<&str>) -> (out: String)
    ensures
        out@ == full_instructions(*state, component@, opt_str(task)),
{
    let mut out = String::new();
    out.append(FULL_INTRO_A);
    out.append(component);
    out.append(FULL_INTRO_B);
    out.append(FULL_SOURCE_MANDATE);
    push_full_constraints(&mut out, state, component);
    push_full_graph(&mut out, state, component);
    push_task(&mut out, "TASK CONTEXT: ", task);
    push_full_scope(&mut out, component);
    let status = concern_status(&state.decisions, component);
    out.append(status.as_str());
    push_full_state(&mut out, state, component);
    out.append(FULL_PHASES);
    assert(out@ =~= full_instructions(*state, component@, opt_str(task)));
    out
}

// ── Quick mode ──────────────────────────────────────────────────────────

pub open spec fn quick_instructions(st: ProjectState, c: Seq<char>, task: Option<Seq<char>>) -> Seq<char> {
    QUICK_INTRO_A@ + c + QUICK_INTRO_B@ + (if nonempty(decisions_for(st, c)) || nonempty(
        decisions_for(st, PROJECT@),
    ) {
        ACTIVE_CONSTRAINTS@ + decision_lines(st, PROJECT@, LineStyle::ProjectNameChoiceReason)
            + decision_lines(st, c, LineStyle::NameChoiceReason) + "\n"@
    } else {
        Seq::empty()
    }) + task_line("TASK: "@, task) + QUICK_STEPS@
}

/// Instructions for a quick design check on `component`.
pub fn build_quick_instructions(state: &ProjectState, component: &str, task: Option<&str>) -> (out: String)
    ensures
        out@ == quick_instructions(*state, component@, opt_str(task)),
{
    let mut out = String::new();
    out.append(QUICK_INTRO_A);
    out.append(component);
    out.append(QUICK_INTRO_B);
    let n_existing = count_decisions_for(&state.decisions.entries, component);
    let n_rules = count_decisions_for(&state.decisions.entries, PROJECT);
    if n_existing > 0 || n_rules > 0 {
        out.append(ACTIVE_CONSTRAINTS);
        push_decision_lines(&mut out, state, PROJECT, LineStyle::ProjectNameChoiceReason);
        push_decision_lines(&mut out, state, component, LineStyle::NameChoiceReason);
        out.append("\n");
    }
    push_task(&mut out, "TASK: ", task);
    out.append(QUICK_STEPS);
    assert(out@ =~= quick_instructions(*state, component@, opt_str(task)));
    out
}

// ── Learn mode ──────────────────────────────────────────────────────────

pub open spec fn learn_instructions(st: ProjectState, c: Seq<char>) -> Seq<char> {
    LEARN_INTRO_A@ + c + LEARN_INTRO_B@ + LEARN_SOURCE_MANDATE@ + (if nonempty(
        decisions_for(st, PROJECT@),
    ) || nonempty(decisions_for(st, c)) {
        ALREADY_RECORDED@ + decision_lines(st, PROJECT@, LineStyle::IndentedProjectNameChoice)
            + decision_lines(st, c, LineStyle::IndentedNameChoice) + "\n"@
    } else {
        Seq::empty()
    }) + LEARN_ANALYZE@ + (if c == PROJECT@ {
        LEARN_PROJECT_SCOPE@
    } else {
        LEARN_COMPONENT_SCOPE_A@ + c + LEARN_COMPONENT_SCOPE_B@
    }) + LEARN_WALKTHROUGH@ + (if nonempty(decisions_for(st, c)) {
        LEARN_REVIEW_HEAD@ + decision_lines(st, c, LineStyle::IndentedStillAccurate)
            + LEARN_REVIEW_TAIL@
    } else {
        Seq::empty()
    }) + (if nonempty(patterns_for(st, c)) {
        EXISTING_PATTERNS@ + pattern_lines(st, c) + "\n"@
    } else {
        Seq::empty()
    }) + LEARN_COMPLETION@
}

/// Instructions for a learn session on `component`.
pub fn build_learn_instructions(state: &ProjectState, component: &str) -> (out: String)
    requires
        state.wf(),
    ensures
        out@ == learn_instructions(*state, component@),
{
    let mut out = String::new();
    out.append(LEARN_INTRO_A);
    out.append(component);
    out.append(LEARN_INTRO_B);
    out.append(LEARN_SOURCE_MANDATE);
    let n_decisions = count_decisions_for(&state.decisions.entries, component);
    let n_rules = count_decisions_for(&state.decisions.entries, PROJECT);
    let n_patterns = count_patterns_for(state, component);
    if n_rules > 0 || n_decisions > 0 {
        out.append(ALREADY_RECORDED);
        push_decision_lines(&mut out, state, PROJECT, LineStyle::IndentedProjectNameChoice);
        push_decision_lines(&mut out, state, component, LineStyle::IndentedNameChoice);
        out.append("\n");
    }
    out.append(LEARN_ANALYZE);
    if str_eq(component, PROJECT) {
        out.append(LEARN_PROJECT_SCOPE);
    } else {
        out.append(LEARN_COMPONENT_SCOPE_A);
        out.append(component);
        out.append(LEARN_COMPONENT_SCOPE_B);
    }
    out.append(LEARN_WALKTHROUGH);
    if n_decisions > 0 {
        out.append(LEARN_REVIEW_HEAD);
        push_decision_lines(&mut out, state, component, LineStyle::IndentedStillAccurate);
        out.append(LEARN_REVIEW_TAIL);
    }
    if n_patterns > 0 {
        out.append(EXISTING_PATTERNS);
        push_pattern_lines(&mut out, state, component);
        out.append("\n");
    }
    out.append(LEARN_COMPLETION);
    assert(out@ =~= learn_instructions(*state, component@));
    out
}

// ── Review mode ─────────────────────────────────────────────────────────

/// Entry `a` comes before entry `b` in a review: it is older, or as old
/// and earlier in name order.
pub open spec fn reviewed_before(es: Seq<Named<Decision>>, a: int, b: int) -> bool {
    es[a].value.created < es[b].value.created || (es[a].value.created == es[b].value.created && a < b)
}

/// `ord` lists the indices of the decisions filed under `c`, each once,
/// oldest first (ties in name order).
pub open spec fn is_review_order(st: ProjectState, c: Seq<char>, ord: Seq<usize>) -> bool {
    let es = st.decisions.entries@;
    &&& forall|x: usize| #[trigger] ord.contains(x) <==> (x < es.len() && es[x as int].value.component@ == c)
    &&& forall|a: int, b: int| 0 <= a < b < ord.len() ==> reviewed_before(es, #[trigger] ord[a] as int, #[trigger] ord[b] as int)
}

/// The indices of the decisions filed under `component`, oldest first.
pub fn review_order(state: &ProjectState, component: &str) -> (ord: Vec<usize>)
    ensures
        is_review_order(*state, component@, ord@),
{
    let es = &state.decisions.entries;
    let mut ord: Vec<usize> = Vec::new();
    for i in 0..es.len()
        invariant
            es == &state.decisions.entries,
            forall|x: usize| #[trigger] ord@.contains(x) <==> (x < i && es@[x as int].value.component@ == component@),
            forall|a: int, b: int| 0 <= a < b < ord@.len() ==> reviewed_before(es@, #[trigger] ord@[a] as int, #[trigger] ord@[b] as int),
    {
        if str_eq(es[i].value.component.as_str(), component) {
            let t = es[i].value.created;
            let mut p: usize = 0;
            proof {
                assert forall|a: int| 0 <= a < ord@.len() implies (#[trigger] ord@[a] as int) < es@.len() by {
                    assert(ord@.contains(ord@[a]));
                }
            }
            while p < ord.len() && es[ord[p]].value.created <= t
                invariant
                    es == &state.decisions.entries,
                    p <= ord@.len(),
                    forall|x: usize| #[trigger] ord@.contains(x) ==> x < i,
                    forall|a: int| 0 <= a < ord@.len() ==> (#[trigger] ord@[a] as int) < es@.len(),
                    forall|a: int| 0 <= a < p ==> es@[ord@[a] as int].value.created <= t,
                    t == es@[i as int].value.created,
                decreases ord@.len() - p,
            {
                assert(ord@.contains(ord@[p as int]));
                p = p + 1;
            }
            let ghost prev = ord@;
            proof {
                assert forall|b: int| p <= b < prev.len() implies es@[prev[b] as int].value.created > t by {
                    if b > p {
                        assert(reviewed_before(es@, prev[p as int] as int, prev[b] as int));
                    }
                }
            }
            ord.insert(p, i);
            proof {
                assert forall|x: usize| #[trigger] ord@.contains(x) <==> (x < i + 1 && es@[x as int].value.component@ == component@) by {
                    if ord@.contains(x) {
                        let k = choose|k: int| 0 <= k < ord@.len() && ord@[k] == x;
                        if k < p {
                            assert(prev[k] == x && prev.contains(x));
                        } else if k > p {
                            assert(prev[k - 1] == x && prev.contains(x));
                        }
                    }
                    if x < i + 1 && es@[x as int].value.component@ == component@ {
                        if x < i {
                            assert(prev.contains(x));
                            let k = choose|k: int| 0 <= k < prev.len() && prev[k] == x;
                            if k < p {
                                assert(ord@[k] == x);
                            } else {
                                assert(ord@[k + 1] == x);
                            }
                        } else {
                            assert(ord@[p as int] == x);
                        }
                    }
                }
                assert forall|a: int, b: int| 0 <= a < b < ord@.len() implies reviewed_before(es@, #[trigger] ord@[a] as int, #[trigger] ord@[b] as int) by {
                    if b < p {
                        assert(reviewed_before(es@, prev[a] as int, prev[b] as int));
                    } else if b == p {
                        assert(prev.contains(prev[a]));
                    } else if a == p {
                        assert(es@[prev[b - 1] as int].value.created > t);
                    } else if a < p {
                        assert(reviewed_before(es@, prev[a] as int, prev[b - 1] as int));
                    } else {
                        assert(reviewed_before(es@, prev[a - 1] as int, prev[b - 1] as int));
                    }
                }
            }
        }
    }
    ord
}

proof fn lemma_sorted_orders_equal(es: Seq<Named<Decision>>, o1: Seq<usize>, o2: Seq<usize>)
    requires
        forall|x: usize| #![trigger o1.contains(x)] #![trigger o2.contains(x)] o1.contains(x) <==> o2.contains(x),
        forall|a: int, b: int| 0 <= a < b < o1.len() ==> reviewed_before(es, #[trigger] o1[a] as int, #[trigger] o1[b] as int),
        forall|a: int, b: int| 0 <= a < b < o2.len() ==> reviewed_before(es, #[trigger] o2[a] as int, #[trigger] o2[b] as int),
    ensures
        o1 == o2,
    decreases o1.len(),
{
    if o1.len() == 0 {
        if o2.len() > 0 {
            assert(o2.contains(o2[0]));
        }
        assert(o1 =~= o2);
    } else {
        assert(o1.contains(o1[0]));
        assert(o2.len() > 0);
        assert(o2.contains(o2[0]));
        let x = o1[0];
        let y = o2[0];
        if x != y {
            assert(o1.contains(y));
            assert(o2.contains(x));
            let j = choose|j: int| 0 <= j < o1.len() && o1[j] == y;
            let i = choose|i: int| 0 <= i < o2.len() && o2[i] == x;
            assert(j > 0 && i > 0);
            assert(reviewed_before(es, o1[0] as int, o1[j] as int));
            assert(reviewed_before(es, o2[0] as int, o2[i] as int));
        }
        assert(x == y);
        let r1 = o1.drop_first();
        let r2 = o2.drop_first();
        assert forall|v: usize| #![trigger r1.contains(v)] #![trigger r2.contains(v)] r1.contains(v) <==> r2.contains(v) by {
            if r1.contains(v) {
                let k = choose|k: int| 0 <= k < r1.len() && r1[k] == v;
                assert(o1[k + 1] == v);
                assert(reviewed_before(es, o1[0] as int, o1[k + 1] as int));
                assert(o1.contains(v));
                assert(o2.contains(v));
                let m = choose|m: int| 0 <= m < o2.len() && o2[m] == v;
                assert(v != x);
                assert(m != 0);
                assert(r2[m - 1] == v);
            }
            if r2.contains(v) {
                let k = choose|k: int| 0 <= k < r2.len() && r2[k] == v;
                assert(o2[k + 1] == v);
                assert(reviewed_before(es, o2[0] as int, o2[k + 1] as int));
                assert(o2.contains(v));
                assert(o1.contains(v));
                let m = choose|m: int| 0 <= m < o1.len() && o1[m] == v;
                assert(v != y);
                assert(m != 0);
                assert(r1[m - 1] == v);
            }
        }
        lemma_sorted_orders_equal(es, r1, r2);
        assert(o1 =~= seq![x] + r1);
        assert(o2 =~= seq![y] + r2);
    }
}

/// The review order is determined by the state: at most one sequence of
/// indices meets `is_review_order`.
pub proof fn lemma_review_order_unique(st: ProjectState, c: Seq<char>, o1: Seq<usize>, o2: Seq<usize>)
    requires
        is_review_order(st, c, o1),
        is_review_order(st, c, o2),
    ensures
        o1 == o2,
{
    lemma_sorted_orders_equal(st.decisions.entries@, o1, o2);
}

/// The date shown for a decision: its calendar day when one could be
/// formatted, or `unknown`.
pub open spec fn shown_date(date: Option<Seq<char>>) -> Seq<char> {
    match date {
        Some(d) => d,
        None => "unknown"@,
    }
}

/// The review block of one decision, given the formatted day of its
/// creation.
pub open spec fn review_item_dated(e: Named<Decision>, date: Option<Seq<char>>) -> Seq<char> {
    "DECISION: "@ + e.name@ + " (created "@ + shown_date(date) + ")\n  "@ + e.value.choice@
        + ": "@ + e.value.reason@ + "\n"@ + REVIEW_ITEM_VERIFY@ + REVIEW_ITEM_ARTICULATE@
}

/// The review block of one decision.
pub open spec fn review_item(e: Named<Decision>) -> Seq<char> {
    review_item_dated(e, day_of(e.value.created as int))
}

pub open spec fn review_instructions(st: ProjectState, c: Seq<char>, ord: Seq<usize>) -> Seq<char> {
    REVIEW_INTRO_A@ + c + REVIEW_INTRO_B@ + REVIEW_SOURCE_MANDATE@ + if ord.len() == 0 {
        NOTHING_TO_REVIEW@
    } else {
        REVIEW_OLDEST_FIRST@ + render(
            ord.map_values(|i: usize| st.decisions.entries@[i as int]),
            |e: Named<Decision>| review_item(e),
        ) + REVIEW_CLOSING@
    }
}

/// The review block of one decision, given the formatted day of its
/// creation (`None` when it could not be formatted).
pub fn review_item_text(e: &Named<Decision>, date: &Option<String>) -> (s: String)
    ensures
        s@ == review_item_dated(*e, date.deep_view()),
{
    let mut out = String::new();
    out.append("DECISION: ");
    out.append(e.name.as_str());
    out.append(" (created ");
    match date {
        Some(d) => {
            out.append(d.as_str());
        },
        None => {
            out.append("unknown");
        },
    }
    out.append(")\n  ");
    out.append(e.value.choice.as_str());
    out.append(": ");
    out.append(e.value.reason.as_str());
    out.append("\n");
    out.append(REVIEW_ITEM_VERIFY);
    out.append(REVIEW_ITEM_ARTICULATE);
    assert(out@ =~= review_item_dated(*e, date.deep_view()));
    out
}

fn push_review_item(out: &mut String, e: &Named<Decision>)
    ensures
        final(out)@ == old(out)@ + review_item(*e),
{
    let date = format_utc_date(e.value.created);
    let item = review_item_text(e, &date);
    out.append(item.as_str());
}

/// Instructions for a design review of `component`, oldest decision first.
pub fn build_review_instructions(state: &ProjectState, component: &str) -> (out: String)
    ensures
        exists|ord: Seq<usize>|
            is_review_order(*state, component@, ord) && out@ == review_instructions(
                *state,
                component@,
                ord,
            ),
{
    let mut out = String::new();
    out.append(REVIEW_INTRO_A);
    out.append(component);
    out.append(REVIEW_INTRO_B);
    out.append(REVIEW_SOURCE_MANDATE);
    let ord = review_order(state, component);
    if ord.len() == 0 {
        out.append(NOTHING_TO_REVIEW);
        assert(out@ =~= review_instructions(*state, component@, ord@));
        return out;
    }
    out.append(REVIEW_OLDEST_FIRST);
    let ghost es = state.decisions.entries@;
    let ghost g = |i: usize| es[i as int];
    let ghost f = |e: Named<Decision>| review_item(e);
    let ghost start = out@;
    for k in 0..ord.len()
        invariant
            es == state.decisions.entries@,
            g == (|i: usize| es[i as int]),
            f == (|e: Named<Decision>| review_item(e)),
            is_review_order(*state, component@, ord@),
            out@ == start + render(ord@.take(k as int).map_values(g), f),
    {
        let i = ord[k];
        proof {
            assert(ord@.contains(i));
            assert(ord@.take(k + 1).map_values(g) =~= ord@.take(k as int).map_values(g).push(es[i as int]));
            lemma_render_push(ord@.take(k as int).map_values(g), es[i as int], f);
        }
        push_review_item(&mut out, &state.decisions.entries[i]);
    }
    proof {
        lemma_take_full(ord@);
    }
    out.append(REVIEW_CLOSING);
    assert(out@ =~= review_instructions(*state, component@, ord@));
    out
}

// ── Design prompt ───────────────────────────────────────────────────────

/// The instructions of a design session and its token budget.
pub struct DesignPrompt {
    pub system_instructions: String,
    pub token_budget: &'static str,
}

/// `text` is the instructions of `mode` for `c`.
pub open spec fn instructions_of(
    st: ProjectState,
    c: Seq<char>,
    task: Option<Seq<char>>,
    mode: DesignMode,
    text: Seq<char>,
) -> bool {
    match mode {
        DesignMode::Full => text == full_instructions(st, c, task),
        DesignMode::Quick => text == quick_instructions(st, c, task),
        DesignMode::Learn => text == learn_instructions(st, c),
        DesignMode::Review => exists|ord: Seq<usize>|
            is_review_order(st, c, ord) && text == review_instructions(st, c, ord),
    }
}

/// Builds the instructions of a design session on `component` (or the
/// project) in the given mode. Refuses a component that does not exist.
pub fn build_design_prompt(
    state: &ProjectState,
    component: &str,
    task: Option<&str>,
    mode: DesignMode,
) -> (r: Result<DesignPrompt, String>)
    requires
        state.wf(),
    ensures
        r is Err <==> !is_scope(*state, component@),
        r matches Err(e) ==> e@ == component_missing_message(component@),
        r matches Ok(p) ==> p.token_budget@ == budget(mode) && instructions_of(
            *state,
            component@,
            opt_str(task),
            mode,
            p.system_instructions@,
        ),
{
    if !str_eq(component, PROJECT) && !state.components.contains_key(component) {
        let mut e = String::new();
        e.append("component `");
        e.append(component);
        e.append("` does not exist");
        return Err(e);
    }
    let instructions = match mode {
        DesignMode::Full => build_full_instructions(state, component, task),
        DesignMode::Quick => build_quick_instructions(state, component, task),
        DesignMode::Learn => build_learn_instructions(state, component),
        DesignMode::Review => build_review_instructions(state, component),
    };
    Ok(DesignPrompt { system_instructions: instructions, token_budget: mode.token_budget() })
}

// ── Laws of the instructions ────────────────────────────────────────────

/// The full-mode checklist marks an area COVERED as soon as a decision of
/// the component or of the project has one of the area's keywords in its
/// choice or in its reason.
pub proof fn lemma_full_marks_keyword_areas_covered(
    st: ProjectState,
    c: Seq<char>,
    task: Option<Seq<char>>,
    a: ConcernArea,
    i: int,
    j: int,
)
    requires
        0 <= i < st.decisions.entries@.len(),
        0 <= j < area_keywords(a).len(),
        st.decisions.entries@[i].value.component@ == PROJECT@ || st.decisions.entries@[i].value.component@ == c,
        seq_contains(lower_seq(st.decisions.entries@[i].value.reason@), area_keywords(a)[j]) || seq_contains(
            lower_seq(st.decisions.entries@[i].value.choice@),
            area_keywords(a)[j],
        ),
    ensures
        seq_contains(full_instructions(st, c, task), "- [COVERED] "@ + area_label(a) + "\n"@),
{
    lemma_keyword_in_choice_or_reason_covers(st.decisions, c, a, i, j);
    let pre = FULL_INTRO_A@ + c + FULL_INTRO_B@ + FULL_SOURCE_MANDATE@ + full_constraints(st, c) + full_graph(st, c)
        + task_line("TASK CONTEXT: "@, task) + full_scope(c);
    let post = full_state(st, c) + FULL_PHASES@;
    lemma_contains_within(concern_status_text(st.decisions, c), "- [COVERED] "@ + area_label(a) + "\n"@, pre, post);
    assert(pre + concern_status_text(st.decisions, c) + post =~= full_instructions(st, c, task));
}

/// The quick-mode instructions of any scope show every project-wide
/// decision for confirmation: whenever a decision is filed under the
/// project, they hold the ACTIVE CONSTRAINTS header followed by the
/// project rules, and the `- [project] name: choice (reason)` line of each.
pub proof fn lemma_quick_shows_project_rules(st: ProjectState, c: Seq<char>, task: Option<Seq<char>>, i: int)
    requires
        0 <= i < st.decisions.entries@.len(),
        st.decisions.entries@[i].value.component@ == PROJECT@,
    ensures
        seq_contains(
            quick_instructions(st, c, task),
            ACTIVE_CONSTRAINTS@ + decision_lines(st, PROJECT@, LineStyle::ProjectNameChoiceReason),
        ),
        seq_contains(
            quick_instructions(st, c, task),
            "- [project] "@ + st.decisions.entries@[i].name@ + ": "@ + st.decisions.entries@[i].value.choice@ + " ("@
                + st.decisions.entries@[i].value.reason@ + ")\n"@,
        ),
{
    let e = st.decisions.entries@[i];
    let style = LineStyle::ProjectNameChoiceReason;
    lemma_render_filter_contains(st.decisions.entries@, in_scope(PROJECT@), line_fn(style), i);
    let lines = decision_lines(st, PROJECT@, style);
    let block = ACTIVE_CONSTRAINTS@ + lines;
    let pre = QUICK_INTRO_A@ + c + QUICK_INTRO_B@;
    let post = decision_lines(st, c, LineStyle::NameChoiceReason) + "\n"@ + task_line("TASK: "@, task) + QUICK_STEPS@;
    assert(pre + block + post =~= quick_instructions(st, c, task));
    lemma_contains_middle(pre, block, post);
    lemma_contains_within(lines, decision_line(style, e), ACTIVE_CONSTRAINTS@, Seq::empty());
    assert(ACTIVE_CONSTRAINTS@ + lines + Seq::<char>::empty() =~= block);
    lemma_contains_trans(quick_instructions(st, c, task), block, decision_line(style, e));
}

/// The learn-mode instructions of any scope list every project-wide
/// decision as already recorded: whenever a decision is filed under the
/// project, they hold the ALREADY RECORDED header followed by the project
/// rules, and the `  [project] name: choice` line of each.
pub proof fn lemma_learn_lists_project_rules(st: ProjectState, c: Seq<char>, i: int)
    requires
        0 <= i < st.decisions.entries@.len(),
        st.decisions.entries@[i].value.component@ == PROJECT@,
    ensures
        seq_contains(
            learn_instructions(st, c),
            ALREADY_RECORDED@ + decision_lines(st, PROJECT@, LineStyle::IndentedProjectNameChoice),
        ),
        seq_contains(
            learn_instructions(st, c),
            "  [project] "@ + st.decisions.entries@[i].name@ + ": "@ + st.decisions.entries@[i].value.choice@ + "\n"@,
        ),
{
    let e = st.decisions.entries@[i];
    let style = LineStyle::IndentedProjectNameChoice;
    lemma_render_filter_contains(st.decisions.entries@, in_scope(PROJECT@), line_fn(style), i);
    let lines = decision_lines(st, PROJECT@, style);
    let block = ALREADY_RECORDED@ + lines;
    let pre = LEARN_INTRO_A@ + c + LEARN_INTRO_B@ + LEARN_SOURCE_MANDATE@;
    let post = learn_instructions(st, c).subrange((pre.len() + block.len()) as int, learn_instructions(st, c).len() as int);
    assert(learn_instructions(st, c).subrange(pre.len() as int, (pre.len() + block.len()) as int) =~= block);
    assert(learn_instructions(st, c).subrange(0, pre.len() as int) =~= pre);
    assert(pre + block + post =~= learn_instructions(st, c));
    lemma_contains_middle(pre, block, post);
    lemma_contains_within(lines, decision_line(style, e), ALREADY_RECORDED@, Seq::empty());
    assert(ALREADY_RECORDED@ + lines + Seq::<char>::empty() =~= block);
    lemma_contains_trans(learn_instructions(st, c), block, decision_line(style, e));
}

/// The learn-mode instructions list every pattern that groups a decision
/// of the component, whichever position that decision holds in the
/// pattern: they hold the EXISTING PATTERNS header followed by the
/// component's patterns, and the `- name: description` line of each.
pub proof fn lemma_learn_lists_touching_patterns(st: ProjectState, c: Seq<char>, i: int, j: int)
    requires
        0 <= i < st.patterns.entries@.len(),
        0 <= j < st.patterns.entries@[i].value.decisions@.len(),
        st.decisions.has(st.patterns.entries@[i].value.decisions@[j]@),
        st.decisions.as_map()[st.patterns.entries@[i].value.decisions@[j]@].component@ == c,
    ensures
        seq_contains(learn_instructions(st, c), EXISTING_PATTERNS@ + pattern_lines(st, c)),
        seq_contains(
            learn_instructions(st, c),
            "- "@ + st.patterns.entries@[i].name@ + ": "@ + st.patterns.entries@[i].value.description@ + "\n"@,
        ),
{
    let p = st.patterns.entries@[i];
    let f = |q: Named<Pattern>| "- "@ + q.name@ + ": "@ + q.value.description@ + "\n"@;
    assert(pattern_touches(st, c)(p));
    lemma_render_filter_contains(st.patterns.entries@, pattern_touches(st, c), f, i);
    assert(pattern_lines(st, c) == render(patterns_for(st, c), f));
    let block = EXISTING_PATTERNS@ + pattern_lines(st, c);
    let pre = LEARN_INTRO_A@ + c + LEARN_INTRO_B@ + LEARN_SOURCE_MANDATE@ + (if nonempty(
        decisions_for(st, PROJECT@),
    ) || nonempty(decisions_for(st, c)) {
        ALREADY_RECORDED@ + decision_lines(st, PROJECT@, LineStyle::IndentedProjectNameChoice)
            + decision_lines(st, c, LineStyle::IndentedNameChoice) + "\n"@
    } else {
        Seq::empty()
    }) + LEARN_ANALYZE@ + (if c == PROJECT@ {
        LEARN_PROJECT_SCOPE@
    } else {
        LEARN_COMPONENT_SCOPE_A@ + c + LEARN_COMPONENT_SCOPE_B@
    }) + LEARN_WALKTHROUGH@ + (if nonempty(decisions_for(st, c)) {
        LEARN_REVIEW_HEAD@ + decision_lines(st, c, LineStyle::IndentedStillAccurate)
            + LEARN_REVIEW_TAIL@
    } else {
        Seq::empty()
    });
    let post = "\n"@ + LEARN_COMPLETION@;
    assert(pre + block + post =~= learn_instructions(st, c));
    lemma_contains_middle(pre, block, post);
    lemma_contains_within(pattern_lines(st, c), f(p), EXISTING_PATTERNS@, Seq::empty());
    assert(EXISTING_PATTERNS@ + pattern_lines(st, c) + Seq::<char>::empty() =~= block);
    lemma_contains_trans(learn_instructions(st, c), block, f(p));
}

} // verus!
