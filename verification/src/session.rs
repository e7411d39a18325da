//! The decisions of a step-by-step CLI design session: when a session
//! ends, when a step's dialogue hands over to the next step, and how the
//! set of completed steps evolves. Running the dialogue (model calls,
//! terminal input, persistence) happens around these decisions.
use vstd::prelude::*;
use crate::text::{chars_of, push_char, str_eq};

verus! {

/// Warn about long sessions from this many messages on.
pub const MESSAGE_COUNT_WARNING: usize = 80;

/// The session is long: 80 messages or more, and a multiple of 20.
pub fn should_warn_message_count(n: usize) -> (r: bool)
    ensures
        r == (n >= 80 && n % 20 == 0),
{
    n >= MESSAGE_COUNT_WARNING && n % 20 == 0
}

/// What to do after asking the workflow for the current step.
#[derive(PartialEq, Eq, Structural, Debug, Clone, Copy)]
pub enum StepDecision {
    /// The component is ready: the session is complete.
    Finish,
    /// The step was already completed: every reachable step is done.
    AllStepsDone,
    /// Run the dialogue of this step.
    RunStep,
}

/// `completed` holds `step`.
pub open spec fn holds(completed: Seq<String>, step: Seq<char>) -> bool {
    exists|i: int| 0 <= i < completed.len() && (#[trigger] completed[i])@ == step
}

pub fn contains_step(completed: &Vec<String>, step: &str) -> (r: bool)
    ensures
        r == holds(completed@, step@),
{
    for i in 0..completed.len()
        invariant
            forall|k: int| 0 <= k < i ==> (#[trigger] completed@[k])@ != step@,
    {
        if str_eq(completed[i].as_str(), step) {
            return true;
        }
    }
    false
}

/// Decides what follows a call of the workflow's `advance`.
pub fn decide_step(ready: bool, step: &str, completed: &Vec<String>) -> (d: StepDecision)
    ensures
        d == if ready {
            StepDecision::Finish
        } else if holds(completed@, step@) {
            StepDecision::AllStepsDone
        } else {
            StepDecision::RunStep
        },
{
    if ready {
        StepDecision::Finish
    } else if contains_step(completed, step) {
        StepDecision::AllStepsDone
    } else {
        StepDecision::RunStep
    }
}

/// The steps completed so far, as a set of names.
pub open spec fn step_set(completed: Seq<String>) -> Set<Seq<char>> {
    Set::new(|s: Seq<char>| holds(completed, s))
}

/// Marks `step` completed. A step that changed the graph clears the set
/// first, so that the whole sequence is evaluated again. Each name is
/// kept once.
pub fn complete_step(completed: &mut Vec<String>, step: String, graph_changed: bool)
    ensures
        step_set(final(completed)@) == (if graph_changed {
            Set::<Seq<char>>::empty()
        } else {
            step_set(old(completed)@)
        }).insert(step@),
        old(completed)@.no_duplicates() || graph_changed ==> final(completed)@.no_duplicates(),
{
    if graph_changed {
        completed.clear();
    }
    let ghost before = completed@;
    if !contains_step(completed, step.as_str()) {
        let ghost v = step@;
        completed.push(step);
        proof {
            assert forall|s: Seq<char>| holds(completed@, s) == (holds(before, s) || s == v) by {
                if holds(completed@, s) {
                    let i = choose|i: int| 0 <= i < completed@.len() && (#[trigger] completed@[i])@ == s;
                    if i < before.len() {
                        assert(before[i] == completed@[i]);
                    }
                }
                if holds(before, s) {
                    let i = choose|i: int| 0 <= i < before.len() && (#[trigger] before[i])@ == s;
                    assert(completed@[i] == before[i]);
                }
                if s == v {
                    assert(completed@[before.len() as int]@ == s);
                }
            }
            assert forall|a: int, b: int| 0 <= a < b < completed@.len() && before.no_duplicates() implies completed@[a] != completed@[b] by {
                if b == before.len() {
                    assert(before[a]@ != v);
                }
            }
        }
    }
    proof {
        if graph_changed {
            assert(step_set(old(completed)@.take(0)) =~= Set::<Seq<char>>::empty());
        }
        assert(step_set(completed@) =~= (if graph_changed {
            Set::<Seq<char>>::empty()
        } else {
            step_set(old(completed)@)
        }).insert(step@));
    }
}

/// Loop detection: once a step is marked completed (whether or not the
/// graph changed), the completed set holds it, so the workflow offering it
/// again ends the session instead of running the step twice; after a graph
/// change the set holds that step alone.
pub proof fn lemma_completed_step_is_not_rerun(
    before: Seq<String>,
    after: Seq<String>,
    step: Seq<char>,
    graph_changed: bool,
)
    requires
        step_set(after) == (if graph_changed {
            Set::<Seq<char>>::empty()
        } else {
            step_set(before)
        }).insert(step),
    ensures
        holds(after, step),
        graph_changed ==> forall|s: Seq<char>| holds(after, s) <==> s == step,
        !graph_changed ==> forall|s: Seq<char>| holds(before, s) ==> holds(after, s),
{
    assert(step_set(after).contains(step));
    assert forall|s: Seq<char>| holds(after, s) <==> step_set(after).contains(s) by {}
    assert forall|s: Seq<char>| holds(before, s) <==> step_set(before).contains(s) by {}
}

/// What follows one reply of the model within a step.
#[derive(PartialEq, Eq, Structural, Debug, Clone, Copy)]
pub enum DialogueDecision {
    /// The session is over (design complete, or component ready).
    Complete,
    /// The workflow moved to another step.
    StepChanged,
    /// Ask the user for the next answer.
    AskUser,
}

/// Decides what follows a reply: the reply signalled completion, the
/// workflow is now ready, the workflow's step moved, or the user answers.
pub fn decide_after_reply(design_complete: bool, ready: bool, new_step: &str, step: &str) -> (d: DialogueDecision)
    ensures
        d == if design_complete || ready {
            DialogueDecision::Complete
        } else if new_step@ != step@ {
            DialogueDecision::StepChanged
        } else {
            DialogueDecision::AskUser
        },
{
    if design_complete || ready {
        DialogueDecision::Complete
    } else if !str_eq(new_step, step) {
        DialogueDecision::StepChanged
    } else {
        DialogueDecision::AskUser
    }
}

/// A step's name for display: underscores become spaces.
pub open spec fn step_label_text(step: Seq<char>) -> Seq<char> {
    step.map_values(|c: char| if c == '_' { ' ' } else { c })
}

pub fn step_label(step: &str) -> (s: String)
    ensures
        s@ == step_label_text(step@),
{
    let cs = chars_of(step);
    let mut s = String::new();
    for i in 0..cs.len()
        invariant
            cs@ == step@,
            s@ == step_label_text(step@.take(i as int)),
    {
        let c = cs[i];
        push_char(&mut s, if c == '_' { ' ' } else { c });
        assert(s@ =~= step_label_text(step@.take(i + 1)));
    }
    assert(step@.take(cs@.len() as int) =~= step@);
    s
}

/// Unicode `White_Space`, as std's `char::is_whitespace` documents it.
pub open spec fn is_white_space(c: char) -> bool {
    ('\u{9}' <= c && c <= '\u{d}') || c == ' ' || c == '\u{85}' || c == '\u{a0}' || c == '\u{1680}'
        || ('\u{2000}' <= c && c <= '\u{200a}') || c == '\u{2028}' || c == '\u{2029}' || c == '\u{202f}'
        || c == '\u{205f}' || c == '\u{3000}'
}

fn white_space(c: char) -> (r: bool)
    ensures
        r == is_white_space(c),
{
    (c >= '\u{9}' && c <= '\u{d}') || c == ' ' || c == '\u{85}' || c == '\u{a0}' || c == '\u{1680}'
        || (c >= '\u{2000}' && c <= '\u{200a}') || c == '\u{2028}' || c == '\u{2029}' || c == '\u{202f}'
        || c == '\u{205f}' || c == '\u{3000}'
}

/// `t` is `s` without its leading and trailing white space.
pub open spec fn is_trim_of(s: Seq<char>, t: Seq<char>) -> bool {
    exists|a: int, b: int|
        0 <= a <= b <= s.len() && t == s.subrange(a, b) && (forall|k: int| 0 <= k < a ==> is_white_space(#[trigger] s[k]))
            && (forall|k: int| b <= k < s.len() ==> is_white_space(#[trigger] s[k])) && (a < b ==> !is_white_space(s[a])
            && !is_white_space(s[b - 1]))
}

/// Strips leading and trailing white space (std's `str::trim`).
pub fn trim(s: &str) -> (t: String)
    ensures
        is_trim_of(s@, t@),
{
    let cs = chars_of(s);
    let n = cs.len();
    let mut a: usize = 0;
    while a < n && white_space(cs[a])
        invariant
            n == cs@.len(),
            cs@ == s@,
            a <= n,
            forall|k: int| 0 <= k < a ==> is_white_space(#[trigger] s@[k]),
        decreases n - a,
    {
        a = a + 1;
    }
    let mut b: usize = n;
    while b > a && white_space(cs[b - 1])
        invariant
            n == cs@.len(),
            cs@ == s@,
            a <= b <= n,
            forall|k: int| b <= k < n ==> is_white_space(#[trigger] s@[k]),
        decreases b,
    {
        b = b - 1;
    }
    let mut t = String::new();
    for i in a..b
        invariant
            cs@ == s@,
            b <= n,
            n == cs@.len(),
            t@ == s@.subrange(a as int, i as int),
    {
        push_char(&mut t, cs[i]);
        assert(t@ =~= s@.subrange(a as int, i + 1));
    }
    assert(is_trim_of(s@, t@)) by {
        assert(t@ == s@.subrange(a as int, b as int));
    }
    t
}

/// A line read from the terminal: nothing at end of input (`bytes_read`
/// zero) or for a blank line, else the trimmed text.
pub fn input_from_line(bytes_read: usize, line: &str) -> (r: Option<String>)
    ensures
        bytes_read == 0 ==> r is None,
        bytes_read > 0 ==> (r is None <==> (forall|k: int| 0 <= k < line@.len() ==> is_white_space(#[trigger] line@[k]))),
        r matches Some(t) ==> is_trim_of(line@, t@),
{
    if bytes_read == 0 {
        return None;
    }
    let t = trim(line);
    if t.as_str().is_empty() {
        proof {
            let (a, b) = choose|a: int, b: int|
                0 <= a <= b <= line@.len() && t@ == line@.subrange(a, b) && (forall|k: int| 0 <= k < a ==> is_white_space(#[trigger] line@[k]))
                    && (forall|k: int| b <= k < line@.len() ==> is_white_space(#[trigger] line@[k])) && (a < b ==> !is_white_space(line@[a])
                    && !is_white_space(line@[b - 1]));
            assert forall|k: int| 0 <= k < line@.len() implies is_white_space(#[trigger] line@[k]) by {
                if k >= a && k < b {
                    assert(t@.len() == b - a);
                }
            }
        }
        None
    } else {
        proof {
            let (a, b) = choose|a: int, b: int|
                0 <= a <= b <= line@.len() && t@ == line@.subrange(a, b) && (forall|k: int| 0 <= k < a ==> is_white_space(#[trigger] line@[k]))
                    && (forall|k: int| b <= k < line@.len() ==> is_white_space(#[trigger] line@[k])) && (a < b ==> !is_white_space(line@[a])
                    && !is_white_space(line@[b - 1]));
            assert(!is_white_space(line@[a]));
        }
        Some(t)
    }
}

/// Where a design session stands, between two pieces of outside work.
#[derive(PartialEq, Eq, Structural, Debug, Clone, Copy)]
pub enum Phase {
    /// Waiting for the workflow's current step, at the start of a step.
    Advancing,
    /// Waiting for the model's reply within the current step.
    Replying,
    /// Waiting for the workflow's step again, after a reply.
    Rechecking,
    /// Waiting for the user's answer.
    Reading,
    /// The session is over.
    Done,
}

/// Why a session ended.
#[derive(PartialEq, Eq, Structural, Debug, Clone, Copy)]
pub enum EndReason {
    /// The workflow reports the component ready.
    Ready,
    /// The workflow offered a step that was already completed.
    AllStepsDone,
    /// The model signalled that the design is complete.
    DesignComplete,
    /// The user ended input: the session is saved for `--continue`.
    Suspended,
}

/// The state of a step-by-step design session: the steps completed
/// without a graph change since the last one, the current step, how many
/// decisions the session has recorded (in all, and when the step began),
/// and how many messages the conversation holds.
pub struct Driver {
    pub phase: Phase,
    pub completed: Vec<String>,
    pub step: String,
    pub decisions: usize,
    pub decisions_before: usize,
    pub messages: usize,
}

/// The result of the outside work that the driver asked for.
pub enum DriverEvent {
    /// The workflow's `advance`: the component is ready, or its step.
    Advanced { ready: bool, step: String },
    /// The model replied; `recorded` decisions were extracted from the
    /// reply and recorded; the reply carried the completion signal.
    Replied { recorded: usize, design_complete: bool },
    /// The user's answer: `None` at end of input or for a blank line.
    Answered(Option<String>),
}

/// The outside work to do next.
pub enum DriverAction {
    /// End the session: remove its saved state, or for `Suspended`
    /// save it, and say why.
    End(EndReason),
    /// Begin the dialogue of `step`: build its prompt, show `label`,
    /// then ask the model (warning first when `warn`).
    StartStep { step: String, label: String, warn: bool },
    /// Keep the reply in the conversation, save, and ask the workflow
    /// for its step again.
    Recheck,
    /// The step is over: save, and ask the workflow for the next step.
    NextStep,
    /// Prompt the user for an answer.
    AskUser,
    /// Add the user's answer to the conversation, save, and ask the
    /// model again (warning first when `warn`).
    Continue { answer: String, warn: bool },
    /// The event does not fit the phase; nothing changes.
    Ignore,
}

/// One move of the driver: in state `d`, the event `e` gives the action
/// `a` and the state `d2`.
pub open spec fn transition(d: Driver, e: DriverEvent, a: DriverAction, d2: Driver) -> bool {
    match (d.phase, e) {
        (Phase::Advancing, DriverEvent::Advanced { ready, step }) => if ready {
            &&& a matches DriverAction::End(r) && r == EndReason::Ready
            &&& d2.phase == Phase::Done
            &&& d2.completed@ == d.completed@
        } else if holds(d.completed@, step@) {
            &&& a matches DriverAction::End(r) && r == EndReason::AllStepsDone
            &&& d2.phase == Phase::Done
            &&& d2.completed@ == d.completed@
        } else {
            &&& a matches DriverAction::StartStep { step: s, label, warn } && s@ == step@
                && label@ == step_label_text(step@) && warn == (d.messages >= 80
                && d.messages % 20 == 0)
            &&& d2.phase == Phase::Replying
            &&& d2.step@ == step@
            &&& d2.decisions_before == d.decisions
            &&& d2.decisions == d.decisions
            &&& d2.messages == d.messages
            &&& d2.completed@ == d.completed@
        },
        (Phase::Replying, DriverEvent::Replied { recorded, design_complete }) => {
            &&& d2.decisions == d.decisions + recorded
            &&& d2.completed@ == d.completed@
            &&& d2.step@ == d.step@
            &&& d2.decisions_before == d.decisions_before
            &&& if design_complete {
                &&& a matches DriverAction::End(r) && r == EndReason::DesignComplete
                &&& d2.phase == Phase::Done
                &&& d2.messages == d.messages
            } else {
                &&& a is Recheck
                &&& d2.phase == Phase::Rechecking
                &&& d2.messages == d.messages + 1
            }
        },
        (Phase::Rechecking, DriverEvent::Advanced { ready, step }) => {
            &&& d2.decisions == d.decisions
            &&& d2.messages == d.messages
            &&& if ready {
                &&& a matches DriverAction::End(r) && r == EndReason::Ready
                &&& d2.phase == Phase::Done
                &&& d2.completed@ == d.completed@
            } else if step@ != d.step@ {
                &&& a is NextStep
                &&& d2.phase == Phase::Advancing
                &&& step_set(d2.completed@) == (if d.decisions
                    > d.decisions_before {
                    Set::<Seq<char>>::empty()
                } else {
                    step_set(d.completed@)
                }).insert(d.step@)
            } else {
                &&& a is AskUser
                &&& d2.phase == Phase::Reading
                &&& d2.completed@ == d.completed@
                &&& d2.step@ == d.step@
                &&& d2.decisions_before == d.decisions_before
            }
        },
        (Phase::Reading, DriverEvent::Answered(answer)) => {
            &&& d2.decisions == d.decisions
            &&& d2.completed@ == d.completed@
            &&& match answer {
                None => {
                    &&& a matches DriverAction::End(r) && r == EndReason::Suspended
                    &&& d2.phase == Phase::Done
                    &&& d2.messages == d.messages
                },
                Some(text) => {
                    &&& a matches DriverAction::Continue { answer: t, warn } && t@ == text@
                        && warn == (d.messages + 1 >= 80 && (d.messages + 1) % 20
                        == 0)
                    &&& d2.phase == Phase::Replying
                    &&& d2.messages == d.messages + 1
                    &&& d2.step@ == d.step@
                    &&& d2.decisions_before == d.decisions_before
                },
            }
        },
        _ => {
            &&& a is Ignore
            &&& d2.phase == d.phase
            &&& d2.completed@ == d.completed@
            &&& d2.step@ == d.step@
            &&& d2.decisions == d.decisions
            &&& d2.decisions_before == d.decisions_before
            &&& d2.messages == d.messages
        },
    }
}

/// The driver is inside a step's dialogue.
pub open spec fn in_step(p: Phase) -> bool {
    p == Phase::Replying || p == Phase::Rechecking || p == Phase::Reading
}

/// `ds` and `acts` are what the driver goes through on the events `es`.
pub open spec fn is_run(ds: Seq<Driver>, es: Seq<DriverEvent>, acts: Seq<DriverAction>) -> bool {
    &&& ds.len() == es.len() + 1
    &&& acts.len() == es.len()
    &&& forall|i: int| 0 <= i < es.len() ==> transition(#[trigger] ds[i], es[i], acts[i], ds[i + 1])
}

proof fn lemma_step_invariant(ds: Seq<Driver>, es: Seq<DriverEvent>, acts: Seq<DriverAction>, k: int)
    requires
        is_run(ds, es, acts),
        ds[0].phase == Phase::Advancing,
        es.len() >= 1,
        es[0] matches DriverEvent::Advanced { ready, step } && !ready && !holds(ds[0].completed@, step@),
        1 <= k < es.len() + 1,
        forall|j: int| 1 <= j <= k ==> in_step(#[trigger] ds[j].phase),
    ensures
        ds[k].completed@ == ds[0].completed@,
        ds[k].step@ == es[0]->step@,
        ds[k].decisions_before == ds[0].decisions,
        ds[k].decisions >= ds[0].decisions,
    decreases k,
{
    assert(transition(ds[k - 1], es[k - 1], acts[k - 1], ds[k]));
    if k > 1 {
        lemma_step_invariant(ds, es, acts, k - 1);
        assert(in_step(ds[k - 1].phase));
    }
}

/// A whole step of a design session. The workflow's answer decides first:
/// ready ends the session, and a step already completed ends it too (no
/// model call). Otherwise the step's dialogue runs; while it does, the set
/// of completed steps is untouched; when the workflow moves to another
/// step, the set becomes the finished step alone if decisions were
/// recorded during the step, and else the old set with the step added.
pub proof fn lemma_run_of_a_step(ds: Seq<Driver>, es: Seq<DriverEvent>, acts: Seq<DriverAction>)
    requires
        is_run(ds, es, acts),
        ds[0].phase == Phase::Advancing,
        es.len() >= 1,
        es[0] is Advanced,
        forall|j: int| 1 <= j < es.len() ==> in_step(#[trigger] ds[j].phase),
    ensures
        es[0]->ready ==> (acts[0] matches DriverAction::End(r) && r == EndReason::Ready),
        !es[0]->ready && holds(ds[0].completed@, es[0]->step@) ==> (acts[0] matches DriverAction::End(r)
            && r == EndReason::AllStepsDone),
        !es[0]->ready && !holds(ds[0].completed@, es[0]->step@) ==> {
            &&& acts[0] is StartStep
            &&& forall|k: int| 1 <= k < es.len() ==> (#[trigger] ds[k]).completed@ == ds[0].completed@
                && ds[k].step@ == es[0]->step@
            &&& acts[es.len() - 1] is NextStep ==> step_set(ds[es.len() as int].completed@) == (if ds[es.len()
                - 1].decisions > ds[0].decisions {
                Set::<Seq<char>>::empty()
            } else {
                step_set(ds[0].completed@)
            }).insert(es[0]->step@)
        },
{
    assert(transition(ds[0], es[0], acts[0], ds[1]));
    if !es[0]->ready && !holds(ds[0].completed@, es[0]->step@) {
        assert forall|k: int| 1 <= k < es.len() implies (#[trigger] ds[k]).completed@ == ds[0].completed@
            && ds[k].step@ == es[0]->step@ by {
            lemma_step_invariant(ds, es, acts, k);
        }
        let n = es.len() - 1;
        if acts[n] is NextStep {
            assert(transition(ds[n], es[n], acts[n], ds[n + 1]));
            if n >= 1 {
                lemma_step_invariant(ds, es, acts, n);
            }
        }
    }
}

impl Driver {
    /// A session resumed with its completed steps, its recorded decisions
    /// and its conversation length; it starts by asking the workflow.
    pub fn new(completed: Vec<String>, decisions: usize, messages: usize) -> (d: Self)
        ensures
            d.phase == Phase::Advancing,
            d.completed@ == completed@,
            d.decisions == decisions,
            d.decisions_before == decisions,
            d.messages == messages,
    {
        Driver { phase: Phase::Advancing, completed, step: String::new(), decisions, decisions_before: decisions, messages }
    }

    /// Takes one event and says what to do next.
    pub fn next(&mut self, event: DriverEvent) -> (a: DriverAction)
        requires
            old(self).messages < usize::MAX,
            event matches DriverEvent::Replied { recorded, .. } ==> old(self).decisions + recorded <= usize::MAX,
        ensures
            transition(*old(self), event, a, *final(self)),
    {
        match (self.phase, event) {
            (Phase::Advancing, DriverEvent::Advanced { ready, step }) => {
                match decide_step(ready, step.as_str(), &self.completed) {
                    StepDecision::Finish => {
                        self.phase = Phase::Done;
                        DriverAction::End(EndReason::Ready)
                    },
                    StepDecision::AllStepsDone => {
                        self.phase = Phase::Done;
                        DriverAction::End(EndReason::AllStepsDone)
                    },
                    StepDecision::RunStep => {
                        let label = step_label(step.as_str());
                        let warn = should_warn_message_count(self.messages);
                        self.step = step.clone();
                        self.decisions_before = self.decisions;
                        self.phase = Phase::Replying;
                        DriverAction::StartStep { step, label, warn }
                    },
                }
            },
            (Phase::Replying, DriverEvent::Replied { recorded, design_complete }) => {
                self.decisions = self.decisions + recorded;
                if design_complete {
                    self.phase = Phase::Done;
                    DriverAction::End(EndReason::DesignComplete)
                } else {
                    self.messages = self.messages + 1;
                    self.phase = Phase::Rechecking;
                    DriverAction::Recheck
                }
            },
            (Phase::Rechecking, DriverEvent::Advanced { ready, step }) => {
                match decide_after_reply(false, ready, step.as_str(), self.step.as_str()) {
                    DialogueDecision::Complete => {
                        self.phase = Phase::Done;
                        DriverAction::End(EndReason::Ready)
                    },
                    DialogueDecision::StepChanged => {
                        let graph_changed = self.decisions > self.decisions_before;
                        let done = self.step.clone();
                        complete_step(&mut self.completed, done, graph_changed);
                        self.phase = Phase::Advancing;
                        DriverAction::NextStep
                    },
                    DialogueDecision::AskUser => {
                        self.phase = Phase::Reading;
                        DriverAction::AskUser
                    },
                }
            },
            (Phase::Reading, DriverEvent::Answered(answer)) => {
                match answer {
                    None => {
                        self.phase = Phase::Done;
                        DriverAction::End(EndReason::Suspended)
                    },
                    Some(text) => {
                        self.messages = self.messages + 1;
                        let warn = should_warn_message_count(self.messages);
                        self.phase = Phase::Replying;
                        DriverAction::Continue { answer: text, warn }
                    },
                }
            },
            _ => DriverAction::Ignore,
        }
    }
}

} // verus!
