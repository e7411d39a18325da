//! The system prompt of a CLI design conversation: component context,
//! existing decisions, mode and the answer format.
use vstd::prelude::*;
use crate::graph::{
    connects_to, count_connects_to, count_decisions_for, decision_lines, decisions_for,
    push_connects_to_joined, push_decision_lines, LineStyle,
};
use crate::render::join;
use crate::schema::{ProjectState, PROJECT};
use crate::text::str_eq;

verus! {

pub const SYSTEM_INTRO: &'static str = "You are Trurl, a meticulous architectural design assistant. \
     You conduct focused Socratic design conversations, one question at a time.\n\n";

pub const EXISTING_FOR_COMPONENT: &'static str = "## Existing decisions for this component\n";

pub const PROJECT_WIDE_HEADER: &'static str = "## Project-wide decisions (apply everywhere)\n";

pub const REVISIT_MODE: &'static str = "## Mode: Revisit\n\
     Challenge each existing decision. Ask if the reasoning still holds \
     and if better alternatives exist. When a decision is revised, output \
     the new decision JSON. Skip decisions the user wants to keep.\n\n";

pub const ANSWER_FORMAT: &'static str = "## Instructions\n\n\
     Ask ONE design question at a time. After the user answers, summarize \
     their decision as a JSON object on its own line:\n\n\
     {\"choice\": \"concise decision title\", \"reason\": \"the reasoning\", \
     \"alternatives\": [\"Option A — rejected: why\"]}\n\n\
     Include \"alternatives\" only when other options were discussed or \
     are worth noting. Omit the field when there are none.\n\n\
     Then continue with the next question. Cover key technical choices, \
     patterns, constraints, and integration points. Reference existing \
     decisions and connections for consistency.\n\n\
     When all important design aspects are covered, output DESIGN_COMPLETE \
     on its own line.\n";

/// The section that introduces the component (or the project).
pub open spec fn component_context(component: Seq<char>, st: ProjectState) -> Seq<char> {
    if st.components.has(component) {
        let comp = st.components.as_map()[component];
        "## Component: "@ + comp.name@ + "\n"@ + (if comp.description@.len() > 0 {
            "Description: "@ + comp.description@ + "\n"@
        } else {
            Seq::empty()
        }) + (if connects_to(st, component).len() > 0 {
            "Connects to: "@ + join(connects_to(st, component), ", "@) + "\n"@
        } else {
            Seq::empty()
        }) + "\n"@
    } else if component == PROJECT@ {
        "## Project: "@ + st.project.project.name@ + "\n\n"@
    } else {
        Seq::empty()
    }
}

/// The full system prompt.
pub open spec fn system_prompt(component: Seq<char>, st: ProjectState, revisit: bool) -> Seq<char> {
    SYSTEM_INTRO@ + component_context(component, st) + (if decisions_for(st, component).len() > 0 {
        EXISTING_FOR_COMPONENT@ + decision_lines(st, component, LineStyle::NameChoiceReasonLabelled)
            + "\n"@
    } else {
        Seq::empty()
    }) + (if component != PROJECT@ && decisions_for(st, PROJECT@).len() > 0 {
        PROJECT_WIDE_HEADER@ + decision_lines(st, PROJECT@, LineStyle::NameChoiceReasonLabelled)
            + "\n"@
    } else {
        Seq::empty()
    }) + (if revisit {
        REVISIT_MODE@
    } else {
        Seq::empty()
    }) + ANSWER_FORMAT@
}

fn push_component_context(out: &mut String, component: &str, state: &ProjectState)
    requires
        state.wf(),
    ensures
        final(out)@ == old(out)@ + component_context(component@, *state),
{
    match state.components.get(component) {
        Some(comp) => {
            out.append("## Component: ");
            out.append(comp.name.as_str());
            out.append("\n");
            if !comp.description.as_str().is_empty() {
                out.append("Description: ");
                out.append(comp.description.as_str());
                out.append("\n");
            }
            if count_connects_to(state, component) > 0 {
                out.append("Connects to: ");
                push_connects_to_joined(out, state, component);
                out.append("\n");
            }
            out.append("\n");
        },
        None => {
            if str_eq(component, PROJECT) {
                out.append("## Project: ");
                out.append(state.project.project.name.as_str());
                out.append("\n\n");
            }
        },
    }
    assert(final(out)@ =~= old(out)@ + component_context(component@, *state));
}

/// Builds the system prompt from component context, existing decisions,
/// and mode.
pub fn build_system_prompt(component: &str, state: &ProjectState, revisit: bool) -> (p: String)
    requires
        state.wf(),
    ensures
        p@ == system_prompt(component@, *state, revisit),
{
    let mut p = String::new();
    p.append(SYSTEM_INTRO);
    push_component_context(&mut p, component, state);
    if count_decisions_for(&state.decisions.entries, component) > 0 {
        p.append(EXISTING_FOR_COMPONENT);
        push_decision_lines(&mut p, state, component, LineStyle::NameChoiceReasonLabelled);
        p.append("\n");
    }
    if !str_eq(component, PROJECT) && count_decisions_for(&state.decisions.entries, PROJECT) > 0 {
        p.append(PROJECT_WIDE_HEADER);
        push_decision_lines(&mut p, state, PROJECT, LineStyle::NameChoiceReasonLabelled);
        p.append("\n");
    }
    if revisit {
        p.append(REVISIT_MODE);
    }
    p.append(ANSWER_FORMAT);
    assert(p@ =~= system_prompt(component@, *state, revisit));
    p
}

} // verus!
