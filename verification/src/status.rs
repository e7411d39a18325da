//! The status lines printed by the servers when they start or reload.
use vstd::prelude::*;
use crate::schema::ProjectState;
use crate::text::{decimal, push_decimal};

verus! {

pub open spec fn issues_warning_text(n: nat) -> Seq<char> {
    "warning: .trurl/ has "@ + decimal(n) + " consistency issue(s) — run `trurl check`"@
}

/// The warning for consistency issues found at start-up; none when there
/// are no issues.
pub fn issues_warning(n: usize) -> (r: Option<String>)
    ensures
        r is Some <==> n > 0,
        r matches Some(s) ==> n > 0 && s@ == issues_warning_text(n as nat),
{
    if n == 0 {
        return None;
    }
    let mut s = String::new();
    s.append("warning: .trurl/ has ");
    push_decimal(&mut s, n as u128);
    s.append(" consistency issue(s) — run `trurl check`");
    Some(s)
}

pub open spec fn map_banner_text(st: ProjectState) -> Seq<char> {
    "trurl: map for "@ + st.project.project.name@ + " ("@ + decimal(st.components.entries@.len()) + " components, "@
        + decimal(st.decisions.entries@.len()) + " decisions, "@ + decimal(st.patterns.entries@.len())
        + " patterns)"@
}

/// The start-up line of the map server.
pub fn map_banner(state: &ProjectState) -> (s: String)
    ensures
        s@ == map_banner_text(*state),
{
    let mut s = String::new();
    s.append("trurl: map for ");
    s.append(state.project.project.name.as_str());
    s.append(" (");
    push_decimal(&mut s, state.components.len() as u128);
    s.append(" components, ");
    push_decimal(&mut s, state.decisions.len() as u128);
    s.append(" decisions, ");
    push_decimal(&mut s, state.patterns.len() as u128);
    s.append(" patterns)");
    assert(s@ =~= map_banner_text(*state));
    s
}

pub open spec fn serve_banner_text(st: ProjectState) -> Seq<char> {
    "trurl: serving "@ + st.project.project.name@ + " ("@ + decimal(st.components.entries@.len()) + " components, "@
        + decimal(st.decisions.entries@.len()) + " decisions)"@
}

/// The start-up line of the MCP server.
pub fn serve_banner(state: &ProjectState) -> (s: String)
    ensures
        s@ == serve_banner_text(*state),
{
    let mut s = String::new();
    s.append("trurl: serving ");
    s.append(state.project.project.name.as_str());
    s.append(" (");
    push_decimal(&mut s, state.components.len() as u128);
    s.append(" components, ");
    push_decimal(&mut s, state.decisions.len() as u128);
    s.append(" decisions)");
    assert(s@ =~= serve_banner_text(*state));
    s
}

pub open spec fn reload_notice_text(n: nat) -> Seq<char> {
    "trurl: reloaded state ("@ + decimal(n) + " consistency issue(s))"@
}

/// The line logged after a live reload that found errors; none otherwise.
pub fn reload_notice(errors: usize) -> (r: Option<String>)
    ensures
        r is Some <==> errors > 0,
        r matches Some(s) ==> errors > 0 && s@ == reload_notice_text(errors as nat),
{
    if errors == 0 {
        return None;
    }
    let mut s = String::new();
    s.append("trurl: reloaded state (");
    push_decimal(&mut s, errors as u128);
    s.append(" consistency issue(s))");
    Some(s)
}

} // verus!
