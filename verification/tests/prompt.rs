use trurl::namemap::NameMap;
use trurl::prompt::build_system_prompt;
use trurl::schema::{
    Component, Decision, EdgeEntry, EdgeKind, GraphIndex, NodeEntry, NodeKind, Project,
    ProjectFile, ProjectState,
};

fn node(name: &str) -> NodeEntry {
    NodeEntry { name: name.into(), kind: NodeKind::Component, tags: vec![], hash: String::new() }
}

fn test_state() -> ProjectState {
    let mut components = NameMap::new();
    components.insert(
        "auth".into(),
        Component { name: "auth".into(), description: "Authentication service".into() },
    );

    let project = ProjectFile {
        trurl_version: "0.2.0".into(),
        project: Project { name: "test-project".into(), description: String::new() },
    };

    let graph_index = GraphIndex {
        version: 1,
        rebuilt: 1_748_779_200_000_000_000,
        nodes: vec![node("project"), node("auth"), node("database")],
        edges: vec![EdgeEntry { from: "auth".into(), to: "database".into(), kind: EdgeKind::ConnectsTo }],
    };

    ProjectState::new(project, components, NameMap::new(), NameMap::new(), graph_index)
}

#[test]
fn includes_component_context() {
    let state = test_state();
    let prompt = build_system_prompt("auth", &state, false);
    assert!(prompt.contains("auth"));
    assert!(prompt.contains("database"));
    assert!(prompt.contains("Authentication service"));
}

#[test]
fn includes_instructions() {
    let state = test_state();
    let prompt = build_system_prompt("auth", &state, false);
    assert!(prompt.contains("DESIGN_COMPLETE"));
    assert!(prompt.contains("\"choice\""));
    assert!(prompt.contains("\"alternatives\""));
}

#[test]
fn revisit_mode() {
    let state = test_state();
    let prompt = build_system_prompt("auth", &state, true);
    assert!(prompt.contains("Revisit"));
    assert!(prompt.contains("Challenge"));
}

#[test]
fn project_wide() {
    let state = test_state();
    let prompt = build_system_prompt("project", &state, false);
    assert!(prompt.contains("test-project"));
}

// ── Further scenarios ──────────────────────────────────────────────────────

fn decision(component: &str, choice: &str, reason: &str) -> Decision {
    Decision {
        component: component.into(),
        choice: choice.into(),
        reason: reason.into(),
        alternatives: vec![],
        tags: vec![],
        created: 0,
    }
}

#[test]
fn system_prompt_component_section_exact() {
    let state = test_state();
    let prompt = build_system_prompt("auth", &state, false);
    assert!(prompt.starts_with(
        "You are Trurl, a meticulous architectural design assistant. You conduct focused Socratic design conversations, one question at a time.\n\n## Component: auth\nDescription: Authentication service\nConnects to: database\n\n## Instructions\n\n"
    ));
    assert!(!prompt.contains("## Mode: Revisit"));
}

#[test]
fn system_prompt_lists_component_and_project_decisions() {
    let mut state = test_state();
    state.decisions.insert("use-jwt".into(), decision("auth", "Use JWT", "Stateless"));
    state.decisions.insert("errors".into(), decision("project", "Typed errors", "Consistency"));
    let prompt = build_system_prompt("auth", &state, false);
    assert!(prompt.contains(
        "## Existing decisions for this component\n- use-jwt: Use JWT (reason: Stateless)\n\n## Project-wide decisions (apply everywhere)\n- errors: Typed errors (reason: Consistency)\n\n"
    ));
    let project_prompt = build_system_prompt("project", &state, false);
    assert!(project_prompt.contains("## Project: test-project\n\n"));
    assert!(project_prompt.contains("## Existing decisions for this component\n- errors: Typed errors (reason: Consistency)\n\n"));
    assert!(!project_prompt.contains("Project-wide decisions"));
}

#[test]
fn system_prompt_unknown_component_has_no_context() {
    let state = test_state();
    let prompt = build_system_prompt("ghost", &state, false);
    assert!(!prompt.contains("## Component"));
    assert!(!prompt.contains("## Project"));
}

#[test]
fn system_prompt_joins_connections_with_commas() {
    let mut state = test_state();
    state.graph_index.edges.push(EdgeEntry { from: "auth".into(), to: "cache".into(), kind: EdgeKind::ConnectsTo });
    state.graph_index.edges.push(EdgeEntry { from: "x".into(), to: "auth".into(), kind: EdgeKind::ConnectsTo });
    let prompt = build_system_prompt("auth", &state, false);
    assert!(prompt.contains("Connects to: database, cache\n"));
}
