use chrono::Utc;
use trurl::decision::{decide, decide_at, remove_decision};
use trurl::digest::content_hash;
use trurl::error::Error;
use trurl::namemap::NameMap;
use trurl::schema::{
    Component, Decision, EdgeKind, GraphIndex, NodeEntry, NodeKind, Project, ProjectFile, ProjectState,
};

fn init() -> ProjectState {
    ProjectState::new(
        ProjectFile {
            trurl_version: "0.2.0".into(),
            project: Project { name: "demo".into(), description: String::new() },
        },
        NameMap::new(),
        NameMap::new(),
        NameMap::new(),
        GraphIndex { version: 1, rebuilt: 0, nodes: vec![], edges: vec![] },
    )
}

fn add_component(state: &mut ProjectState, name: &str) {
    state.components.insert(name.into(), Component { name: name.into(), description: String::new() });
    state.graph_index.nodes.push(NodeEntry {
        name: name.into(),
        kind: NodeKind::Component,
        tags: vec![],
        hash: String::new(),
    });
}

/// The hash of a decision as these tests store it: that of its choice.
fn hash_of(d: &Decision) -> Result<String, Error> {
    Ok(content_hash(d.choice.as_bytes()))
}

fn names(state: &ProjectState) -> Vec<String> {
    state.decisions.entries.iter().map(|e| e.name.clone()).collect()
}

#[test]
fn decide_records_component_decision() {
    let mut state = init();
    add_component(&mut state, "auth");

    decide(&mut state, "auth", "JWT with DPoP", "Stateless", None, &[], hash_of).unwrap();

    let dec = state.decisions.get("jwt-with-dpop").unwrap();
    assert_eq!(dec.component, "auth");
    assert_eq!(dec.choice, "JWT with DPoP");
}

#[test]
fn decide_records_project_wide() {
    let mut state = init();

    decide(&mut state, "project", "Fail-closed on writes", "Never silently succeed", None, &[], hash_of).unwrap();

    let names = names(&state);
    assert_eq!(names.len(), 1);
    let dec = state.decisions.get(&names[0]).unwrap();
    assert_eq!(dec.component, "project");
}

#[test]
fn decide_rejects_nonexistent_component() {
    let mut state = init();

    let err = decide(&mut state, "ghost", "x", "y", None, &[], hash_of).unwrap_err();
    match err {
        Error::Validation(msg) => assert!(msg.contains("ghost")),
        other => panic!("expected Validation, got: {}", other.message()),
    }
}

#[test]
fn decide_rejects_nonexistent_supersede_target() {
    let mut state = init();
    add_component(&mut state, "auth");

    let err = decide(&mut state, "auth", "x", "y", Some("ghost"), &[], hash_of).unwrap_err();
    match err {
        Error::Validation(msg) => assert!(msg.contains("ghost")),
        other => panic!("expected Validation, got: {}", other.message()),
    }
}

#[test]
fn decide_supersedes_creates_edge() {
    let mut state = init();
    add_component(&mut state, "auth");

    decide(&mut state, "auth", "Session cookies", "Simple", None, &[], hash_of).unwrap();
    decide(&mut state, "auth", "JWT tokens", "Stateless", Some("session-cookies"), &[], hash_of).unwrap();

    assert!(state.graph_index.edges.iter().any(|e| e.from == "jwt-tokens"
        && e.to == "session-cookies"
        && e.kind == EdgeKind::Supersedes));
}

#[test]
fn decide_creates_belongs_to_edge() {
    let mut state = init();
    add_component(&mut state, "auth");

    decide(&mut state, "auth", "Use JWT", "Stateless", None, &[], hash_of).unwrap();

    assert!(state
        .graph_index
        .edges
        .iter()
        .any(|e| e.from == "use-jwt" && e.to == "auth" && e.kind == EdgeKind::BelongsTo));
}

#[test]
fn decide_records_alternatives() {
    let mut state = init();
    add_component(&mut state, "auth");

    let alts: Vec<String> = vec![
        "Session cookies — rejected: requires server-side state".into(),
        "Opaque tokens — rejected: introspection overhead".into(),
    ];
    decide(&mut state, "auth", "JWT with DPoP", "Stateless", None, &alts, hash_of).unwrap();

    let dec = state.decisions.get("jwt-with-dpop").unwrap();
    assert_eq!(dec.alternatives.len(), 2);
}

#[test]
fn decide_deduplicates_filename() {
    let mut state = init();
    add_component(&mut state, "auth");

    decide(&mut state, "auth", "Use Redis", "Fast", None, &[], hash_of).unwrap();
    decide(&mut state, "auth", "Use Redis", "Also for sessions", None, &[], hash_of).unwrap();

    let names = names(&state);
    assert_eq!(names, vec!["use-redis", "use-redis-2"]);
}

#[test]
fn decide_sets_timestamp() {
    let mut state = init();
    add_component(&mut state, "auth");

    let before = Utc::now();
    decide(&mut state, "auth", "JWT", "Stateless", None, &[], hash_of).unwrap();
    let after = Utc::now();

    let dec = state.decisions.get("jwt").unwrap();
    assert!(dec.created >= before.timestamp_nanos_opt().unwrap() as i128);
    assert!(dec.created <= after.timestamp_nanos_opt().unwrap() as i128);
}

#[test]
fn decide_rejects_invalid_component_name() {
    let mut state = init();

    let err = decide(&mut state, "../escape", "x", "y", None, &[], hash_of).unwrap_err();
    assert!(matches!(err, Error::InvalidName(_)));
}

#[test]
fn decide_allows_project_component() {
    let mut state = init();

    decide(&mut state, "project", "Test decision", "Testing", None, &[], hash_of).unwrap();
}

#[test]
fn remove_decision_deletes_file() {
    let mut state = init();
    add_component(&mut state, "auth");
    decide(&mut state, "auth", "Use JWT", "Stateless", None, &[], hash_of).unwrap();

    remove_decision(&mut state, "use-jwt").unwrap();

    assert!(names(&state).is_empty());
}

#[test]
fn remove_decision_cleans_up_edges() {
    let mut state = init();
    add_component(&mut state, "auth");
    decide(&mut state, "auth", "Use JWT", "Stateless", None, &[], hash_of).unwrap();

    remove_decision(&mut state, "use-jwt").unwrap();

    assert!(!state.graph_index.edges.iter().any(|e| e.from == "use-jwt" || e.to == "use-jwt"));
}

#[test]
fn remove_decision_rejects_nonexistent() {
    let mut state = init();

    let err = remove_decision(&mut state, "ghost").unwrap_err();
    match err {
        Error::Validation(msg) => assert!(msg.contains("ghost")),
        other => panic!("expected Validation, got: {}", other.message()),
    }
}

#[test]
fn remove_decision_warns_on_broken_supersede_chain() {
    let mut state = init();
    add_component(&mut state, "auth");
    decide(&mut state, "auth", "Session cookies", "Simple", None, &[], hash_of).unwrap();
    decide(&mut state, "auth", "JWT tokens", "Stateless", Some("session-cookies"), &[], hash_of).unwrap();

    // Removing session-cookies succeeds and reports the broken chain.
    let dependents = remove_decision(&mut state, "session-cookies").unwrap();
    assert_eq!(dependents, vec!["jwt-tokens".to_string()]);

    // jwt-tokens still exists but its Supersedes edge is cleaned up.
    assert!(state.decisions.contains_key("jwt-tokens"));
    assert!(!state.graph_index.edges.iter().any(|e| e.to == "session-cookies"));
}

// ── Further scenarios ──────────────────────────────────────────────────────

#[test]
fn decide_at_records_given_time_and_node() {
    let mut state = init();
    add_component(&mut state, "auth");
    let stem = decide_at(&mut state, "auth", "Use JWT", "Stateless", None, &[], Some(42), hash_of).unwrap();
    assert_eq!(stem, "use-jwt");
    let dec = state.decisions.get("use-jwt").unwrap();
    assert_eq!(dec.created, 42);
    assert!(dec.tags.is_empty());
    let last = state.graph_index.nodes.last().unwrap();
    assert_eq!(last.name, "use-jwt");
    assert_eq!(last.kind, NodeKind::Decision);
}

#[test]
fn decide_numbers_third_duplicate() {
    let mut state = init();
    add_component(&mut state, "auth");
    for _ in 0..3 {
        decide(&mut state, "auth", "Use Redis!", "Fast", None, &[], hash_of).unwrap();
    }
    assert_eq!(names(&state), vec!["use-redis", "use-redis-2", "use-redis-3"]);
}

#[test]
fn decide_rejects_choice_without_name() {
    let mut state = init();
    add_component(&mut state, "auth");
    let err = decide(&mut state, "auth", "!!! ---", "Why", None, &[], hash_of).unwrap_err();
    assert!(matches!(err, Error::Validation(_)));
    assert!(names(&state).is_empty());
    assert!(state.graph_index.edges.is_empty());
}

#[test]
fn decide_checks_name_before_existence() {
    let mut state = init();
    let err = decide(&mut state, "Auth", "x", "y", Some("ghost"), &[], hash_of).unwrap_err();
    match err {
        Error::InvalidName(n) => assert_eq!(n, "Auth"),
        other => panic!("expected InvalidName, got: {}", other.message()),
    }
    let err = decide(&mut state, "auth", "x", "y", Some("ghost"), &[], hash_of).unwrap_err();
    match err {
        Error::Validation(m) => assert_eq!(m, "component `auth` does not exist"),
        other => panic!("expected Validation, got: {}", other.message()),
    }
}

#[test]
fn remove_decision_keeps_other_nodes_and_edges() {
    let mut state = init();
    add_component(&mut state, "auth");
    add_component(&mut state, "db");
    state.graph_index.edges.push(trurl::schema::EdgeEntry {
        from: "auth".into(),
        to: "db".into(),
        kind: EdgeKind::ConnectsTo,
    });
    decide(&mut state, "auth", "Use JWT", "Stateless", None, &[], hash_of).unwrap();
    decide(&mut state, "db", "Use Postgres", "SQL", None, &[], hash_of).unwrap();
    let deps = remove_decision(&mut state, "use-jwt").unwrap();
    assert!(deps.is_empty());
    assert_eq!(names(&state), vec!["use-postgres"]);
    assert_eq!(state.graph_index.nodes.len(), 3);
    assert_eq!(state.graph_index.edges.len(), 2);
}

#[test]
fn decide_stores_the_content_hash_on_the_node() {
    let mut state = init();
    add_component(&mut state, "auth");
    let stem = decide(&mut state, "auth", "Use JWT", "Stateless", None, &[], hash_of).unwrap();
    let node = state.graph_index.nodes.iter().find(|n| n.name == stem).unwrap();
    assert_eq!(node.hash, content_hash(b"Use JWT"));
}

#[test]
fn decide_reports_a_clock_before_the_epoch() {
    let mut state = init();
    add_component(&mut state, "auth");
    let err = decide_at(&mut state, "auth", "Use JWT", "Stateless", None, &[], None, hash_of).unwrap_err();
    assert!(matches!(err, Error::Io(ref m) if m == "system time before Unix epoch"));
    assert!(state.decisions.entries.is_empty());
    // Validation comes first, as it did before the clock was read.
    let err = decide_at(&mut state, "ghost", "x", "y", None, &[], None, hash_of).unwrap_err();
    assert!(matches!(err, Error::Validation(_)));
}

#[test]
fn decide_reports_a_hash_failure_and_keeps_the_state() {
    let mut state = init();
    add_component(&mut state, "auth");
    let failing = |_: &Decision| -> Result<String, Error> { Err(Error::TomlWrite("no".into())) };
    let err = decide_at(&mut state, "auth", "Use JWT", "Stateless", None, &[], Some(1), failing).unwrap_err();
    assert!(matches!(err, Error::TomlWrite(_)));
    assert!(state.decisions.entries.is_empty());
    assert_eq!(state.graph_index.nodes.len(), 1);
    assert!(state.graph_index.edges.is_empty());
}

#[test]
fn content_hash_is_sha256_hex() {
    assert_eq!(content_hash(b""), "e3b0c44298fc1c149afbf4c8996fb92427ae41e4649b934ca495991b7852b855");
    assert_eq!(content_hash(b"abc"), "ba7816bf8f01cfea414140de5dae2223b00361a396177a9cb410ff61f20015ad");
}

#[test]
fn remove_decision_repairs_an_inconsistent_state() {
    let mut state = init();
    add_component(&mut state, "auth");
    decide(&mut state, "auth", "Use JWT", "Stateless", None, &[], hash_of).unwrap();
    // A hand edit leaves an edge from a decision that no longer exists.
    state.graph_index.edges.push(trurl::schema::EdgeEntry {
        from: "old-choice".into(),
        to: "use-jwt".into(),
        kind: EdgeKind::Supersedes,
    });
    assert!(!state.check_integrity());
    // Removing `use-jwt` removes that edge too: the result is consistent.
    let deps = remove_decision(&mut state, "use-jwt").unwrap();
    assert_eq!(deps, vec!["old-choice".to_string()]);
    assert!(state.check_integrity());
}

#[test]
fn mutations_that_leave_issues_are_refused() {
    let mut state = init();
    add_component(&mut state, "auth");
    decide(&mut state, "auth", "Use JWT", "Stateless", None, &[], hash_of).unwrap();
    decide(&mut state, "auth", "Use Redis", "Fast", None, &[], hash_of).unwrap();
    state.graph_index.edges.push(trurl::schema::EdgeEntry {
        from: "use-redis".into(),
        to: "ghost".into(),
        kind: EdgeKind::Supersedes,
    });
    let msg = "the change would leave .trurl/ with consistency issues — run `trurl check`";
    match remove_decision(&mut state, "use-jwt").unwrap_err() {
        Error::Validation(m) => assert_eq!(m, msg),
        other => panic!("expected Validation, got: {}", other.message()),
    }
    let mut state = init();
    add_component(&mut state, "auth");
    state.graph_index.edges.push(trurl::schema::EdgeEntry {
        from: "auth".into(),
        to: "ghost".into(),
        kind: EdgeKind::ConnectsTo,
    });
    match decide(&mut state, "auth", "Use JWT", "Stateless", None, &[], hash_of).unwrap_err() {
        Error::Validation(m) => assert_eq!(m, msg),
        other => panic!("expected Validation, got: {}", other.message()),
    }
}
