use trurl::concerns::{concern_status, decision_covers, ConcernArea};
use trurl::decision::{decide_at, remove_decision};
use trurl::digest::content_hash;
use trurl::error::Error;
use trurl::namemap::NameMap;
use trurl::naming::{is_valid_kebab_case, slugify, unique_decision_stem};
use trurl::prompts::DesignMode;
use trurl::schema::{
    Component, Decision, GraphIndex, NodeEntry, NodeKind, Project, ProjectFile, ProjectState,
};
use trurl::status::{issues_warning, map_banner, reload_notice, serve_banner};
use trurl::ws::{socket_step, SocketAction, SocketEvent, FULL_RELOAD};

fn decision(component: &str, choice: &str, reason: &str, tags: &[&str]) -> Decision {
    Decision {
        component: component.into(),
        choice: choice.into(),
        reason: reason.into(),
        alternatives: vec![],
        tags: tags.iter().map(|t| t.to_string()).collect(),
        created: 0,
    }
}

fn base_state() -> ProjectState {
    let mut components = NameMap::new();
    components.insert("auth".into(), Component { name: "auth".into(), description: String::new() });
    ProjectState::new(
        ProjectFile {
            trurl_version: "0.2.0".into(),
            project: Project { name: "demo".into(), description: String::new() },
        },
        components,
        NameMap::new(),
        NameMap::new(),
        GraphIndex {
            version: 1,
            rebuilt: 0,
            nodes: vec![NodeEntry {
                name: "auth".into(),
                kind: NodeKind::Component,
                tags: vec![],
                hash: String::new(),
            }],
            edges: vec![],
        },
    )
}


fn hash_of(d: &Decision) -> Result<String, Error> {
    Ok(content_hash(d.choice.as_bytes()))
}

#[test]
fn every_mode_parses_from_its_name() {
    for (name, mode) in [
        ("full", DesignMode::Full),
        ("quick", DesignMode::Quick),
        ("learn", DesignMode::Learn),
        ("review", DesignMode::Review),
    ] {
        assert_eq!(DesignMode::parse(name).unwrap(), mode);
    }
}

#[test]
fn slugs_are_kebab_case() {
    for text in ["JWT with DPoP", "  Fail-closed on writes!! ", "Use Redis", "a__b--c", "X"] {
        let s = slugify(text);
        assert!(is_valid_kebab_case(&s), "{s}");
    }
    assert_eq!(slugify("JWT with DPoP"), "jwt-with-dpop");
    assert_eq!(slugify("  Fail-closed on writes!! "), "fail-closed-on-writes");
    assert_eq!(slugify("Session cookies — rejected"), "session-cookies-rejected");
    assert_eq!(slugify("!!!"), "");
}

#[test]
fn kebab_case_rules() {
    assert!(is_valid_kebab_case("rate-limiter"));
    assert!(is_valid_kebab_case("auth2"));
    assert!(!is_valid_kebab_case(""));
    assert!(!is_valid_kebab_case("-auth"));
    assert!(!is_valid_kebab_case("auth-"));
    assert!(!is_valid_kebab_case("rate--limiter"));
    assert!(!is_valid_kebab_case("Auth"));
    assert!(!is_valid_kebab_case("../escape"));
}

#[test]
fn unique_stem_is_first_free_candidate() {
    let mut m: NameMap<u8> = NameMap::new();
    assert_eq!(unique_decision_stem(&m, "x").ok(), Some("x".to_string()));
    m.insert("x".into(), 0);
    m.insert("x-2".into(), 0);
    m.insert("x-4".into(), 0);
    assert_eq!(unique_decision_stem(&m, "x").ok(), Some("x-3".to_string()));
    assert!(matches!(unique_decision_stem(&m, ""), Err(Error::Validation(_))));
}

#[test]
fn remove_undoes_decide() {
    let mut state = base_state();
    decide_at(&mut state, "project", "Typed errors", "One enum", None, &[], Some(1), hash_of).unwrap();
    let before_names: Vec<String> = state.decisions.entries.iter().map(|e| e.name.clone()).collect();
    let before_nodes = state.graph_index.nodes.len();
    let before_edges: Vec<(String, String)> =
        state.graph_index.edges.iter().map(|e| (e.from.clone(), e.to.clone())).collect();

    let stem = decide_at(&mut state, "auth", "Use JWT", "Stateless", Some("typed-errors"), &[], Some(2), hash_of).unwrap();
    remove_decision(&mut state, &stem).unwrap();

    let after_names: Vec<String> = state.decisions.entries.iter().map(|e| e.name.clone()).collect();
    let after_edges: Vec<(String, String)> =
        state.graph_index.edges.iter().map(|e| (e.from.clone(), e.to.clone())).collect();
    assert_eq!(after_names, before_names);
    assert_eq!(state.graph_index.nodes.len(), before_nodes);
    assert_eq!(after_edges, before_edges);
}

#[test]
fn name_map_keeps_byte_order() {
    let mut m: NameMap<u8> = NameMap::new();
    for n in ["zeta", "alpha", "beta", "Beta", "alpha"] {
        m.insert(n.into(), 1);
    }
    let names: Vec<&str> = m.entries.iter().map(|e| e.name.as_str()).collect();
    assert_eq!(names, vec!["Beta", "alpha", "beta", "zeta"]);
    assert_eq!(m.remove("beta"), Some(1));
    assert_eq!(m.remove("beta"), None);
    assert_eq!(m.len(), 3);
}

#[test]
fn concern_coverage_by_tag_and_keyword() {
    let by_tag = decision("auth", "Single writer", "Simple", &["Concurrency", "file-locking"]);
    assert!(decision_covers(ConcernArea::Concurrency, &by_tag));
    assert!(!decision_covers(ConcernArea::Storage, &by_tag));
    let by_word = decision("auth", "Store in Redis", "Fast", &[]);
    assert!(decision_covers(ConcernArea::Storage, &by_word));
    assert!(!decision_covers(ConcernArea::Security, &by_word));
}

#[test]
fn concern_status_lists_every_area() {
    let mut state = base_state();
    state.decisions.insert("jwt".into(), decision("auth", "JWT", "Stateless", &[]));
    state.decisions.insert("other".into(), decision("billing", "Use SQL", "Reports", &[]));
    let text = concern_status(&state.decisions, "auth");
    assert!(text.starts_with("CONCERN STATUS"));
    assert_eq!(text.matches("- [").count(), 9);
    assert!(text.contains("- [COVERED] Security boundaries\n"));
    assert!(text.contains("- [UNCOVERED] Storage\n"));
    assert!(text.ends_with("- [UNCOVERED] Dependencies\n\n"));
}

#[test]
fn status_lines() {
    let state = base_state();
    assert_eq!(issues_warning(0), None);
    assert_eq!(
        issues_warning(3).unwrap(),
        "warning: .trurl/ has 3 consistency issue(s) — run `trurl check`"
    );
    assert_eq!(map_banner(&state), "trurl: map for demo (1 components, 0 decisions, 0 patterns)");
    assert_eq!(serve_banner(&state), "trurl: serving demo (1 components, 0 decisions)");
    assert_eq!(reload_notice(0), None);
    assert_eq!(reload_notice(12).unwrap(), "trurl: reloaded state (12 consistency issue(s))");
}

#[test]
fn error_messages() {
    assert_eq!(Error::Io("disk full".into()).message(), "I/O error: disk full");
    assert_eq!(Error::TomlRead("bad".into()).message(), "invalid TOML: bad");
    assert_eq!(Error::TomlWrite("bad".into()).message(), "TOML serialization error: bad");
    assert_eq!(Error::Validation("nope".into()).message(), "nope");
    assert_eq!(Error::NotImplemented("later".into()).message(), "later");
    assert_eq!(
        Error::InvalidName("../escape".into()).message(),
        "invalid name `../escape` (expected kebab-case)"
    );
}

#[test]
fn socket_reactions() {
    match socket_step(SocketEvent::Broadcast("{\"type\":\"x\"}".into())) {
        SocketAction::Send(t) => assert_eq!(t, "{\"type\":\"x\"}"),
        _ => panic!("expected a frame"),
    }
    match socket_step(SocketEvent::Lagged(7)) {
        SocketAction::Send(t) => assert_eq!(t, FULL_RELOAD),
        _ => panic!("expected full_reload"),
    }
    assert!(matches!(socket_step(SocketEvent::ChannelClosed), SocketAction::Stop));
    assert!(matches!(socket_step(SocketEvent::ClientGone), SocketAction::Stop));
    assert!(matches!(socket_step(SocketEvent::ClientMessage), SocketAction::Ignore));
    assert_eq!(FULL_RELOAD, "{\"type\":\"full_reload\"}");
}

#[test]
fn integrity_check_matches_references() {
    let mut state = base_state();
    assert!(state.check_integrity());
    decide_at(&mut state, "auth", "Use JWT", "Stateless", None, &[], Some(5), hash_of).unwrap();
    assert!(state.check_integrity());
    state.decisions.insert("orphan".into(), decision("billing", "Use SQL", "Reports", &[]));
    assert!(!state.check_integrity());
    let mut m: NameMap<u8> = NameMap::new();
    m.insert("b".into(), 1);
    m.insert("a".into(), 1);
    assert!(m.is_well_formed());
    m.entries.swap(0, 1);
    assert!(!m.is_well_formed());
}

#[test]
fn integrity_issues_are_counted() {
    let mut state = base_state();
    assert_eq!(state.integrity_issues(), 0);
    decide_at(&mut state, "auth", "Use JWT", "Stateless", None, &[], Some(5), hash_of).unwrap();
    assert_eq!(state.integrity_issues(), 0);
    state.decisions.insert("orphan".into(), decision("billing", "Use SQL", "Reports", &[]));
    assert_eq!(state.integrity_issues(), 1);
    state.graph_index.edges.push(trurl::schema::EdgeEntry {
        from: "ghost".into(),
        to: "auth".into(),
        kind: trurl::schema::EdgeKind::BelongsTo,
    });
    assert_eq!(state.integrity_issues(), 2);
    assert!(!state.check_integrity());
}
