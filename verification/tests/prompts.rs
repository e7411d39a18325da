use trurl::clock::{format_utc_date, nanos_from_parts, split_nanos};
use chrono::{TimeZone, Utc};
use trurl::namemap::{NameMap, Named};
use trurl::prompts::{build_design_prompt, DesignPrompt, review_item_text, review_order, DesignMode};
use trurl::schema::{
    Component, Decision, EdgeEntry, EdgeKind, GraphIndex, NodeEntry, NodeKind, Pattern, Project,
    ProjectFile, ProjectState,
};

fn nanos(y: i32, mo: u32, d: u32, h: u32, mi: u32, s: u32) -> i128 {
    Utc.with_ymd_and_hms(y, mo, d, h, mi, s).unwrap().timestamp_nanos_opt().unwrap() as i128
}

fn node(name: &str, kind: NodeKind) -> NodeEntry {
    NodeEntry { name: name.into(), kind, tags: vec![], hash: String::new() }
}

fn edge(from: &str, to: &str, kind: EdgeKind) -> EdgeEntry {
    EdgeEntry { from: from.into(), to: to.into(), kind }
}

fn test_state() -> ProjectState {
    let mut components = NameMap::new();
    components.insert(
        "auth".into(),
        Component { name: "auth".into(), description: "Authentication".into() },
    );
    components.insert(
        "database".into(),
        Component { name: "database".into(), description: "Database layer".into() },
    );

    let ts = nanos(2025, 1, 15, 10, 0, 0);
    let mut decisions = NameMap::new();
    decisions.insert(
        "use-jwt".into(),
        Decision {
            component: "auth".into(),
            choice: "JWT with DPoP binding".into(),
            reason: "Stateless, no session store".into(),
            alternatives: vec!["Session cookies — rejected: server state".into()],
            tags: vec![],
            created: ts,
        },
    );
    decisions.insert(
        "error-strategy".into(),
        Decision {
            component: "project".into(),
            choice: "Result<T, AppError>".into(),
            reason: "Consistent errors".into(),
            alternatives: vec![],
            tags: vec![],
            created: nanos(2025, 1, 10, 8, 0, 0),
        },
    );

    let graph_index = GraphIndex {
        version: 1,
        rebuilt: ts,
        nodes: vec![
            node("project", NodeKind::Component),
            node("auth", NodeKind::Component),
            node("database", NodeKind::Component),
            node("use-jwt", NodeKind::Decision),
            node("error-strategy", NodeKind::Decision),
        ],
        edges: vec![
            edge("auth", "database", EdgeKind::ConnectsTo),
            edge("use-jwt", "auth", EdgeKind::BelongsTo),
            edge("error-strategy", "project", EdgeKind::BelongsTo),
        ],
    };

    ProjectState::new(
        ProjectFile {
            trurl_version: "0.2.0".into(),
            project: Project { name: "test-project".into(), description: String::new() },
        },
        components,
        decisions,
        NameMap::new(),
        graph_index,
    )
}

#[test]
fn design_mode_parse() {
    assert_eq!(DesignMode::parse("full").unwrap(), DesignMode::Full);
    assert_eq!(DesignMode::parse("quick").unwrap(), DesignMode::Quick);
    assert_eq!(DesignMode::parse("learn").unwrap(), DesignMode::Learn);
    assert_eq!(DesignMode::parse("review").unwrap(), DesignMode::Review);
    assert!(DesignMode::parse("bogus").is_err());
}

#[test]
fn full_mode_has_all_phases() {
    let state = test_state();
    let result =
        build_design_prompt(&state, "auth", Some("add rate limiting"), DesignMode::Full).unwrap();
    let instructions = result.system_instructions.as_str();

    assert!(instructions.contains("PHASE 1"));
    assert!(instructions.contains("PHASE 2"));
    assert!(instructions.contains("PHASE 3"));
    assert!(instructions.contains("PHASE 4"));
    assert!(instructions.contains("EXISTING CONSTRAINTS"));
    assert!(instructions.contains("Result<T, AppError>"));
    assert!(instructions.contains("JWT with DPoP"));
    assert!(instructions.contains("auth → database"));
    assert!(instructions.contains("rate limiting"));
    assert_eq!(result.token_budget, "thorough");
}

#[test]
fn full_mode_has_concern_checklist() {
    let state = test_state();
    let result = build_design_prompt(&state, "auth", None, DesignMode::Full).unwrap();
    let instructions = result.system_instructions.as_str();

    assert!(
        instructions.contains("COVERED") || instructions.contains("UNCOVERED"),
        "should have dynamic concern status"
    );
    assert!(instructions.contains("COMPREHENSION GATE"));
    assert!(instructions.contains("I DON'T KNOW"));
    assert!(instructions.contains("PATTERN DETECTION"));
    assert!(instructions.contains("COVERAGE CHECK"));
}

#[test]
fn full_mode_concern_status_reflects_existing_decisions() {
    let state = test_state();
    let result = build_design_prompt(&state, "auth", None, DesignMode::Full).unwrap();
    let instructions = result.system_instructions.as_str();

    assert!(
        instructions.contains("COVERED"),
        "should show covered concerns: {instructions}"
    );
    assert!(
        instructions.contains("UNCOVERED"),
        "should show uncovered concerns for remaining areas: {instructions}"
    );
}

#[test]
fn full_mode_empty_component_all_uncovered() {
    let state = test_state();
    let result = build_design_prompt(&state, "database", None, DesignMode::Full).unwrap();
    let instructions = result.system_instructions.as_str();
    assert!(
        instructions.contains("UNCOVERED"),
        "mostly-empty component should have many uncovered concerns"
    );
}

#[test]
fn full_mode_has_decision_count_and_user_gate() {
    let state = test_state();
    let result = build_design_prompt(&state, "auth", None, DesignMode::Full).unwrap();
    let instructions = result.system_instructions.as_str();

    assert!(
        instructions.contains("CURRENT STATE:"),
        "should include decision count context"
    );
    assert!(
        instructions.contains("decisions recorded"),
        "should show how many decisions exist"
    );
    assert!(
        instructions.contains("The USER must articulate"),
        "comprehension gate must require user to explain, not agent"
    );
    assert!(
        instructions.contains("Tags are REQUIRED"),
        "tags instruction must be mandatory"
    );
}

#[test]
fn full_mode_mandates_source_reading() {
    let state = test_state();
    let result = build_design_prompt(&state, "auth", None, DesignMode::Full).unwrap();
    let instructions = result.system_instructions.as_str();
    assert!(
        instructions.contains("READ THE SOURCE CODE"),
        "full mode must mandate reading source code before asking questions"
    );
}

#[test]
fn full_mode_explains_shallow_answers() {
    let state = test_state();
    let result = build_design_prompt(&state, "auth", None, DesignMode::Full).unwrap();
    let instructions = result.system_instructions.as_str();
    assert!(
        instructions.contains("CORRECT BUT SHALLOW"),
        "comprehension gate must handle correct-but-shallow answers"
    );
    assert!(
        instructions.contains("senior engineer"),
        "agent must explain deeply like a senior engineer"
    );
}

#[test]
fn full_mode_teaches_on_i_dont_know() {
    let state = test_state();
    let result = build_design_prompt(&state, "auth", None, DesignMode::Full).unwrap();
    let instructions = result.system_instructions.as_str();
    assert!(instructions.contains("I DON'T KNOW"), "must have I DON'T KNOW protocol");
    assert!(
        instructions.contains("teaching moment"),
        "I DON'T KNOW should be a teaching moment, not a block"
    );
}

#[test]
fn project_scope_has_boundary_guidance() {
    let state = test_state();
    let result = build_design_prompt(&state, "project", None, DesignMode::Full).unwrap();
    let instructions = result.system_instructions.as_str();
    assert!(
        instructions.contains("cross-cutting"),
        "project scope must explain what belongs at project level"
    );
}

#[test]
fn component_scope_has_boundary_guidance() {
    let state = test_state();
    let result = build_design_prompt(&state, "auth", None, DesignMode::Full).unwrap();
    let instructions = result.system_instructions.as_str();
    assert!(instructions.contains("SCOPE"), "component scope must have boundary guidance");
}

#[test]
fn full_mode_no_hardcoded_decision_count() {
    let state = test_state();
    let result = build_design_prompt(&state, "auth", None, DesignMode::Full).unwrap();
    let instructions = result.system_instructions.as_str();
    assert!(
        !instructions.contains("10-20") && !instructions.contains("3-8"),
        "must not have hardcoded decision count guidance"
    );
    assert!(
        instructions.contains("NOT predetermined"),
        "should say decision count depends on complexity"
    );
}

#[test]
fn quick_mode_compact() {
    let state = test_state();
    let result = build_design_prompt(&state, "auth", None, DesignMode::Quick).unwrap();
    let instructions = result.system_instructions.as_str();

    assert!(instructions.contains("quick"));
    assert!(instructions.contains("ACTIVE CONSTRAINTS"));
    assert!(instructions.contains("JWT with DPoP"));
    assert!(instructions.contains("CONFIRM EXISTING"));
    assert!(instructions.contains("CHECK FOR NEW"));
    assert!(!instructions.contains("PHASE 1"));
    assert_eq!(result.token_budget, "compact");
}

#[test]
fn quick_mode_includes_project_rules() {
    let state = test_state();
    let result = build_design_prompt(&state, "auth", None, DesignMode::Quick).unwrap();
    let instructions = result.system_instructions.as_str();

    assert!(
        instructions.contains("[project]"),
        "quick mode should show project rules for confirmation"
    );
    assert!(instructions.contains("Result<T, AppError>"));
}

#[test]
fn learn_mode_mandates_source_reading() {
    let state = test_state();
    let result = build_design_prompt(&state, "auth", None, DesignMode::Learn).unwrap();
    let instructions = result.system_instructions.as_str();

    assert!(instructions.contains("learn session"));
    assert!(
        instructions.contains("READ THE SOURCE CODE"),
        "learn mode must mandate reading source code, not README"
    );
    assert!(
        instructions.contains("ANALYZE THE CODE"),
        "learn mode must drive code analysis before asking questions"
    );
    assert!(instructions.contains("JWT with DPoP"));
    assert_eq!(result.token_budget, "standard");
}

#[test]
fn review_mode_oldest_first() {
    let state = test_state();
    let result = build_design_prompt(&state, "auth", None, DesignMode::Review).unwrap();
    let instructions = result.system_instructions.as_str();

    assert!(instructions.contains("review"));
    assert!(instructions.contains("still hold"));
    assert!(instructions.contains("validate_consistency"));
    assert!(
        instructions.contains("must articulate") || instructions.contains("not sufficient"),
        "review mode must require the user to articulate, not just confirm"
    );
    assert_eq!(result.token_budget, "standard");
}

#[test]
fn rejects_nonexistent_component() {
    let state = test_state();
    let err = build_design_prompt(&state, "ghost", None, DesignMode::Full).err().unwrap();
    assert!(err.contains("ghost"));
}

#[test]
fn learn_mode_empty_component_still_analyzes_code() {
    let state = test_state();
    let result = build_design_prompt(&state, "database", None, DesignMode::Learn).unwrap();
    let instructions = result.system_instructions.as_str();
    assert!(
        instructions.contains("READ THE SOURCE CODE"),
        "empty learn mode must still read source code"
    );
    assert!(
        instructions.contains("ANALYZE THE CODE"),
        "empty learn mode should drive code analysis to find implicit decisions"
    );
}

#[test]
fn learn_mode_has_completeness_check() {
    let state = test_state();
    let result = build_design_prompt(&state, "auth", None, DesignMode::Learn).unwrap();
    let instructions = result.system_instructions.as_str();
    assert!(
        instructions.contains("COMPLETENESS CHECK"),
        "learn mode should verify all decisions are captured before ending"
    );
}

#[test]
fn learn_mode_explains_when_user_doesnt_know() {
    let state = test_state();
    let result = build_design_prompt(&state, "auth", None, DesignMode::Learn).unwrap();
    let instructions = result.system_instructions.as_str();
    assert!(
        instructions.contains("senior engineer"),
        "learn mode should instruct agent to teach like a senior engineer"
    );
}

// ── Further scenarios ──────────────────────────────────────────────────────

#[test]
fn design_mode_parse_error_message() {
    let err = DesignMode::parse("bogus").err().unwrap();
    assert_eq!(err, "invalid mode `bogus` — expected: full, quick, learn, review");
    assert!(DesignMode::parse("Full").is_err());
    assert!(DesignMode::parse("").is_err());
}

#[test]
fn token_budgets_per_mode() {
    assert_eq!(DesignMode::Full.token_budget(), "thorough");
    assert_eq!(DesignMode::Quick.token_budget(), "compact");
    assert_eq!(DesignMode::Learn.token_budget(), "standard");
    assert_eq!(DesignMode::Review.token_budget(), "standard");
}

#[test]
fn full_mode_exact_sections_for_auth() {
    let state = test_state();
    let result = build_design_prompt(&state, "auth", None, DesignMode::Full).unwrap();
    let s = result.system_instructions;
    assert!(s.starts_with("You are running a Trurl design session for component [auth].\n\n"));
    assert!(s.contains(
        "EXISTING CONSTRAINTS (do not re-discuss):\n- Result<T, AppError> (project rule)\n- JWT with DPoP binding (Stateless, no session store)\n\n"
    ));
    assert!(s.contains("COMPONENT GRAPH:\n- auth → database\n\n"));
    assert!(s.contains("CURRENT STATE: 1 decisions recorded.\n"));
    assert!(s.contains("- [COVERED] Error handling\n"));
    assert!(s.contains("- [COVERED] Security boundaries\n"));
    assert!(s.contains("- [UNCOVERED] Storage\n"));
    assert!(s.contains("- [UNCOVERED] Concurrency\n"));
    assert!(!s.contains("TASK CONTEXT"));
}

#[test]
fn full_mode_database_graph_is_incoming() {
    let state = test_state();
    let result = build_design_prompt(&state, "database", None, DesignMode::Full).unwrap();
    let s = result.system_instructions;
    assert!(s.contains("COMPONENT GRAPH:\n- auth → database\n\n"));
    assert!(s.contains("CURRENT STATE: 0 decisions recorded.\n"));
    assert!(s.contains("- [COVERED] Error handling\n"));
    assert!(s.contains("- [UNCOVERED] Security boundaries\n"));
}

#[test]
fn quick_mode_lists_named_constraints() {
    let state = test_state();
    let result =
        build_design_prompt(&state, "auth", Some("add rate limiting"), DesignMode::Quick).unwrap();
    let s = result.system_instructions;
    assert!(s.contains(
        "ACTIVE CONSTRAINTS (the user must confirm each applies):\n- [project] error-strategy: Result<T, AppError> (Consistent errors)\n- use-jwt: JWT with DPoP binding (Stateless, no session store)\n\n"
    ));
    assert!(s.contains("TASK: add rate limiting\n\n"));
}

#[test]
fn learn_mode_lists_existing_patterns() {
    let mut state = test_state();
    state.patterns.insert(
        "stateless-auth".into(),
        Pattern { description: "Stateless authentication".into(), decisions: vec!["use-jwt".into()] },
    );
    let result = build_design_prompt(&state, "auth", None, DesignMode::Learn).unwrap();
    let s = result.system_instructions;
    assert!(s.contains("EXISTING PATTERNS:\n- stateless-auth: Stateless authentication\n\n"));
    assert!(s.contains("  use-jwt: JWT with DPoP binding — ask: \"Is this still accurate?\"\n"));
    let db = build_design_prompt(&state, "database", None, DesignMode::Learn).unwrap();
    assert!(!db.system_instructions.contains("EXISTING PATTERNS"));
}

#[test]
fn review_lists_decisions_oldest_first_with_dates() {
    let mut state = test_state();
    state.decisions.insert(
        "use-rate-limit".into(),
        Decision {
            component: "auth".into(),
            choice: "Token bucket".into(),
            reason: "Bursty clients".into(),
            alternatives: vec![],
            tags: vec![],
            created: nanos(2024, 12, 1, 9, 0, 0),
        },
    );
    state.decisions.insert(
        "a-first-name".into(),
        Decision {
            component: "auth".into(),
            choice: "Same day".into(),
            reason: "Tie".into(),
            alternatives: vec![],
            tags: vec![],
            created: nanos(2025, 1, 15, 10, 0, 0),
        },
    );
    let result = build_design_prompt(&state, "auth", None, DesignMode::Review).unwrap();
    let s = result.system_instructions;
    let a = s.find("DECISION: use-rate-limit (created 2024-12-01)").unwrap();
    let b = s.find("DECISION: a-first-name (created 2025-01-15)").unwrap();
    let c = s.find("DECISION: use-jwt (created 2025-01-15)").unwrap();
    assert!(a < b && b < c);
    assert!(s.contains("  Token bucket: Bursty clients\n"));
    let ord = review_order(&state, "auth");
    assert_eq!(ord.len(), 3);
}

#[test]
fn review_mode_with_no_decisions() {
    let state = test_state();
    let result = build_design_prompt(&state, "database", None, DesignMode::Review).unwrap();
    assert!(result.system_instructions.contains("No decisions to review for this component.\n"));
    assert!(!result.system_instructions.contains("validate_consistency"));
}

#[test]
fn review_item_shows_the_creation_day_or_unknown() {
    let e = Named {
        name: "use-jwt".to_string(),
        value: Decision {
            component: "auth".into(),
            choice: "JWT".into(),
            reason: "Stateless".into(),
            alternatives: vec![],
            tags: vec![],
            created: 0,
        },
    };
    let dated = review_item_text(&e, &Some("2025-01-15".to_string()));
    assert!(dated.starts_with("DECISION: use-jwt (created 2025-01-15)\n  JWT: Stateless\n"));
    let undated = review_item_text(&e, &None);
    assert!(undated.starts_with("DECISION: use-jwt (created unknown)\n  JWT: Stateless\n"));
    assert_eq!(&dated["DECISION: use-jwt (created 2025-01-15)".len()..], &undated["DECISION: use-jwt (created unknown)".len()..]);
}

#[test]
fn no_workflow_hints_in_response() {
    let state = test_state();
    for mode in [DesignMode::Full, DesignMode::Quick, DesignMode::Learn, DesignMode::Review] {
        let result = build_design_prompt(&state, "auth", None, mode).unwrap();
        // The prompt carries exactly its instructions and token budget: the
        // pattern names every member, so a `workflow` member cannot exist.
        let DesignPrompt { system_instructions, token_budget } = result;
        assert!(!system_instructions.is_empty());
        assert_eq!(token_budget, mode.token_budget());
    }
}

#[test]
fn review_orders_by_nanosecond_creation_time() {
    let mut state = test_state();
    let t = nanos(2025, 2, 1, 12, 0, 0);
    for (name, offset) in [("a-later", 700i128), ("z-earlier", 300i128)] {
        state.decisions.insert(
            name.into(),
            Decision {
                component: "database".into(),
                choice: name.into(),
                reason: "Within one microsecond".into(),
                alternatives: vec![],
                tags: vec![],
                created: t + offset,
            },
        );
    }
    let s = build_design_prompt(&state, "database", None, DesignMode::Review).unwrap().system_instructions;
    let earlier = s.find("DECISION: z-earlier (created 2025-02-01)").unwrap();
    let later = s.find("DECISION: a-later (created 2025-02-01)").unwrap();
    assert!(earlier < later);
}

#[test]
fn instants_split_into_seconds_and_nanoseconds() {
    assert_eq!(split_nanos(1_500_000_000), Some((1, 500_000_000)));
    assert_eq!(split_nanos(-1), Some((-1, 999_999_999)));
    assert_eq!(split_nanos(-1_000_000_000), Some((-1, 0)));
    assert_eq!(split_nanos(i128::MAX), None);
    assert_eq!(nanos_from_parts(-1, 999_999_999), -1);
    assert_eq!(format_utc_date(-1).as_deref(), Some("1969-12-31"));
    assert_eq!(format_utc_date(nanos(2025, 1, 15, 10, 0, 0) + 999).as_deref(), Some("2025-01-15"));
}
