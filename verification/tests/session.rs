use trurl::session::{
    complete_step, decide_after_reply, decide_step, input_from_line, should_warn_message_count,
    step_label, trim, DialogueDecision, Driver, DriverAction, DriverEvent, EndReason, Phase,
    StepDecision,
};

#[test]
fn warns_on_long_sessions_every_twenty_messages() {
    assert!(!should_warn_message_count(60));
    assert!(!should_warn_message_count(79));
    assert!(should_warn_message_count(80));
    assert!(!should_warn_message_count(81));
    assert!(should_warn_message_count(100));
}

#[test]
fn step_decisions() {
    let completed = vec!["scope".to_string()];
    assert_eq!(decide_step(true, "scope", &completed), StepDecision::Finish);
    assert_eq!(decide_step(false, "scope", &completed), StepDecision::AllStepsDone);
    assert_eq!(decide_step(false, "walk_decisions", &completed), StepDecision::RunStep);
}

#[test]
fn completing_steps_keeps_a_set_and_resets_on_change() {
    let mut completed: Vec<String> = vec![];
    complete_step(&mut completed, "scope".into(), false);
    complete_step(&mut completed, "scope".into(), false);
    complete_step(&mut completed, "coverage_audit".into(), false);
    assert_eq!(completed, vec!["scope".to_string(), "coverage_audit".to_string()]);
    complete_step(&mut completed, "walk_decisions".into(), true);
    assert_eq!(completed, vec!["walk_decisions".to_string()]);
}

#[test]
fn reply_decisions() {
    assert_eq!(decide_after_reply(true, false, "a", "a"), DialogueDecision::Complete);
    assert_eq!(decide_after_reply(false, true, "a", "b"), DialogueDecision::Complete);
    assert_eq!(decide_after_reply(false, false, "b", "a"), DialogueDecision::StepChanged);
    assert_eq!(decide_after_reply(false, false, "a", "a"), DialogueDecision::AskUser);
}

#[test]
fn step_labels_replace_underscores() {
    assert_eq!(step_label("verify_constraints"), "verify constraints");
    assert_eq!(step_label("ready"), "ready");
}

#[test]
fn terminal_lines() {
    assert_eq!(input_from_line(0, ""), None);
    assert_eq!(input_from_line(1, "\n"), None);
    assert_eq!(input_from_line(4, "  \t\n"), None);
    assert_eq!(input_from_line(8, "  yes \n"), Some("yes".to_string()));
    assert_eq!(trim("\u{3000}a b\u{a0}"), "a b");
}

fn advanced(step: &str) -> DriverEvent {
    DriverEvent::Advanced { ready: false, step: step.to_string() }
}

#[test]
fn driver_runs_a_step_and_detects_a_loop() {
    let mut d = Driver::new(vec![], 0, 0);
    match d.next(advanced("scope_definition")) {
        DriverAction::StartStep { step, label, warn } => {
            assert_eq!(step, "scope_definition");
            assert_eq!(label, "scope definition");
            assert!(!warn);
        }
        _ => panic!("expected the step to start"),
    }
    assert!(matches!(d.next(DriverEvent::Replied { recorded: 1, design_complete: false }), DriverAction::Recheck));
    assert_eq!(d.messages, 1);
    assert_eq!(d.decisions, 1);
    assert!(matches!(d.next(advanced("scope_definition")), DriverAction::AskUser));
    match d.next(DriverEvent::Answered(Some("it issues tokens".to_string()))) {
        DriverAction::Continue { answer, warn } => {
            assert_eq!(answer, "it issues tokens");
            assert!(!warn);
        }
        _ => panic!("expected the answer to go to the model"),
    }
    assert!(matches!(d.next(DriverEvent::Replied { recorded: 0, design_complete: false }), DriverAction::Recheck));
    assert!(matches!(d.next(advanced("coverage_audit")), DriverAction::NextStep));
    assert_eq!(d.completed, vec!["scope_definition".to_string()]);
    assert_eq!(d.phase, Phase::Advancing);
    // The workflow offers the completed step again: the session ends.
    assert!(matches!(d.next(advanced("scope_definition")), DriverAction::End(EndReason::AllStepsDone)));
    assert_eq!(d.phase, Phase::Done);
    assert!(matches!(d.next(advanced("scope_definition")), DriverAction::Ignore));
}

#[test]
fn driver_keeps_completed_steps_without_graph_change() {
    let mut d = Driver::new(vec!["walk_decisions".to_string()], 3, 79);
    match d.next(advanced("coverage_audit")) {
        DriverAction::StartStep { warn, .. } => assert!(!warn),
        _ => panic!("expected the step to start"),
    }
    assert!(matches!(d.next(DriverEvent::Replied { recorded: 0, design_complete: false }), DriverAction::Recheck));
    assert_eq!(d.messages, 80);
    assert!(matches!(d.next(advanced("verify_constraints")), DriverAction::NextStep));
    assert_eq!(d.completed, vec!["walk_decisions".to_string(), "coverage_audit".to_string()]);
}

#[test]
fn driver_ends_the_session() {
    let mut d = Driver::new(vec![], 0, 0);
    assert!(matches!(d.next(DriverEvent::Advanced { ready: true, step: "ready".into() }), DriverAction::End(EndReason::Ready)));

    let mut d = Driver::new(vec![], 0, 0);
    d.next(advanced("scope_definition"));
    assert!(matches!(
        d.next(DriverEvent::Replied { recorded: 2, design_complete: true }),
        DriverAction::End(EndReason::DesignComplete)
    ));
    assert_eq!(d.decisions, 2);

    let mut d = Driver::new(vec![], 0, 0);
    d.next(advanced("scope_definition"));
    d.next(DriverEvent::Replied { recorded: 0, design_complete: false });
    assert!(matches!(d.next(DriverEvent::Advanced { ready: true, step: "ready".into() }), DriverAction::End(EndReason::Ready)));

    let mut d = Driver::new(vec![], 0, 0);
    d.next(advanced("scope_definition"));
    d.next(DriverEvent::Replied { recorded: 0, design_complete: false });
    d.next(advanced("scope_definition"));
    assert!(matches!(d.next(DriverEvent::Answered(None)), DriverAction::End(EndReason::Suspended)));
}

#[test]
fn driver_warns_before_asking_the_model_in_long_sessions() {
    let mut d = Driver::new(vec![], 0, 98);
    d.next(advanced("scope_definition"));
    d.next(DriverEvent::Replied { recorded: 0, design_complete: false });
    d.next(advanced("scope_definition"));
    match d.next(DriverEvent::Answered(Some("more".into()))) {
        DriverAction::Continue { warn, .. } => assert!(warn),
        _ => panic!("expected the answer to go to the model"),
    }
    assert_eq!(d.messages, 100);
}
