use lau_destruction_transform::{
    crashed_agent, old_boat, Artifact, Component, TransformEvent, TransformLog, TransformPhase,
};

fn bridge_log() -> TransformLog {
    let mut log = TransformLog::new();
    log.create(
        "Bridge",
        vec![
            Component::with_wisdom("A", 0.5f64.to_bits(), "wisdom-A"),
            Component::with_wisdom("B", 0.5f64.to_bits(), "wisdom-B"),
            Component::new("C", 0.3f64.to_bits()),
        ],
        vec!["New Bridge".to_string()],
    );
    log
}

#[test]
fn component_keeps_condition_bits() {
    let c = Component::new("Part", 0.8f64.to_bits());
    assert_eq!(f64::from_bits(c.condition_bits), 0.8);
    assert!(c.hidden_wisdom.is_none());
    let w = Component::with_wisdom("Part", 0.5f64.to_bits(), "secret");
    assert_eq!(w.hidden_wisdom.as_deref(), Some("secret"));
    assert_eq!(w.name, "Part");
}

#[test]
fn artifact_new_is_fresh() {
    let art = Artifact::new("Thing", "a thing", vec!["New Form".to_string()]);
    assert_eq!(art.name, "Thing");
    assert_eq!(art.original_form, "a thing");
    assert_eq!(art.potential_forms, vec!["New Form".to_string()]);
    assert_eq!(art.phase, TransformPhase::Whole);
    assert!(art.components.is_empty());
    assert!(art.discoveries.is_empty());
    assert_eq!(art.destruction_tick, None);
    assert_eq!(art.rebuild_tick, None);
}

#[test]
fn examine_moves_wisdom_from_hidden_to_discovered() {
    let mut art = old_boat();
    let before = art.discovery_count() + art.hidden_count();
    for i in 0..6 {
        art.examine_component(i);
        art.examine_component(i);
        assert_eq!(art.discovery_count() + art.hidden_count(), before);
    }
    assert_eq!(art.discovery_count(), 3);
    assert_eq!(art.hidden_count(), 0);
    assert!(art.components[0].hidden_wisdom.is_none());
    assert_eq!(art.discoveries[0], art.discoveries[0].clone());
    assert!(art.discoveries[0].starts_with("The wood remembers"));
}

#[test]
fn rebuild_gate_boundary() {
    // Four components: more than 4 / 2 = 2 discoveries are needed.
    let mut art = crashed_agent();
    art.examine_component(0);
    art.examine_component(1);
    assert!(!art.rebuild("A wiser assistant", 5));
    assert_eq!(art.original_form, "a corrupted AI agent");
    assert_eq!(art.rebuild_tick, None);
    art.examine_component(3);
    assert!(art.rebuild("A wiser assistant", 5));
    assert_eq!(art.original_form, "A wiser assistant");
    assert_eq!(art.rebuild_tick, Some(5));
}

#[test]
fn is_transforming_by_phase() {
    let mut art = old_boat();
    assert!(!art.is_transforming());
    art.deconstruct(1);
    assert!(art.is_transforming());
    art.scatter();
    assert!(art.is_transforming());
    art.understand();
    assert!(art.is_transforming());
    art.phase = TransformPhase::Rebuilding;
    assert!(art.is_transforming());
    art.complete();
    assert!(!art.is_transforming());
}

#[test]
fn create_then_get_reads_back_and_replaces() {
    let mut log = TransformLog::new();
    log.create("A", vec![Component::new("x", 1.0f64.to_bits())], vec!["F".to_string()]);
    log.create("B", vec![], vec![]);
    log.deconstruct("A");
    log.create("A", vec![], vec!["G".to_string()]);
    assert_eq!(log.artifacts.len(), 2);
    let a = log.get("A").unwrap();
    assert_eq!(a.phase, TransformPhase::Whole);
    assert_eq!(a.original_form, "A");
    assert!(a.components.is_empty());
    assert_eq!(a.potential_forms, vec!["G".to_string()]);
    assert_eq!(a.destruction_tick, None);
    assert_eq!(log.get("B").unwrap().name, "B");
    assert!(log.get("C").is_none());
}

#[test]
fn tick_counts_deconstructions_and_rebuild_attempts() {
    let mut log = bridge_log();
    log.deconstruct("Missing");
    assert_eq!(log.tick, 1);
    assert!(log.events.is_empty());
    log.scatter("Bridge");
    log.understand("Bridge");
    log.examine("Bridge", 0);
    assert_eq!(log.tick, 1);
    assert!(!log.rebuild("Missing", "X"));
    assert_eq!(log.tick, 2);
    assert!(matches!(
        log.events.last().unwrap(),
        TransformEvent::RebuildAttempted { artifact, success: false } if artifact == "Missing"
    ));
    log.deconstruct("Bridge");
    assert_eq!(log.tick, 3);
    assert_eq!(log.get("Bridge").unwrap().destruction_tick, Some(3));
}

#[test]
fn examine_missing_artifact_or_component_changes_nothing() {
    let mut log = bridge_log();
    assert_eq!(log.examine("Missing", 0), None);
    assert_eq!(log.examine("Bridge", 3), None);
    assert!(log.events.is_empty());
    assert_eq!(log.hidden_remaining(), 2);
}

#[test]
fn examine_records_events_once() {
    let mut log = bridge_log();
    assert_eq!(log.examine("Bridge", 0), Some("wisdom-A".to_string()));
    assert_eq!(log.examine("Bridge", 0), None);
    assert_eq!(log.examine("Bridge", 2), None);
    assert_eq!(log.events.len(), 4);
    assert!(matches!(
        &log.events[0],
        TransformEvent::ComponentExamined { artifact, component, discovery: Some(d) }
            if artifact == "Bridge" && component == "A" && d == "wisdom-A"
    ));
    assert!(matches!(
        &log.events[1],
        TransformEvent::WisdomFound { artifact, wisdom } if artifact == "Bridge" && wisdom == "wisdom-A"
    ));
    assert!(matches!(
        &log.events[2],
        TransformEvent::ComponentExamined { component, discovery: None, .. } if component == "A"
    ));
    assert!(matches!(
        &log.events[3],
        TransformEvent::ComponentExamined { component, discovery: None, .. } if component == "C"
    ));
    assert_eq!(log.total_discoveries() + log.hidden_remaining(), 2);
}

#[test]
fn rebuild_records_old_and_new_form() {
    let mut log = bridge_log();
    assert!(!log.rebuild("Bridge", "New Bridge"));
    log.examine("Bridge", 0);
    log.examine("Bridge", 1);
    assert!(log.rebuild("Bridge", "New Bridge"));
    let n = log.events.len();
    assert!(matches!(
        &log.events[n - 2],
        TransformEvent::RebuildAttempted { artifact, success: true } if artifact == "Bridge"
    ));
    assert!(matches!(
        &log.events[n - 1],
        TransformEvent::TransformationComplete { artifact, old_form, new_form }
            if artifact == "Bridge" && old_form == "Bridge" && new_form == "New Bridge"
    ));
    let a = log.get("Bridge").unwrap();
    assert_eq!(a.phase, TransformPhase::Rebuilding);
    assert_eq!(a.original_form, "New Bridge");
    assert_eq!(a.rebuild_tick, Some(2));
}

#[test]
fn events_for_filters_by_artifact() {
    let mut log = bridge_log();
    log.create("Other", vec![], vec![]);
    log.deconstruct("Bridge");
    log.deconstruct("Other");
    log.examine("Bridge", 0);
    log.events.push(TransformEvent::RoomDissolved {
        room: "Bridge".to_string(),
        reason: "over-adapted".to_string(),
    });
    log.rebuild("Other", "Y");
    assert_eq!(log.events_for("Bridge").len(), 3);
    assert_eq!(log.events_for("Other").len(), 2);
    assert_eq!(log.events_for("Nobody").len(), 0);
}

#[test]
fn transforming_and_completed_follow_phases() {
    let mut log = bridge_log();
    log.create("Other", vec![], vec![]);
    log.deconstruct("Other");
    log.complete("Bridge");
    let t = log.transforming();
    assert_eq!(t.len(), 1);
    assert_eq!(t[0].name, "Other");
    let c = log.completed();
    assert_eq!(c.len(), 1);
    assert_eq!(c[0].name, "Bridge");
    assert_eq!(log.transform_rate(), (1, 2));
}

#[test]
fn default_log_is_empty() {
    let log = TransformLog::default();
    assert_eq!(log.tick, 0);
    assert!(log.artifacts.is_empty());
    assert!(log.events.is_empty());
    assert_eq!(log.transform_rate(), (0, 0));
}

#[test]
fn event_log_is_append_only() {
    let mut log = bridge_log();
    let mut seen: Vec<String> = Vec::new();
    let steps: Vec<Box<dyn Fn(&mut TransformLog)>> = vec![
        Box::new(|l| l.deconstruct("Bridge")),
        Box::new(|l| {
            l.examine("Bridge", 0);
        }),
        Box::new(|l| l.scatter("Bridge")),
        Box::new(|l| {
            l.examine("Bridge", 1);
        }),
        Box::new(|l| l.understand("Bridge")),
        Box::new(|l| {
            l.rebuild("Bridge", "New Bridge");
        }),
        Box::new(|l| l.complete("Bridge")),
        Box::new(|l| l.create("Bridge", vec![], vec![])),
    ];
    for step in steps.iter() {
        step(&mut log);
        let now: Vec<String> = log.events.iter().map(|e| format!("{:?}", e)).collect();
        assert!(now.len() >= seen.len());
        assert_eq!(&now[..seen.len()], &seen[..]);
        seen = now;
    }
    assert_eq!(seen.len(), 7);
    assert_eq!(log.artifacts.len(), 1);
}
