use lau_destruction_transform::{
    crashed_agent, failed_bridge, old_boat, Component, TransformEvent, TransformId, TransformLog,
    TransformPhase,
};

fn rate(log: &TransformLog) -> f64 {
    let (completed, total) = log.transform_rate();
    if total == 0 {
        0.0
    } else {
        completed as f64 / total as f64
    }
}

// ──────────────────────────────────────
// TransformId
// ──────────────────────────────────────

#[test]
fn test_transform_id_new() {
    let id = TransformId("plato-room".to_string());
    assert_eq!(id.0, "plato-room");
}

#[test]
fn test_transform_id_clone_eq_hash() {
    let a = TransformId("x".to_string());
    let b = TransformId("x".to_string());
    let c = TransformId("y".to_string());
    assert_eq!(a, b);
    assert_ne!(a, c);
    let cloned = a.clone();
    assert_eq!(a, cloned);
}

#[test]
fn test_transform_id_display() {
    let id = TransformId("hello".to_string());
    assert_eq!(id.to_string(), "hello");
}

// ──────────────────────────────────────
// TransformPhase
// ──────────────────────────────────────

#[test]
fn test_transform_phase_display() {
    assert_eq!(TransformPhase::Whole.to_string(), "Whole");
    assert_eq!(TransformPhase::Examining.to_string(), "Examining");
    assert_eq!(TransformPhase::Scattered.to_string(), "Scattered");
    assert_eq!(TransformPhase::Understanding.to_string(), "Understanding");
    assert_eq!(TransformPhase::Rebuilding.to_string(), "Rebuilding");
    assert_eq!(TransformPhase::Transformed.to_string(), "Transformed");
}

// ──────────────────────────────────────
// Artifact lifecycle
// ──────────────────────────────────────

#[test]
fn test_artifact_new_is_whole() {
    let art = old_boat();
    assert_eq!(art.phase, TransformPhase::Whole);
    assert!(!art.is_transforming());
}

#[test]
fn test_artifact_deconstruct() {
    let mut art = old_boat();
    art.deconstruct(42);
    assert_eq!(art.phase, TransformPhase::Examining);
    assert_eq!(art.destruction_tick, Some(42));
    assert!(art.is_transforming());
}

#[test]
fn test_examine_component_finds_wisdom() {
    let mut art = old_boat();
    art.deconstruct(1);

    // First component (Hull) has wisdom
    let result = art.examine_component(0);
    assert!(result.is_some());
    assert!(result.unwrap().contains("wood remembers"));
    assert_eq!(art.discovery_count(), 1);

    // Second component (Mast) has no wisdom
    let result = art.examine_component(1);
    assert!(result.is_none());
    assert_eq!(art.discovery_count(), 1);
}

#[test]
fn test_examine_component_out_of_bounds() {
    let mut art = old_boat();
    art.deconstruct(1);
    let result = art.examine_component(999);
    assert!(result.is_none());
}

#[test]
fn test_examine_component_wisdom_only_once() {
    let mut art = old_boat();
    art.deconstruct(1);

    let first = art.examine_component(0);
    assert!(first.is_some());

    let second = art.examine_component(0);
    assert!(second.is_none());
}

#[test]
fn test_scatter_phase() {
    let mut art = old_boat();
    art.deconstruct(1);
    art.scatter();
    assert_eq!(art.phase, TransformPhase::Scattered);
}

#[test]
fn test_understand_phase() {
    let mut art = old_boat();
    art.deconstruct(1);
    art.scatter();
    art.understand();
    assert_eq!(art.phase, TransformPhase::Understanding);
}

#[test]
fn test_rebuild_success() {
    let mut art = failed_bridge();
    art.deconstruct(1);
    art.examine_component(0);
    art.examine_component(2);
    assert_eq!(art.discovery_count(), 2);

    let success = art.rebuild("A shorter footbridge", 99);
    assert!(success);
    assert_eq!(art.phase, TransformPhase::Rebuilding);
    assert_eq!(art.rebuild_tick, Some(99));
}

#[test]
fn test_rebuild_failure_not_enough_discoveries() {
    let mut art = failed_bridge();
    art.deconstruct(1);
    art.examine_component(0);
    assert_eq!(art.discovery_count(), 1);

    let success = art.rebuild("A shorter footbridge", 99);
    assert!(!success);
    assert_eq!(art.phase, TransformPhase::Examining);
}

#[test]
fn test_complete_transformation() {
    let mut art = crashed_agent();
    art.deconstruct(1);
    art.scatter();
    art.understand();
    art.examine_component(0);
    art.examine_component(1);
    art.examine_component(3);
    art.rebuild("A wiser assistant", 50);
    art.complete();
    assert_eq!(art.phase, TransformPhase::Transformed);
    assert!(!art.is_transforming());
}

#[test]
fn test_hidden_count() {
    let mut art = old_boat();
    assert_eq!(art.hidden_count(), 3);
    art.examine_component(0);
    assert_eq!(art.hidden_count(), 2);
}

#[test]
fn test_discovery_count() {
    let mut art = crashed_agent();
    assert_eq!(art.discovery_count(), 0);
    art.examine_component(0);
    assert_eq!(art.discovery_count(), 1);
}

#[test]
fn test_full_old_boat_lifecycle() {
    let mut art = old_boat();
    assert_eq!(art.components.len(), 5);

    art.deconstruct(10);
    assert_eq!(art.phase, TransformPhase::Examining);

    art.examine_component(0);
    art.examine_component(1);
    art.examine_component(2);
    art.examine_component(4);
    assert_eq!(art.discovery_count(), 3);

    art.scatter();
    assert_eq!(art.phase, TransformPhase::Scattered);

    art.understand();
    assert_eq!(art.phase, TransformPhase::Understanding);

    let success = art.rebuild("A sleek yacht", 20);
    assert!(success);
    assert_eq!(art.phase, TransformPhase::Rebuilding);

    art.complete();
    assert_eq!(art.phase, TransformPhase::Transformed);
}

// ──────────────────────────────────────
// TransformLog
// ──────────────────────────────────────

#[test]
fn test_transform_log_create_and_get() {
    let mut log = TransformLog::new();
    log.create(
        "My Artifact",
        vec![Component::new("Part A", 0.8f64.to_bits())],
        vec!["New Form".to_string()],
    );
    let art = log.get("My Artifact").unwrap();
    assert_eq!(art.phase, TransformPhase::Whole);
    assert_eq!(art.components.len(), 1);
}

#[test]
fn test_transform_log_deconstruction_event() {
    let mut log = TransformLog::new();
    log.create("Test", vec![Component::new("A", 1.0f64.to_bits())], vec!["B".to_string()]);
    assert_eq!(log.tick, 0);

    log.deconstruct("Test");
    assert_eq!(log.tick, 1);
    assert_eq!(log.events.len(), 1);
    assert!(matches!(
        log.events[0],
        TransformEvent::DeconstructionStarted(ref n) if n == "Test"
    ));
}

#[test]
fn test_transform_log_examine() {
    let mut log = TransformLog::new();
    log.create(
        "Test",
        vec![Component::with_wisdom("A", 0.5f64.to_bits(), "secret wisdom")],
        vec!["New".to_string()],
    );
    log.deconstruct("Test");

    let discovery = log.examine("Test", 0);
    assert!(discovery.is_some());
    assert_eq!(discovery.unwrap(), "secret wisdom");

    // DeconstructionStarted + ComponentExamined + WisdomFound
    assert_eq!(log.events.len(), 3);
}

#[test]
fn test_transform_log_rebuild_and_complete() {
    let mut log = TransformLog::new();
    log.create(
        "Bridge",
        vec![
            Component::with_wisdom("A", 0.5f64.to_bits(), "wisdom-A"),
            Component::with_wisdom("B", 0.5f64.to_bits(), "wisdom-B"),
            Component::new("C", 0.3f64.to_bits()),
        ],
        vec!["New Bridge".to_string()],
    );

    assert_eq!(log.total_discoveries(), 0);

    log.deconstruct("Bridge");
    log.examine("Bridge", 0);
    log.examine("Bridge", 1);
    assert_eq!(log.total_discoveries(), 2);

    assert_eq!(log.hidden_remaining(), 0);

    let success = log.rebuild("Bridge", "New Bridge");
    assert!(success);

    log.complete("Bridge");
    assert_eq!(log.completed().len(), 1);

    assert_eq!(rate(&log), 1.0);
}

#[test]
fn test_transform_log_transforming() {
    let mut log = TransformLog::new();
    log.create("A", vec![Component::new("x", 1.0f64.to_bits())], vec!["B".to_string()]);
    log.create("C", vec![Component::new("y", 1.0f64.to_bits())], vec!["D".to_string()]);
    log.create("E", vec![Component::new("z", 1.0f64.to_bits())], vec!["F".to_string()]);

    assert_eq!(log.transforming().len(), 0);

    log.deconstruct("A");
    assert_eq!(log.transforming().len(), 1);

    log.deconstruct("C");
    assert_eq!(log.transforming().len(), 2);
}

#[test]
fn test_transform_log_events_for() {
    let mut log = TransformLog::new();
    log.create(
        "Boat",
        vec![Component::with_wisdom("Hull", 0.5f64.to_bits(), "deep truth")],
        vec!["Yacht".to_string()],
    );

    log.deconstruct("Boat");
    log.examine("Boat", 0);

    let events = log.events_for("Boat");
    assert_eq!(events.len(), 3);
}

#[test]
fn test_transform_rate_empty() {
    let log = TransformLog::new();
    assert_eq!(rate(&log), 0.0);
}

#[test]
fn test_transform_rate_partial() {
    let mut log = TransformLog::new();
    log.create("A", vec![Component::new("x", 1.0f64.to_bits())], vec!["B".to_string()]);
    log.create("C", vec![Component::new("y", 1.0f64.to_bits())], vec!["D".to_string()]);
    log.create("E", vec![Component::new("z", 1.0f64.to_bits())], vec!["F".to_string()]);

    // Complete 1 of 3
    log.artifacts.iter_mut().find(|a| a.name == "A").unwrap().phase = TransformPhase::Transformed;
    assert!((rate(&log) - 1.0 / 3.0).abs() < 1e-10);
}

// ──────────────────────────────────────
// Pre-built artifacts
// ──────────────────────────────────────

#[test]
fn test_old_boat_prebuilt() {
    let art = old_boat();
    assert_eq!(art.name, "Old Boat");
    assert_eq!(art.components.len(), 5);
    assert_eq!(art.hidden_count(), 3);
}

#[test]
fn test_failed_bridge_prebuilt() {
    let art = failed_bridge();
    assert_eq!(art.name, "Failed Bridge");
    assert_eq!(art.components.len(), 3);
    assert_eq!(art.hidden_count(), 2);
}

#[test]
fn test_crashed_agent_prebuilt() {
    let art = crashed_agent();
    assert_eq!(art.name, "Crashed Agent");
    assert_eq!(art.components.len(), 4);
    assert_eq!(art.hidden_count(), 3);
}
