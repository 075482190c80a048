use fabro::stage_execution::{StageExecutionSeed, StageExecutionTracker, StageId, StageRecord};

fn stages(records: &[(&str, u32, u32)]) -> Vec<StageRecord> {
    records
        .iter()
        .map(|(node_id, visit, seq)| StageRecord {
            id: StageId::new(node_id, *visit),
            first_event_seq: *seq,
        })
        .collect()
}

#[test]
fn reserve_starts_at_one_and_allocates_monotonically_per_node() {
    let mut tracker = StageExecutionTracker::default();

    assert_eq!(tracker.reserve("work", 1).ordinal, 1);
    tracker.begin_node("work");
    assert_eq!(tracker.reserve("work", 2).ordinal, 2);
    assert_eq!(tracker.reserve("other", 1).ordinal, 1);
}

#[test]
fn seeds_from_projection_maxima() {
    let projection = stages(&[("work", 1, 2), ("work", 2, 5), ("plan", 1, 3)]);
    let seed = StageExecutionSeed::from_projection(&projection, 0);
    let mut tracker = StageExecutionTracker::seeded(seed);

    assert_eq!(tracker.reserve("work", 1).ordinal, 3);
    assert_eq!(tracker.reserve("plan", 1).ordinal, 2);
    assert_eq!(tracker.reserve("new", 1).ordinal, 1);
}

#[test]
fn graph_visit_and_ordinal_can_diverge() {
    let projection = stages(&[("work", 1, 2), ("work", 2, 5)]);
    let seed = StageExecutionSeed::from_projection(&projection, 0);
    let mut tracker = StageExecutionTracker::seeded(seed);

    let execution = tracker.reserve("work", 2);
    assert_eq!(execution.ordinal, 3);
    assert_eq!(execution.graph_visit, 2);
}

#[test]
fn ensure_reuses_active_reservation_across_attempts() {
    let mut tracker = StageExecutionTracker::default();

    let first = tracker.ensure("work", 1);
    let second = tracker.ensure("work", 1);
    assert_eq!(first, second);
    assert_eq!(second.ordinal, 1);

    tracker.begin_node("work");
    assert_eq!(tracker.ensure("work", 2).ordinal, 2);
}

#[test]
fn begin_node_clears_only_that_node() {
    let mut tracker = StageExecutionTracker::default();
    tracker.reserve("work", 1);
    tracker.reserve("verify", 1);

    tracker.begin_node("work");

    assert_eq!(tracker.active("work"), None);
    assert_eq!(tracker.active("verify").map(|e| e.ordinal), Some(1));
}

#[test]
fn provenance_only_selects_stages_after_the_checkpoint() {
    let projection = stages(&[("work", 1, 2), ("work", 2, 8), ("plan", 1, 3)]);
    let seed = StageExecutionSeed::from_projection(&projection, 5);

    assert_eq!(
        seed.resumed_from.get("work"),
        Some(&StageId::new("work", 2))
    );
    assert_eq!(seed.resumed_from.get("plan"), None);
}

#[test]
fn first_reservation_consumes_provenance() {
    let projection = stages(&[("work", 1, 6)]);
    let seed = StageExecutionSeed::from_projection(&projection, 5);
    let mut tracker = StageExecutionTracker::seeded(seed);

    let first = tracker.reserve("work", 1);
    assert_eq!(first.ordinal, 2);
    assert_eq!(first.resumed_from, Some(StageId::new("work", 1)));

    tracker.begin_node("work");
    let second = tracker.reserve("work", 2);
    assert_eq!(second.ordinal, 3);
    assert_eq!(second.resumed_from, None);
}

#[test]
fn many_reservations_stay_unique_per_node() {
    let mut tracker = StageExecutionTracker::default();
    let ordinals: Vec<u32> = (0..8).map(|_| tracker.reserve("branch", 1).ordinal).collect();
    assert_eq!(ordinals, (1..=8).collect::<Vec<_>>());
}

#[test]
fn the_last_ordinal_is_kept() {
    let projection = stages(&[("work", u32::MAX, 1)]);
    let seed = StageExecutionSeed::from_projection(&projection, 1);
    assert_eq!(seed.resumed_from.get("work"), None);
    let mut tracker = StageExecutionTracker::seeded(seed);
    assert_eq!(tracker.reserve("work", 1).ordinal, u32::MAX);
}
