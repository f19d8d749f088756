use pooprusteek::app::background_stats::{kill_status, prune_status, BackgroundCounters, KillOutcome};

#[test]
fn counters_start_at_zero_and_clear_back_to_it() {
    let mut c = BackgroundCounters::default();
    assert_eq!((c.total, c.interactive, c.persistent), (0, 0, 0));
    assert!(!c.needs_cleanup());
    c.set(3, 1, 2);
    assert_eq!((c.total, c.interactive, c.persistent), (3, 1, 2));
    assert!(c.needs_cleanup());
    c.clear();
    assert_eq!(c, BackgroundCounters::default());
}

#[test]
fn kill_status_lines() {
    assert_eq!(kill_status(7, &KillOutcome::Stopped), "Stopped job #7.");
    assert_eq!(
        kill_status(12, &KillOutcome::Failed("permission denied".to_string())),
        "Failed to stop job #12: permission denied"
    );
    assert_eq!(kill_status(0, &KillOutcome::Missing), "No job with id=0.");
}

#[test]
fn prune_status_lines() {
    assert_eq!(prune_status(0, 0), "No jobs pruned.");
    assert_eq!(prune_status(2, 0), "Pruned jobs: finished=2, expired=0.");
    assert_eq!(prune_status(0, 15), "Pruned jobs: finished=0, expired=15.");
}
