use pooprusteek::app::events::{GoalStage, GoalVerdict};
use pooprusteek::app::goal::{parse_goal_verdict, GoalOutcome, GoalState, MAX_GOAL_ITERATIONS};

#[test]
fn structured_success_with_summary() {
    let v = parse_goal_verdict("**Status:** SUCCESS\n**Summary:** all done");
    assert!(v.success);
    assert_eq!(v.summary, "all done");
}

#[test]
fn structured_failure_with_issues_and_feedback() {
    let text = "**Status:** FAILURE\n**Issues:** tests fail\n**Feedback:** fix the parser";
    let v = parse_goal_verdict(text);
    assert!(!v.success);
    assert_eq!(v.issues, "tests fail");
    assert_eq!(v.feedback, "fix the parser");
}

#[test]
fn unstructured_success_fallback() {
    // No structured fields, but the word SUCCESS appears.
    let v = parse_goal_verdict("Looks great, this is a SUCCESS overall.");
    assert!(v.success);
    assert!(v.summary.is_empty());
}

#[test]
fn empty_reply_is_failure() {
    let v = parse_goal_verdict("");
    assert!(!v.success);
    assert!(v.summary.is_empty() && v.issues.is_empty() && v.feedback.is_empty());
}

#[test]
fn structured_summary_suppresses_fallback() {
    // A summary is present, so the SUCCESS-word fallback must not fire;
    // the explicit FAILURE status stands.
    let v = parse_goal_verdict("**Status:** FAILURE\n**Summary:** partial — SUCCESS not reached");
    assert!(!v.success);
    assert_eq!(v.summary, "partial — SUCCESS not reached");
}

fn verdict(success: bool, summary: &str, issues: &str, feedback: &str) -> GoalVerdict {
    GoalVerdict {
        success,
        summary: summary.to_string(),
        issues: issues.to_string(),
        feedback: feedback.to_string(),
    }
}

#[test]
fn apply_success_sets_done_and_summary() {
    let mut g = GoalState::default();
    let outcome = g.apply_verdict(verdict(true, "shipped it", "", ""));
    assert_eq!(g.stage, GoalStage::Done);
    assert_eq!(g.summary, "shipped it");
    match outcome {
        GoalOutcome::Succeeded { summary } => assert_eq!(summary, "shipped it"),
        _ => panic!("expected Succeeded"),
    }
}

#[test]
fn apply_success_empty_summary_defaults() {
    let mut g = GoalState::default();
    let outcome = g.apply_verdict(verdict(true, "", "", ""));
    match outcome {
        GoalOutcome::Succeeded { summary } => assert_eq!(summary, "Goal achieved!"),
        _ => panic!("expected Succeeded"),
    }
}

#[test]
fn apply_failure_advances_iteration_and_counters() {
    let mut g = GoalState::default();
    let outcome = g.apply_verdict(verdict(false, "", "tests red", "fix tests"));
    assert_eq!(g.stage, GoalStage::RunAgent1);
    assert_eq!(g.iteration, 1);
    assert_eq!(g.agent1_failures, 1);
    assert_eq!(g.agent2_failures, 1);
    match outcome {
        GoalOutcome::Retry { iteration, issues, feedback, swapped_agent1, swapped_agent2 } => {
            assert_eq!(iteration, 0); // pre-increment attempt number
            assert_eq!(issues, "tests red");
            assert_eq!(feedback, "fix tests");
            assert!(!swapped_agent1 && !swapped_agent2);
        }
        _ => panic!("expected Retry"),
    }
}

#[test]
fn apply_failure_empty_feedback_defaults() {
    let mut g = GoalState::default();
    let outcome = g.apply_verdict(verdict(false, "", "", ""));
    match outcome {
        GoalOutcome::Retry { feedback, .. } => assert!(feedback.starts_with("No specific feedback")),
        _ => panic!("expected Retry"),
    }
}

#[test]
fn evaluator_swaps_after_fifth_failure() {
    let mut g = GoalState { agent2_failures: 4, ..Default::default() };
    let outcome = g.apply_verdict(verdict(false, "", "", ""));
    // 4 + 1 == 5 → swap and reset the evaluator session.
    assert_eq!(g.agent2_failures, 0);
    assert!(!g.agent2_session_id.is_empty());
    match outcome {
        GoalOutcome::Retry { swapped_agent2, .. } => assert!(swapped_agent2),
        _ => panic!("expected Retry"),
    }
}

#[test]
fn worker_swaps_when_already_at_three_failures() {
    let mut g = GoalState { agent1_failures: 3, ..Default::default() };
    let outcome = g.apply_verdict(verdict(false, "", "", ""));
    // Check is before increment: swap, reset to 0, then count this round → 1.
    assert_eq!(g.agent1_failures, 1);
    assert!(!g.agent1_session_id.is_empty());
    match outcome {
        GoalOutcome::Retry { swapped_agent1, .. } => assert!(swapped_agent1),
        _ => panic!("expected Retry"),
    }
}

#[test]
fn gives_up_at_iteration_cap() {
    let mut g = GoalState { iteration: MAX_GOAL_ITERATIONS, ..Default::default() };
    match g.apply_verdict(verdict(false, "", "", "")) {
        GoalOutcome::GaveUp { iteration } => assert_eq!(iteration, MAX_GOAL_ITERATIONS),
        _ => panic!("expected GaveUp at the cap"),
    }
    // Stage must not be left "running", or the pipeline would wedge.
    assert!(!g.is_running());
}

#[test]
fn keeps_retrying_just_below_cap() {
    let mut g = GoalState { iteration: MAX_GOAL_ITERATIONS - 1, ..Default::default() };
    assert!(matches!(g.apply_verdict(verdict(false, "", "", "")), GoalOutcome::Retry { .. }));
}

#[test]
fn is_running_only_during_agent_stages() {
    let stages = [
        (GoalStage::Inactive, false),
        (GoalStage::WaitForGoal, false),
        (GoalStage::RunAgent1, true),
        (GoalStage::RunEvaluator, true),
        (GoalStage::Done, false),
    ];
    for (stage, expected) in stages {
        let g = GoalState { stage, ..Default::default() };
        assert_eq!(g.is_running(), expected);
    }
}

#[test]
fn activate_starts_fresh_with_sessions() {
    let mut g = GoalState {
        iteration: 7,
        summary: "old".to_string(),
        ..Default::default()
    };
    g.activate();
    assert!(g.mode);
    assert_eq!(g.stage, GoalStage::Inactive);
    assert_eq!(g.iteration, 0);
    assert!(g.summary.is_empty());
    assert!(!g.agent1_session_id.is_empty() && !g.agent2_session_id.is_empty());
}

#[test]
fn deactivate_resets_everything() {
    let mut g = GoalState {
        mode: true,
        stage: GoalStage::RunAgent1,
        iteration: 5,
        prompt: "p".to_string(),
        ..Default::default()
    };
    g.deactivate();
    assert!(!g.mode);
    assert!(!g.is_running());
    assert_eq!(g.iteration, 0);
    assert!(g.prompt.is_empty());
}

// ── further cases ──

#[test]
fn swapped_session_ids_are_36_characters() {
    let mut g = GoalState { agent2_failures: 4, agent1_failures: 3, ..Default::default() };
    g.apply_verdict(verdict(false, "", "", ""));
    assert_eq!(g.agent1_session_id.chars().count(), 36);
    assert_eq!(g.agent2_session_id.chars().count(), 36);
}

#[test]
fn repeated_failures_never_pass_the_cap() {
    let mut g = GoalState::default();
    let mut retries = 0;
    loop {
        match g.apply_verdict(verdict(false, "", "", "")) {
            GoalOutcome::Retry { .. } => retries += 1,
            GoalOutcome::GaveUp { iteration } => {
                assert_eq!(iteration, MAX_GOAL_ITERATIONS);
                break;
            }
            GoalOutcome::Succeeded { .. } => panic!("no success was reported"),
        }
        assert!(g.iteration <= MAX_GOAL_ITERATIONS);
        assert!(g.agent2_failures < 5);
        assert!(g.agent1_failures <= 3);
    }
    assert_eq!(retries, MAX_GOAL_ITERATIONS);
    assert_eq!(g.stage, GoalStage::Done);
}

#[test]
fn later_marker_lines_override_earlier_ones() {
    let v = parse_goal_verdict("**Issues:** a\r\n  **Issues:**   b  \n**Status:** SUCCESS");
    assert!(v.success);
    assert_eq!(v.issues, "b");
}

#[test]
fn status_marker_wins_over_summary_on_the_same_line() {
    let v = parse_goal_verdict("**Status:** SUCCESS **Summary:** ignored");
    assert!(v.success);
    assert!(v.summary.is_empty());
}

#[test]
fn swapped_sessions_take_the_given_ids() {
    let mut g = GoalState {
        agent1_failures: 3,
        agent2_failures: 4,
        agent1_session_id: "old-worker".to_string(),
        agent2_session_id: "old-evaluator".to_string(),
        ..Default::default()
    };
    g.apply_verdict_with(verdict(false, "", "", ""), "new-worker".to_string(), "new-evaluator".to_string());
    assert_eq!(g.agent1_session_id, "new-worker");
    assert_eq!(g.agent2_session_id, "new-evaluator");

    let mut kept = GoalState {
        agent1_session_id: "old-worker".to_string(),
        agent2_session_id: "old-evaluator".to_string(),
        ..Default::default()
    };
    kept.apply_verdict_with(verdict(false, "", "", ""), "new-worker".to_string(), "new-evaluator".to_string());
    assert_eq!(kept.agent1_session_id, "old-worker");
    assert_eq!(kept.agent2_session_id, "old-evaluator");
}
