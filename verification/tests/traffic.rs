use pam::cli::Argument;
use pam::process_manager::{RolloutDecision, RolloutPhase};
use pam::traffic::{
    candidate_error_basis_points, evaluate_rollout, finish_rollout, initial_rollout, parse_basis_points,
    parse_rollout_deadline, reconfigure_rollout, TrafficRollout,
};

fn arg(text: &str) -> Argument {
    Argument { text: text.to_owned(), utf8: true }
}

#[test]
fn rollout_values_are_bounded() {
    assert_eq!(parse_basis_points(Some(&arg("2500"))).unwrap(), 2500);
    assert_eq!(parse_basis_points(Some(&arg("10001"))).unwrap_err(), "--weight-bps requires an integer from 0 to 10000");
    assert_eq!(parse_basis_points(None).unwrap_err(), "--weight-bps requires a value");
    assert_eq!(parse_rollout_deadline(Some(&arg("60"))).unwrap(), 60);
    assert_eq!(
        parse_rollout_deadline(Some(&arg("0"))).unwrap_err(),
        "--deadline-seconds requires an integer from 1 to 604800"
    );
}

#[test]
fn a_weighted_candidate_starts_evaluating_until_its_deadline() {
    let (phase, deadline) = initial_rollout(true, 100, 1_000, 60);
    assert!(matches!(phase, RolloutPhase::Evaluating));
    assert_eq!(deadline, Some(61_000));
    let (phase, deadline) = initial_rollout(true, 0, 1_000, 60);
    assert!(matches!(phase, RolloutPhase::Stable));
    assert_eq!(deadline, None);
    assert_eq!(initial_rollout(true, 1, u64::MAX - 5, 604_800).1, Some(u64::MAX));
}

fn evaluating(generation: u64, deadline: Option<u64>) -> TrafficRollout<u16> {
    TrafficRollout {
        stable: 8080,
        candidate: Some(8081),
        candidate_weight_basis_points: 1000,
        phase: RolloutPhase::Evaluating,
        deadline_millis: deadline,
        generation,
        last_decision: None,
        last_evaluated_at_millis: None,
        last_evaluated_candidate_requests: None,
        last_evaluated_candidate_errors: None,
    }
}

#[test]
fn candidate_error_rate_rounds_up() {
    assert_eq!(candidate_error_basis_points(0, 0), 0);
    assert_eq!(candidate_error_basis_points(3, 1), 3334);
    assert_eq!(candidate_error_basis_points(1000, 0), 0);
    assert_eq!(candidate_error_basis_points(1000, 1), 10);
    assert_eq!(candidate_error_basis_points(20_000, 1), 1);
    assert_eq!(candidate_error_basis_points(10, 10), 10_000);
}

#[test]
fn healthy_candidate_is_promoted() {
    let (next, decision, bps) = evaluate_rollout(evaluating(4, Some(5_000)), 4, 200, 1, 100, 100, 1_000).unwrap();
    assert_eq!(decision, RolloutDecision::Promoted);
    assert_eq!(decision.code(), 2);
    assert_eq!(bps, 50);
    assert_eq!(next.stable, 8081);
    assert_eq!(next.candidate, None);
    assert_eq!(next.candidate_weight_basis_points, 0);
    assert_eq!(next.phase, RolloutPhase::Promoted);
    assert_eq!(next.deadline_millis, None);
    assert_eq!(next.generation, 5);
    assert_eq!(next.last_decision, Some(RolloutDecision::Promoted));
    assert_eq!(next.last_evaluated_at_millis, Some(1_000));
    assert_eq!(next.last_evaluated_candidate_requests, Some(200));
    assert_eq!(next.last_evaluated_candidate_errors, Some(1));
}

#[test]
fn evaluation_waits_for_requests_and_aborts_on_errors_or_deadline() {
    let (next, decision, _) = evaluate_rollout(evaluating(4, Some(5_000)), 4, 99, 0, 100, 100, 1_000).unwrap();
    assert_eq!(decision, RolloutDecision::Pending);
    assert_eq!(next.candidate, Some(8081));
    assert_eq!(next.phase, RolloutPhase::Evaluating);
    assert_eq!(next.generation, 4);
    assert_eq!(next.last_evaluated_candidate_requests, Some(99));

    let (next, decision, bps) = evaluate_rollout(evaluating(4, Some(5_000)), 4, 100, 2, 100, 100, 1_000).unwrap();
    assert_eq!((decision, bps), (RolloutDecision::Aborted, 200));
    assert_eq!(next.stable, 8080);
    assert_eq!(next.phase, RolloutPhase::Aborted);
    assert_eq!(next.candidate, None);

    let (next, decision, _) = evaluate_rollout(evaluating(4, Some(5_000)), 4, 500, 0, 100, 100, 5_000).unwrap();
    assert_eq!(decision, RolloutDecision::DeadlineAborted);
    assert_eq!(decision.code(), 4);
    assert_eq!(next.phase, RolloutPhase::Aborted);
    assert_eq!(next.generation, 5);
}

#[test]
fn evaluation_refuses_stale_or_missing_rollouts() {
    assert_eq!(
        evaluate_rollout(evaluating(4, None), 3, 100, 0, 1, 0, 0).err(),
        Some("rollout metrics have not reached the active generation".to_owned())
    );
    let mut stable = evaluating(4, None);
    stable.phase = RolloutPhase::Stable;
    assert_eq!(
        evaluate_rollout(stable, 4, 100, 0, 1, 0, 0).err(),
        Some("traffic ingress has no rollout under evaluation".to_owned())
    );
    assert_eq!(
        evaluate_rollout(evaluating(u64::MAX, None), u64::MAX, 100, 0, 1, 0, 0).err(),
        Some("traffic generation exhausted".to_owned())
    );
}

#[test]
fn manual_promotion_and_abort_end_the_rollout() {
    let promoted = finish_rollout(evaluating(7, Some(9)), true).unwrap();
    assert_eq!((promoted.stable, promoted.candidate, promoted.generation), (8081, None, 8));
    assert_eq!(promoted.last_decision, Some(RolloutDecision::Promoted));
    let aborted = finish_rollout(evaluating(7, Some(9)), false).unwrap();
    assert_eq!((aborted.stable, aborted.phase, aborted.deadline_millis), (8080, RolloutPhase::Aborted, None));
    let mut empty = evaluating(7, None);
    empty.candidate = None;
    assert_eq!(finish_rollout(empty, true).err(), Some("traffic ingress has no candidate to promote".to_owned()));
}

#[test]
fn reconfiguring_starts_a_fresh_evaluation() {
    let mut done = finish_rollout(evaluating(7, Some(9)), false).unwrap();
    done.last_evaluated_candidate_requests = Some(3);
    let next = reconfigure_rollout(done, Some(9090), Some(500), 1_000, 60).unwrap();
    assert_eq!(next.candidate, Some(9090));
    assert_eq!(next.phase, RolloutPhase::Evaluating);
    assert_eq!(next.deadline_millis, Some(61_000));
    assert_eq!(next.last_decision, None);
    assert_eq!(next.last_evaluated_candidate_requests, None);
    assert_eq!(next.generation, 9);
    let same = reconfigure_rollout(next, None, Some(0), 2_000, 60).unwrap();
    assert_eq!(same.phase, RolloutPhase::Evaluating);
    assert_eq!(same.deadline_millis, Some(61_000));
    assert_eq!(same.generation, 10);
}
