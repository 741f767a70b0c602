use russh_core::config::ReconnectionStrategy;
use russh_core::reconnection::{AttemptDecision, ReconnectionController, ReconnectionStatus};

#[test]
fn status_tracking() {
    let mut controller = ReconnectionController::new();
    assert!(matches!(controller.status(), ReconnectionStatus::Idle));

    let strategy = ReconnectionStrategy::new(5, 10, 100).without_jitter();
    controller.begin(&strategy);
    let first = controller.next_attempt(&strategy);
    assert!(matches!(first, AttemptDecision::Attempt { number: 1, .. }));
    let second = controller.next_attempt(&strategy);
    assert!(matches!(second, AttemptDecision::Attempt { number: 2, .. }));
    match controller.status() {
        ReconnectionStatus::InProgress { attempt, max_attempts } => {
            assert_eq!(attempt, 2);
            assert_eq!(max_attempts, 5);
        }
        other => panic!("Expected InProgress, got {:?}", other),
    }
    controller.cancel_reconnection();
    assert!(matches!(controller.status(), ReconnectionStatus::Cancelled));
}

#[test]
fn exhaustion_after_exact_attempt_count() {
    // All-failing connects: exactly max_attempts attempts are handed out.
    let strategy = ReconnectionStrategy::new(3, 1, 10).without_jitter();
    let mut controller = ReconnectionController::new();
    controller.begin(&strategy);

    let mut attempts = 0;
    loop {
        match controller.next_attempt(&strategy) {
            AttemptDecision::Attempt { number, delay_before_ms } => {
                attempts += 1;
                assert_eq!(number, attempts);
                if number == 1 {
                    assert_eq!(delay_before_ms, 0);
                } else {
                    assert_eq!(
                        delay_before_ms,
                        strategy.delay_for_attempt(number - 2)
                    );
                }
                controller.record_failure("fail".to_string());
            }
            AttemptDecision::Exhausted { attempts: total, last_error } => {
                assert_eq!(total, 3);
                assert_eq!(last_error, "fail");
                break;
            }
            AttemptDecision::Cancelled => panic!("not cancelled"),
        }
    }
    assert_eq!(attempts, 3);
}

#[test]
fn success_stops_counting() {
    let strategy = ReconnectionStrategy::new(5, 1, 10).without_jitter();
    let mut controller = ReconnectionController::new();
    controller.begin(&strategy);

    // Fail twice, then succeed on the third attempt.
    for _ in 0..2 {
        match controller.next_attempt(&strategy) {
            AttemptDecision::Attempt { .. } => controller.record_failure("nope".to_string()),
            other => panic!("unexpected {:?}", other),
        }
    }
    match controller.next_attempt(&strategy) {
        AttemptDecision::Attempt { number, .. } => {
            assert_eq!(number, 3);
            controller.record_success();
        }
        other => panic!("unexpected {:?}", other),
    }
    assert!(!controller.is_reconnecting());
    assert_eq!(controller.current_attempt(), 0);
}

#[test]
fn cancellation_is_sticky() {
    let strategy = ReconnectionStrategy::new(10, 10_000, 60_000).without_jitter();
    let mut controller = ReconnectionController::new();
    controller.begin(&strategy);

    assert!(matches!(
        controller.next_attempt(&strategy),
        AttemptDecision::Attempt { number: 1, .. }
    ));
    controller.record_failure("fail".to_string());
    controller.cancel_reconnection();

    // Once cancelled, no further attempt is handed out.
    assert!(matches!(controller.next_attempt(&strategy), AttemptDecision::Cancelled));
    assert!(matches!(controller.next_attempt(&strategy), AttemptDecision::Cancelled));
    assert!(matches!(controller.status(), ReconnectionStatus::Cancelled));

    controller.reset();
    assert!(matches!(controller.status(), ReconnectionStatus::Idle));
}
