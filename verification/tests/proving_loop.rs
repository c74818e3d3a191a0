use nexus_cli::prover::ProverError;
use nexus_cli::proving_loop::{
    attempt_outcome, proof_event, start_line, AnonymousLoop, AttemptOutcome, BatchAnonymousLoop,
    BatchNodeLoop, LoopAction, NodeLoop, Reporting,
};

fn say(a: &LoopAction) -> &str {
    match a {
        LoopAction::Say(s) => s.as_str(),
        other => panic!("expected a line, got {:?}", other),
    }
}

fn sleep(a: &LoopAction) -> u64 {
    match a {
        LoopAction::Sleep(n) => *n,
        other => panic!("expected a pause, got {:?}", other),
    }
}

fn track(a: &LoopAction) -> i32 {
    match a {
        LoopAction::Track(n) => *n,
        other => panic!("expected a report, got {:?}", other),
    }
}

fn console() -> Reporting {
    Reporting::Console("[Node-7]".to_string())
}

#[test]
fn batch_success_reports_and_waits_the_interval() {
    let mut l = BatchNodeLoop::new(console(), 3);
    let a = l.record_attempt(AttemptOutcome::Succeeded);
    assert_eq!(a.len(), 3);
    assert_eq!(say(&a[0]), "[Node-7] ✅ Proof #1 completed successfully");
    assert_eq!(track(&a[1]), 2);
    assert_eq!(sleep(&a[2]), 3);
    assert_eq!(l.proof_count, 2);
    assert_eq!(l.consecutive_failures, 0);
    assert_eq!(l.attempt, 1);
}

#[test]
fn batch_console_failures_retry_then_give_up_on_the_proof() {
    let mut l = BatchNodeLoop::new(console(), 3);
    for attempt in 1..5 {
        let a = l.record_attempt(AttemptOutcome::Failed("Orchestrator error: down".to_string()));
        assert_eq!(a.len(), 1);
        assert_eq!(sleep(&a[0]), 2);
        assert_eq!(l.attempt, attempt + 1);
    }
    let a = l.record_attempt(AttemptOutcome::Failed("Orchestrator error: down".to_string()));
    assert_eq!(a.len(), 2);
    assert_eq!(
        say(&a[0]),
        "[Node-7] ❌ Proof #1 failed: Attempt #5 failed: Orchestrator error: down (attempt 1/∞)"
    );
    assert_eq!(sleep(&a[1]), 10);
    assert_eq!(l.proof_count, 1);
    assert_eq!(l.consecutive_failures, 1);
    assert_eq!(l.attempt, 1);
}

#[test]
fn batch_console_rate_limits_wait_a_minute() {
    let mut l = BatchNodeLoop::new(console(), 3);
    let a = l.record_attempt(AttemptOutcome::RateLimited("slow".to_string()));
    assert_eq!(say(&a[0]), "[Node-7] 🚫 Rate limited (429) - waiting 60s before retry");
    assert_eq!(sleep(&a[1]), 60);
    assert_eq!(a.len(), 2);
    for _ in 0..3 {
        l.record_attempt(AttemptOutcome::RateLimited("slow".to_string()));
    }
    let a = l.record_attempt(AttemptOutcome::RateLimited("slow".to_string()));
    assert_eq!(a.len(), 4);
    assert_eq!(sleep(&a[1]), 60);
    assert_eq!(
        say(&a[2]),
        "[Node-7] ❌ Proof #1 failed: Rate limited after 5 attempts (attempt 1/∞)"
    );
    assert_eq!(sleep(&a[3]), 10);
}

#[test]
fn batch_status_lines() {
    let mut l = BatchNodeLoop::new(Reporting::Status, 4);
    let a = l.record_attempt(AttemptOutcome::Failed("boom".to_string()));
    assert_eq!(say(&a[0]), "⚠️ Attempt 1/5 failed: boom");
    assert_eq!(say(&a[1]), "🔄 Retrying in 2s...");
    assert_eq!(sleep(&a[2]), 2);
    let a = l.record_attempt(AttemptOutcome::RateLimited("[429] busy".to_string()));
    assert_eq!(a.len(), 3);
    assert_eq!(say(&a[0]), "🚫 Rate limited: [429] busy - waiting 60s");
    assert_eq!(sleep(&a[1]), 60);
    assert_eq!(say(&a[2]), "⚠️ Attempt 2/5 failed: Rate limited");
    l.record_attempt(AttemptOutcome::Failed("boom".to_string()));
    l.record_attempt(AttemptOutcome::Failed("boom".to_string()));
    let a = l.record_attempt(AttemptOutcome::Failed("boom".to_string()));
    assert_eq!(a.len(), 4);
    assert_eq!(say(&a[0]), "⚠️ Attempt 5/5 failed: boom");
    assert_eq!(say(&a[1]), "❌ Proof #1 failed: boom (retry 1/∞)");
    assert_eq!(say(&a[2]), "🔄 Waiting 10s before retry...");
    assert_eq!(sleep(&a[3]), 10);
    let a = l.record_attempt(AttemptOutcome::Succeeded);
    assert_eq!(say(&a[0]), "✅ Proof #1 completed successfully");
    assert_eq!(track(&a[1]), 2);
    assert_eq!(sleep(&a[2]), 4);
    assert_eq!(l.consecutive_failures, 0);
}

#[test]
fn batch_counters_follow_history() {
    // Twelve failures since the last success: two failed proofs, attempt 3.
    let mut l = BatchNodeLoop::new(Reporting::Status, 1);
    l.record_attempt(AttemptOutcome::Succeeded);
    for _ in 0..12 {
        l.record_attempt(AttemptOutcome::Failed("x".to_string()));
    }
    assert_eq!(l.proof_count, 2);
    assert_eq!(l.consecutive_failures, 2);
    assert_eq!(l.attempt, 3);
}

#[test]
fn outcomes_from_results() {
    assert!(matches!(attempt_outcome(Ok(())), AttemptOutcome::Succeeded));
    match attempt_outcome(Err(ProverError::RateLimited("m".into()))) {
        AttemptOutcome::RateLimited(m) => assert_eq!(m, "m"),
        other => panic!("unexpected {:?}", other),
    }
    match attempt_outcome(Err(ProverError::Orchestrator("down".into()))) {
        AttemptOutcome::Failed(m) => assert_eq!(m, "Orchestrator error: down"),
        other => panic!("unexpected {:?}", other),
    }
}

#[test]
fn anonymous_batch_console() {
    let mut l = BatchAnonymousLoop::new(Reporting::Console("[Anonymous]".to_string()), 5);
    let a = l.record_proof(Some("Stwo prover error: x".to_string()));
    assert_eq!(say(&a[0]), "[Anonymous] ❌ Proof #1 failed (attempt 1/∞): Stwo prover error: x");
    assert_eq!(sleep(&a[1]), 5);
    assert_eq!(a.len(), 2);
    let a = l.record_proof(None);
    assert_eq!(say(&a[0]), "[Anonymous] ✅ Proof #1 completed successfully");
    assert_eq!(track(&a[1]), 1);
    assert_eq!(sleep(&a[2]), 5);
    assert_eq!(l.proof_count, 2);
    assert_eq!(l.consecutive_failures, 0);
}

#[test]
fn anonymous_batch_status() {
    let mut l = BatchAnonymousLoop::new(Reporting::Status, 9);
    l.record_proof(Some("e".to_string()));
    let a = l.record_proof(Some("e".to_string()));
    assert_eq!(say(&a[0]), "❌ Proof #1 failed: e (retry 2/∞)");
    assert_eq!(say(&a[1]), "🔄 Waiting 5s before retry...");
    assert_eq!(sleep(&a[2]), 5);
    assert_eq!(l.consecutive_failures, 2);
}

#[test]
fn single_node_loop_moves_on_after_three_attempts() {
    let mut l = NodeLoop::new();
    let a = l.record_attempt(false);
    assert_eq!(sleep(&a[0]), 2);
    let a = l.record_attempt(false);
    assert_eq!(sleep(&a[0]), 2);
    let a = l.record_attempt(false);
    assert_eq!(a.len(), 1);
    assert_eq!(track(&a[0]), 2);
    assert_eq!(l.attempt, 1);
    let a = l.record_attempt(true);
    assert_eq!(track(&a[0]), 3);
    assert_eq!(l.proof_count, 3);
}

#[test]
fn single_anonymous_loop() {
    let mut l = AnonymousLoop::new();
    let a = l.record_proof(true);
    assert_eq!(track(&a[0]), 1);
    assert_eq!(sleep(&a[1]), 2);
    let a = l.record_proof(false);
    assert_eq!(a.len(), 1);
    assert_eq!(sleep(&a[0]), 2);
    assert_eq!(l.proof_count, 3);
}

#[test]
fn start_lines() {
    assert_eq!(start_line(&console(), true), "[Node-7] 🚀 Started");
    assert_eq!(
        start_line(&Reporting::Console("[Anonymous]".into()), false),
        "[Anonymous] 🚀 Started (anonymous mode)"
    );
    assert_eq!(start_line(&Reporting::Status, true), "🚀 Starting authenticated mode");
    assert_eq!(start_line(&Reporting::Status, false), "🚀 Starting anonymous mode");
}

#[test]
fn proof_events() {
    let ev = proof_event(Some(12345), 4);
    assert_eq!(ev.event_name, "cli_proof_node_v2");
    assert_eq!(ev.description, "Completed proof iteration #4");
    assert_eq!(ev.client_id, "89af2df214317989ed233cbeffe82f0c");
    let ev = proof_event(None, 2);
    assert_eq!(ev.event_name, "cli_proof_anon_v2");
    assert_eq!(ev.description, "Completed anon proof iteration #2");
    assert_eq!(ev.client_id, "294de3557d9d00b3d2d8a1e6aab028cf");
}

#[test]
fn batch_status_rate_limited_last_attempt() {
    let mut l = BatchNodeLoop::new(Reporting::Status, 4);
    for _ in 0..4 {
        l.record_attempt(AttemptOutcome::RateLimited("busy".to_string()));
    }
    let a = l.record_attempt(AttemptOutcome::RateLimited("busy".to_string()));
    assert_eq!(a.len(), 6);
    assert_eq!(say(&a[0]), "🚫 Rate limited: busy - waiting 60s");
    assert_eq!(sleep(&a[1]), 60);
    assert_eq!(say(&a[2]), "⚠️ Attempt 5/5 failed: Rate limited");
    assert_eq!(say(&a[3]), "❌ Proof #1 failed: Rate limited (retry 1/∞)");
    assert_eq!(say(&a[4]), "🔄 Waiting 10s before retry...");
    assert_eq!(sleep(&a[5]), 10);
}
