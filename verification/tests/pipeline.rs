use zero2prod::idempotency::BeginOutcome;
use zero2prod::idempotency::IdempotencyStore;
use zero2prod::idempotency::StoredResponse;
use zero2prod::issuance::IssueSubmission;
use zero2prod::issuance::ServiceState;
use zero2prod::issuance::SubmitError;
use zero2prod::issuance::submit_issue;
use zero2prod::queue::Claim;
use zero2prod::worker::DeliveryAttemptOutcome;
use zero2prod::worker::SendFailure;
use zero2prod::worker::classify_send_result;
use zero2prod::worker::resolve_attempt;

fn submission(key: &str) -> IssueSubmission {
    IssueSubmission {
        title: "Newsletter".to_string(),
        html_content: "<p>Newsletter body as html</p>".to_string(),
        text_content: "Newsletter body as plain text".to_string(),
        idempotency_key: key.to_string(),
    }
}

fn three_subscribers() -> Vec<String> {
    vec![
        "ann@example.com".to_string(),
        "bob@example.com".to_string(),
        "cei@example.com".to_string(),
    ]
}

#[test]
fn a_fresh_submission_creates_one_issue_one_record_and_one_task_per_subscriber() {
    let mut state = ServiceState::new();
    let subs = three_subscribers();
    let r = submit_issue(&mut state, 7, &submission("key-1"), &subs, 100, true);
    let resp = r.unwrap();
    assert_eq!(resp.status_code, 303);
    assert_eq!(resp.headers.len(), 1);
    assert_eq!(resp.headers[0].0, "Location");
    assert_eq!(resp.headers[0].1, "/admin/newsletters");
    assert_eq!(state.issues.len(), 1);
    assert_eq!(state.issues[0].title, "Newsletter");
    assert_eq!(state.issues[0].issue_id, 0);
    assert_eq!(state.queue.live_task_count(), 3);
    assert_eq!(state.store.record_count(), 1);
    for email in &subs {
        assert!(state.queue.has_task_for(0, email));
    }
}

#[test]
fn a_repeated_submission_replays_the_response_and_creates_no_rows() {
    let mut state = ServiceState::new();
    let subs = three_subscribers();
    let r1 = submit_issue(&mut state, 7, &submission("key-1"), &subs, 100, true).unwrap();
    // The retry arrives later, with more subscribers confirmed meanwhile:
    // neither matters for a completed key.
    let mut more = subs.clone();
    more.push("dee@example.com".to_string());
    let r2 = submit_issue(&mut state, 7, &submission("key-1"), &more, 200, true).unwrap();
    assert_eq!(r1.status_code, r2.status_code);
    assert_eq!(r1.body, r2.body);
    assert_eq!(r1.headers, r2.headers);
    assert_eq!(state.issues.len(), 1);
    assert_eq!(state.queue.live_task_count(), 3);
    assert_eq!(state.store.record_count(), 1);
}

#[test]
fn a_different_key_issues_again_and_a_different_principal_is_a_different_key() {
    let mut state = ServiceState::new();
    let subs = three_subscribers();
    submit_issue(&mut state, 7, &submission("key-1"), &subs, 100, true).unwrap();
    // Same key, different principal: a fresh request.
    submit_issue(&mut state, 8, &submission("key-1"), &subs, 110, true).unwrap();
    // Same principal, different key: a fresh request.
    submit_issue(&mut state, 7, &submission("key-2"), &subs, 120, true).unwrap();
    assert_eq!(state.issues.len(), 3);
    assert_eq!(state.queue.live_task_count(), 9);
    assert_eq!(state.store.record_count(), 3);
}

#[test]
fn an_invalid_submission_is_rejected_without_side_effects() {
    let mut state = ServiceState::new();
    let subs = three_subscribers();
    let mut bad = submission("key-1");
    bad.title = "".to_string();
    let r = submit_issue(&mut state, 7, &bad, &subs, 100, true);
    assert!(matches!(r, Err(SubmitError::InvalidSubmission)));
    assert_eq!(state.issues.len(), 0);
    assert_eq!(state.queue.live_task_count(), 0);
    assert_eq!(state.store.record_count(), 0);
}

#[test]
fn empty_html_and_empty_text_are_rejected_too() {
    let mut state = ServiceState::new();
    let subs = three_subscribers();
    let mut bad = submission("key-1");
    bad.html_content = "".to_string();
    assert!(matches!(
        submit_issue(&mut state, 7, &bad, &subs, 100, true),
        Err(SubmitError::InvalidSubmission)
    ));
    let mut bad = submission("key-1");
    bad.text_content = "".to_string();
    assert!(matches!(
        submit_issue(&mut state, 7, &bad, &subs, 100, true),
        Err(SubmitError::InvalidSubmission)
    ));
    assert_eq!(state.store.record_count(), 0);
}

#[test]
fn a_key_held_by_another_execution_is_a_conflict() {
    let mut state = ServiceState::new();
    let subs = three_subscribers();
    // Another execution has reserved the key and is still in flight.
    let key = "key-1".to_string();
    let out = state.store.begin(7, &key, 90);
    assert!(matches!(out, BeginOutcome::Fresh));
    let r = submit_issue(&mut state, 7, &submission("key-1"), &subs, 100, true);
    assert!(matches!(r, Err(SubmitError::KeyInFlight)));
    assert_eq!(state.issues.len(), 0);
    assert_eq!(state.queue.live_task_count(), 0);
}

#[test]
fn a_failed_transaction_rolls_back_whole_and_a_retry_fans_out_exactly_once() {
    let mut state = ServiceState::new();
    let subs = three_subscribers();
    let r = submit_issue(&mut state, 7, &submission("key-1"), &subs, 100, false);
    assert!(matches!(r, Err(SubmitError::TransactionFailed)));
    // Nothing is visible: no issue, no tasks, no idempotency record.
    assert_eq!(state.issues.len(), 0);
    assert_eq!(state.queue.live_task_count(), 0);
    assert_eq!(state.store.record_count(), 0);
    // The identical request with the same key succeeds and produces the
    // full fan-out exactly once.
    let r = submit_issue(&mut state, 7, &submission("key-1"), &subs, 110, true);
    assert!(r.is_ok());
    assert_eq!(state.issues.len(), 1);
    assert_eq!(state.queue.live_task_count(), 3);
    assert_eq!(state.store.record_count(), 1);
}

#[test]
fn a_subscriber_confirmed_after_the_fan_out_gets_no_task() {
    let mut state = ServiceState::new();
    let subs = vec!["ann@example.com".to_string(), "bob@example.com".to_string()];
    submit_issue(&mut state, 7, &submission("key-1"), &subs, 100, true).unwrap();
    // One second later a third subscriber confirms: the committed fan-out
    // is a point-in-time snapshot, so no task exists for them.
    let late = "cei@example.com".to_string();
    assert!(!state.queue.has_task_for(0, &late));
    assert!(state.queue.has_task_for(0, &subs[0]));
    assert!(state.queue.has_task_for(0, &subs[1]));
}

#[test]
fn one_worker_pass_with_one_timeout_leaves_one_task_for_the_next_pass() {
    let mut state = ServiceState::new();
    let subs = three_subscribers();
    submit_issue(&mut state, 7, &submission("key-1"), &subs, 100, true).unwrap();
    assert_eq!(state.queue.live_task_count(), 3);

    // First worker pass: each task is claimed once; the send succeeds for
    // two subscribers and times out for one.
    let mut claims = Vec::new();
    while let Some(claim) = state.queue.claim_next() {
        claims.push(claim);
    }
    assert_eq!(claims.len(), 3);
    for claim in claims {
        let outcome = if claim.task.subscriber_email == "bob@example.com" {
            classify_send_result(Err(SendFailure::Transient("timeout".to_string())))
        } else {
            classify_send_result(Ok(()))
        };
        let rep = resolve_attempt(&mut state.queue, claim, outcome, 101);
        assert!(rep.is_none());
    }
    assert_eq!(state.queue.live_task_count(), 1);

    // Second pass: the remaining task is the timed-out one, with one
    // attempt recorded, and the send now succeeds.
    let claim = state.queue.claim_next().unwrap();
    assert_eq!(claim.task.subscriber_email, "bob@example.com");
    assert_eq!(claim.task.n_attempts, 1);
    assert_eq!(claim.task.last_attempted_at, Some(101));
    let rep = resolve_attempt(&mut state.queue, claim, DeliveryAttemptOutcome::Sent, 102);
    assert!(rep.is_none());
    assert_eq!(state.queue.live_task_count(), 0);
    assert!(state.queue.claim_next().is_none());
}

#[test]
fn concurrent_claims_never_hold_the_same_task() {
    let mut state = ServiceState::new();
    let subs = three_subscribers();
    submit_issue(&mut state, 7, &submission("key-1"), &subs, 100, true).unwrap();
    // Three claimants take tasks before any resolution: all distinct.
    let c1 = state.queue.claim_next().unwrap();
    let c2 = state.queue.claim_next().unwrap();
    let c3 = state.queue.claim_next().unwrap();
    let claims = [&c1, &c2, &c3];
    for a in 0..3 {
        for b in 0..3 {
            if a != b {
                assert_ne!(claims[a].slot_index, claims[b].slot_index);
                assert_ne!(
                    claims[a].task.subscriber_email,
                    claims[b].task.subscriber_email
                );
            }
        }
    }
    assert!(state.queue.claim_next().is_none());
}

#[test]
fn a_terminally_resolved_task_is_never_claimable_again() {
    let mut state = ServiceState::new();
    let subs = vec!["ann@example.com".to_string(), "bob@example.com".to_string()];
    submit_issue(&mut state, 7, &submission("key-1"), &subs, 100, true).unwrap();
    let c1 = state.queue.claim_next().unwrap();
    let delivered = c1.task.subscriber_email.clone();
    resolve_attempt(&mut state.queue, c1, DeliveryAttemptOutcome::Sent, 101);
    let c2 = state.queue.claim_next().unwrap();
    let rejected = c2.task.subscriber_email.clone();
    assert_ne!(delivered, rejected);
    let rep = resolve_attempt(
        &mut state.queue,
        c2,
        DeliveryAttemptOutcome::PermanentFailure("mailbox does not exist".to_string()),
        102,
    )
    .unwrap();
    assert_eq!(rep.issue_id, 0);
    assert_eq!(rep.subscriber_email, rejected);
    assert_eq!(rep.reason, "mailbox does not exist");
    // Both resolutions were terminal: nothing is claimable, ever.
    assert!(state.queue.claim_next().is_none());
    assert_eq!(state.queue.live_task_count(), 0);
    assert!(!state.queue.has_task_for(0, &delivered));
    assert!(!state.queue.has_task_for(0, &rejected));
}

#[test]
fn a_transient_failure_requeues_the_task_with_a_higher_attempt_count() {
    let mut state = ServiceState::new();
    let subs = vec!["ann@example.com".to_string()];
    submit_issue(&mut state, 7, &submission("key-1"), &subs, 100, true).unwrap();
    let c: Claim = state.queue.claim_next().unwrap();
    assert_eq!(c.task.n_attempts, 0);
    resolve_attempt(
        &mut state.queue,
        c,
        DeliveryAttemptOutcome::TransientFailure("connection reset".to_string()),
        101,
    );
    let again = state.queue.claim_next().unwrap();
    assert_eq!(again.task.subscriber_email, "ann@example.com");
    assert_eq!(again.task.n_attempts, 1);
    // An unexpected worker error is also treated as transient.
    resolve_attempt(
        &mut state.queue,
        again,
        DeliveryAttemptOutcome::WorkerError("issue lookup failed".to_string()),
        102,
    );
    let third = state.queue.claim_next().unwrap();
    assert_eq!(third.task.n_attempts, 2);
}

#[test]
fn classification_maps_the_mail_result_onto_the_three_resolutions() {
    assert!(matches!(
        classify_send_result(Ok(())),
        DeliveryAttemptOutcome::Sent
    ));
    match classify_send_result(Err(SendFailure::Permanent("bad address".to_string()))) {
        DeliveryAttemptOutcome::PermanentFailure(m) => assert_eq!(m, "bad address"),
        _ => panic!("a permanent rejection must resolve permanently"),
    }
    match classify_send_result(Err(SendFailure::Transient("HTTP 503".to_string()))) {
        DeliveryAttemptOutcome::TransientFailure(m) => assert_eq!(m, "HTTP 503"),
        _ => panic!("a transient condition must be retried"),
    }
}

#[test]
fn the_store_replays_a_completed_response_and_frees_a_rolled_back_key() {
    let mut store = IdempotencyStore::new();
    let key = "key-9".to_string();
    assert!(matches!(store.begin(3, &key, 50), BeginOutcome::Fresh));
    // The begin above reserved the key; a second begin sees it in flight.
    assert!(matches!(store.begin(3, &key, 51), BeginOutcome::InFlight));
    // The transaction rolls back: the key is fresh again.
    store.roll_back_reservation(3, &key);
    assert_eq!(store.record_count(), 0);
    assert!(matches!(store.begin(3, &key, 52), BeginOutcome::Fresh));
    // This time the work completes.
    store.complete(
        3,
        &key,
        StoredResponse {
            status_code: 200,
            headers: vec![("Content-Type".to_string(), "text/plain".to_string())],
            body: "done".to_string(),
        },
    );
    match store.begin(3, &key, 53) {
        BeginOutcome::Completed(resp) => {
            assert_eq!(resp.status_code, 200);
            assert_eq!(resp.headers[0].0, "Content-Type");
            assert_eq!(resp.body, "done");
        },
        _ => panic!("a completed key must replay its response"),
    }
    assert_eq!(store.record_count(), 1);
}

#[test]
fn workers_can_render_the_issue_a_claimed_task_references() {
    let mut state = ServiceState::new();
    let subs = vec!["ann@example.com".to_string()];
    submit_issue(&mut state, 7, &submission("key-1"), &subs, 100, true).unwrap();
    let claim = state.queue.claim_next().unwrap();
    let issue = state.find_issue(claim.task.issue_id).unwrap();
    assert_eq!(issue.title, "Newsletter");
    assert_eq!(issue.html_content, "<p>Newsletter body as html</p>");
    assert_eq!(issue.text_content, "Newsletter body as plain text");
    assert_eq!(issue.created_at, 100);
    assert!(state.find_issue(99).is_none());
}
