//! End-to-end scenarios: the driver's loop replayed over the library's
//! decision functions, from seed page to final statistics.

use audit_log_collector::api_connection::{handle_content_fetch, handle_page_fetch};
use audit_log_collector::collector::{Filters, ResultProcessor};
use audit_log_collector::coordinator::{BlobRetry, Coordinator};
use audit_log_collector::data_structures::{ContentToRetrieve, StatusMessage};
use audit_log_collector::known_blobs::KnownBlobs;

fn page_body_two_blobs() -> String {
    let b1 = r#"{"contentUri":"https://feed/b1","contentId":"b1","contentExpiration":"2030-01-01T00:00:00.000Z"}"#;
    let b2 = r#"{"contentUri":"https://feed/b2","contentId":"b2","contentExpiration":"2030-01-01T00:00:00.000Z"}"#;
    format!("[{},{}]", b1, b2)
}

fn log_body(id: &str) -> String {
    format!(r#"[{{"Id":"{}","CreationTime":"2024-01-01T00:00:00"}}]"#, id)
}

#[test]
fn s1_single_feed_single_page_two_blobs() {
    let ct = "Audit.Exchange".to_string();
    let known = KnownBlobs::new();
    let body = page_body_two_blobs();

    // page discovery: one page, no continuation
    let actions = handle_page_fetch(&ct, &"seed".to_string(), true, Some(&body), None, &known, 1);
    assert_eq!(actions.content.len(), 2);
    assert_eq!(actions.next_pages.len(), 0);
    assert_eq!(actions.page_errors.len(), 0);
    assert_eq!(
        actions.statuses,
        vec![
            StatusMessage::FoundNewContentBlob,
            StatusMessage::FoundNewContentBlob,
            StatusMessage::FinishedContentBlobs,
        ]
    );
    assert_eq!(actions.content[0].content_id, "b1");
    assert_eq!(actions.content[0].url, "https://feed/b1");
    assert_eq!(actions.content[1].content_id, "b2");

    // coordinator: one seed page
    let mut coord = Coordinator::new(1, 3);
    let mut stop = false;
    for msg in &actions.statuses {
        stop = coord.handle_status(msg, 0);
    }
    assert!(!stop);
    assert_eq!(coord.state.awaiting_content_types, 0);
    assert_eq!(coord.state.awaiting_content_blobs, 2);

    // blob fetches succeed; processor consumes the results
    let mut proc = ResultProcessor::new(500000, KnownBlobs::new(), Filters::new());
    for (i, blob) in actions.content.into_iter().enumerate() {
        let text = log_body(if i == 0 { "l1" } else { "l2" });
        let fetched = handle_content_fetch(blob, true, Some(text));
        assert_eq!(fetched.statuses, vec![StatusMessage::RetrievedContentBlob]);
        let (msg, content) = fetched.result.expect("successful fetch yields a result");
        let (amount, batches) = proc.handle_content(&msg, &content);
        assert_eq!(amount, 1);
        assert!(batches.is_empty());
        stop = coord.handle_status(&fetched.statuses[0], 0);
    }
    assert!(stop);
    assert!(coord.check_done());

    // final flush: one batch of two records, both tagged with their feed
    let batch = proc.flush();
    let exchange = batch.bucket_at(2);
    assert_eq!(exchange.len(), 2);
    for rec in exchange.iter() {
        assert_eq!(
            rec.get("OriginFeed").map(|s| s.as_str()),
            Some("\"Audit.Exchange\"")
        );
    }
    assert_eq!(proc.saved, 2);

    // statistics and known blobs
    assert_eq!(coord.final_stats(), (2, 2, 0, 0));
    assert_eq!(proc.known_blobs.len(), 2);
    assert!(proc.known_blobs.contains("b1"));
    assert!(proc.known_blobs.contains("b2"));
    let on_disk = audit_log_collector::known_blobs::serialize_known(&proc.known_blobs);
    assert_eq!(on_disk.lines().count(), 2);
    assert!(on_disk.ends_with('\n'));
}

#[test]
fn s2_pagination() {
    let ct = "Audit.General".to_string();
    let known = KnownBlobs::new();
    let page1 = r#"[{"contentUri":"https://feed/b1","contentId":"b1","contentExpiration":"2030-01-01T00:00:00.000Z"}]"#.to_string();
    let page2 = r#"[{"contentUri":"https://feed/b2","contentId":"b2","contentExpiration":"2030-01-01T00:00:00.000Z"}]"#.to_string();

    let mut coord = Coordinator::new(1, 3);
    let a1 = handle_page_fetch(
        &ct,
        &"page-1".to_string(),
        true,
        Some(&page1),
        Some("page-2".to_string()),
        &known,
        1,
    );
    assert_eq!(a1.statuses, vec![StatusMessage::FoundNewContentBlob]);
    assert_eq!(a1.next_pages, vec![(ct.clone(), "page-2".to_string())]);
    for msg in &a1.statuses {
        coord.handle_status(msg, 0);
    }

    let a2 = handle_page_fetch(&ct, &"page-2".to_string(), true, Some(&page2), None, &known, 1);
    assert_eq!(
        a2.statuses,
        vec![
            StatusMessage::FoundNewContentBlob,
            StatusMessage::FinishedContentBlobs,
        ]
    );
    let mut feed_finished = 0;
    for msg in a1.statuses.iter().chain(a2.statuses.iter()) {
        if matches!(msg, StatusMessage::FinishedContentBlobs) {
            feed_finished += 1;
        }
    }
    assert_eq!(feed_finished, 1);
    for msg in &a2.statuses {
        coord.handle_status(msg, 0);
    }
    assert_eq!(coord.state.awaiting_content_blobs, 2);
    assert_eq!(coord.state.stats.blobs_found, 2);

    let mut stop = false;
    for blob in a1.content.into_iter().chain(a2.content.into_iter()) {
        let fetched = handle_content_fetch(blob, true, Some("[]".to_string()));
        stop = coord.handle_status(&fetched.statuses[0], 0);
    }
    assert!(stop);
    assert_eq!(coord.state.stats.blobs_successful, 2);

    // a duplicate feed-finished signal is benign: the counter saturates
    let again = coord.handle_status(&StatusMessage::FinishedContentBlobs, 0);
    assert!(again);
    assert_eq!(coord.state.awaiting_content_types, 0);
}

fn blob(url: &str, id: &str) -> ContentToRetrieve {
    ContentToRetrieve {
        content_type: "Audit.Exchange".to_string(),
        content_id: id.to_string(),
        expiration: "2030-01-01T00:00:00.000Z".to_string(),
        url: url.to_string(),
    }
}

#[test]
fn s3_retry_and_recover() {
    let mut coord = Coordinator::new(1, 3);
    coord.handle_status(&StatusMessage::FinishedContentBlobs, 0);
    coord.handle_status(&StatusMessage::FoundNewContentBlob, 0);

    let mut attempts = 0;
    let mut pending = vec![blob("https://feed/b1", "b1")];
    let mut stop = false;
    while let Some(b) = pending.pop() {
        attempts += 1;
        let transient_failure = attempts <= 2;
        let fetched = if transient_failure {
            handle_content_fetch(b, false, None)
        } else {
            handle_content_fetch(b, true, Some(log_body("l1")))
        };
        for msg in &fetched.statuses {
            stop = coord.handle_status(msg, 0);
        }
        for err in fetched.content_errors {
            match coord.handle_blob_error(err) {
                BlobRetry::Requeue(again) => pending.push(again),
                BlobRetry::GiveUp => panic!("budget must not run out in this scenario"),
            }
        }
    }
    assert!(stop);
    assert_eq!(coord.state.stats.blobs_retried, 2);
    assert_eq!(coord.state.stats.blobs_successful, 1);
    assert_eq!(coord.state.stats.blobs_error, 0);
    assert!(coord.check_done());
}

#[test]
fn s4_retry_exhaustion() {
    let mut coord = Coordinator::new(1, 2);
    coord.handle_status(&StatusMessage::FinishedContentBlobs, 0);
    coord.handle_status(&StatusMessage::FoundNewContentBlob, 0);

    let mut give_ups = 0;
    let mut pending = vec![blob("https://feed/b1", "b1")];
    while let Some(b) = pending.pop() {
        let fetched = handle_content_fetch(b, false, None);
        for err in fetched.content_errors {
            match coord.handle_blob_error(err) {
                BlobRetry::Requeue(again) => pending.push(again),
                BlobRetry::GiveUp => give_ups += 1,
            }
        }
    }
    assert_eq!(give_ups, 1);
    assert_eq!(coord.state.stats.blobs_error, 1);
    assert_eq!(coord.state.awaiting_content_blobs, 0);
    assert!(coord.should_stop(false));
    // counter balance at termination: found == successful + errored + give-ups
    assert_eq!(
        coord.state.stats.blobs_found as u128,
        coord.state.stats.blobs_successful as u128 + coord.blob_status_errors as u128
            + coord.blob_give_ups as u128
    );
}

#[test]
fn s5_known_blob_skip() {
    let ct = "Audit.Exchange".to_string();
    let mut known = KnownBlobs::new();
    known.insert("b1".to_string(), "2030-01-01T00:00:00.000Z".to_string());

    let body = page_body_two_blobs();
    let actions = handle_page_fetch(&ct, &"seed".to_string(), true, Some(&body), None, &known, 1);
    assert_eq!(actions.content.len(), 1);
    assert_eq!(actions.content[0].content_id, "b2");
    let found = actions
        .statuses
        .iter()
        .filter(|m| matches!(m, StatusMessage::FoundNewContentBlob))
        .count();
    assert_eq!(found, 1);

    // after the run the store holds the preloaded blob and the fetched one
    let mut proc = ResultProcessor::new(10, known, Filters::new());
    let fetched = handle_content_fetch(actions.content.into_iter().next().unwrap(), true, Some(log_body("l2")));
    let (msg, content) = fetched.result.unwrap();
    proc.handle_content(&msg, &content);
    assert!(proc.known_blobs.contains("b1"));
    assert!(proc.known_blobs.contains("b2"));
}

#[test]
fn s6_throttle_backoff() {
    let mut coord = Coordinator::new(1, 3);
    // two URLs have already failed once each: budgets exist
    coord.handle_status(&StatusMessage::FoundNewContentBlob, 0);
    coord.handle_status(&StatusMessage::FoundNewContentBlob, 0);
    coord.handle_blob_error(blob("https://feed/u1", "u1"));
    coord.handle_blob_error(blob("https://feed/u2", "u2"));
    let remaining_before: Vec<usize> = coord
        .budget
        .entries
        .iter()
        .map(|e| e.1.remaining)
        .collect();
    assert_eq!(remaining_before, vec![2, 2]);

    // a throttle message is outstanding: backoff starts at t=100
    coord.handle_status(&StatusMessage::BeingThrottled, 100);
    assert!(coord.state.rate_limited);

    // two simultaneous failures while throttled: both re-enqueued, budgets unchanged
    assert!(matches!(
        coord.handle_blob_error(blob("https://feed/u1", "u1")),
        BlobRetry::Requeue(_)
    ));
    assert!(matches!(
        coord.handle_blob_error(blob("https://feed/u2", "u2")),
        BlobRetry::Requeue(_)
    ));
    let remaining_during: Vec<usize> = coord
        .budget
        .entries
        .iter()
        .map(|e| e.1.remaining)
        .collect();
    assert_eq!(remaining_during, remaining_before);

    // before 30 seconds have passed nothing clears
    coord.release_backoff(120);
    assert!(coord.state.rate_limited);
    // after 30 seconds the backoff clears and failures consume budget again
    coord.release_backoff(131);
    assert!(!coord.state.rate_limited);
    coord.handle_blob_error(blob("https://feed/u1", "u1"));
    let remaining_after: Vec<usize> = coord
        .budget
        .entries
        .iter()
        .map(|e| e.1.remaining)
        .collect();
    assert_eq!(remaining_after, vec![1, 2]);
}

#[test]
fn kill_signal_stops_loop() {
    let coord = Coordinator::new(3, 3);
    assert!(!coord.should_stop(false));
    assert!(coord.should_stop(true));
}

#[test]
fn duplicate_mode_multiplies_blob_pushes() {
    let ct = "DLP.All".to_string();
    let known = KnownBlobs::new();
    let body = r#"[{"contentUri":"https://feed/b1","contentId":"b1","contentExpiration":"2030-01-01T00:00:00.000Z"}]"#.to_string();
    let actions = handle_page_fetch(&ct, &"seed".to_string(), true, Some(&body), None, &known, 3);
    assert_eq!(actions.content.len(), 3);
    for c in &actions.content {
        assert_eq!(c.content_id, "b1");
    }
    let found = actions
        .statuses
        .iter()
        .filter(|m| matches!(m, StatusMessage::FoundNewContentBlob))
        .count();
    assert_eq!(found, 3);
}

#[test]
fn page_error_routes_and_throttle_signal() {
    let ct = "Audit.General".to_string();
    let known = KnownBlobs::new();
    let body = "Too Many Requests, slow down".to_string();
    let actions =
        handle_page_fetch(&ct, &"page".to_string(), false, Some(&body), None, &known, 1);
    assert_eq!(actions.statuses, vec![StatusMessage::BeingThrottled]);
    assert_eq!(actions.page_errors, vec![(ct.clone(), "page".to_string())]);
    assert!(actions.content.is_empty());
    assert!(actions.next_pages.is_empty());

    // an undecodable page body keeps the paging decision but routes the page
    let garbage = "not json".to_string();
    let a2 = handle_page_fetch(&ct, &"page".to_string(), true, Some(&garbage), None, &known, 1);
    assert_eq!(a2.statuses, vec![StatusMessage::FinishedContentBlobs]);
    assert_eq!(a2.page_errors, vec![(ct.clone(), "page".to_string())]);

    // an empty page yields exactly one feed-finished and nothing else
    let empty = "[]".to_string();
    let a3 = handle_page_fetch(&ct, &"page".to_string(), true, Some(&empty), None, &known, 1);
    assert_eq!(a3.statuses, vec![StatusMessage::FinishedContentBlobs]);
    assert!(a3.page_errors.is_empty());
    assert!(a3.content.is_empty());
}

#[test]
fn page_give_up_releases_feed_slot() {
    let mut coord = Coordinator::new(1, 1);
    // retries = 1: the first failure enters the budget with 0 attempts left
    match coord.handle_page_error("Audit.General".to_string(), "page".to_string()) {
        audit_log_collector::coordinator::PageRetry::Requeue(_, _) => {}
        audit_log_collector::coordinator::PageRetry::GiveUp => panic!("first failure re-enqueues"),
    }
    match coord.handle_page_error("Audit.General".to_string(), "page".to_string()) {
        audit_log_collector::coordinator::PageRetry::Requeue(_, _) => {
            panic!("exhausted budget must give up")
        }
        audit_log_collector::coordinator::PageRetry::GiveUp => {}
    }
    assert_eq!(coord.state.awaiting_content_types, 0);
    assert_eq!(coord.page_give_ups, 1);
    assert_eq!(coord.state.stats.blobs_error, 1);
    assert!(coord.check_done());
}
