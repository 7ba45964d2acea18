//! End-to-end tests of the relay core: registration, authorization,
//! queueing, the worker cycle, retry accounting and archive retention.

use mayl::config::Config;
use mayl::domains::DomainDirectory;
use mayl::errors::ErrorKind;
use mayl::queue::DeliveryQueue;
use mayl::queue::DeliveryStatus;
use mayl::queue::MailMessage;
use mayl::relay::Relay;
use mayl::transport::validate_message;
use mayl::trusted::now_millis;

fn test_config(archive_max_rows: u64) -> Config {
    Config {
        smtp_host: "localhost".to_string(),
        smtp_port: 1025,
        server_host: "0.0.0.0".to_string(),
        server_port: 8080,
        queue_poll_seconds: 5,
        archive_max_rows,
        archive_cull_interval_seconds: 600,
        db_path: "mayl.db".to_string(),
        seed_domains: Vec::new(),
    }
}

fn fresh_relay() -> Relay {
    Relay::new(test_config(100_000), String::new(), String::new())
}

fn message(from: &str, to: &[&str], subject: &str, body: &str) -> MailMessage {
    MailMessage {
        from: from.to_string(),
        to: to.iter().map(|s| s.to_string()).collect(),
        subject: subject.to_string(),
        body: body.to_string(),
        html: None,
    }
}

#[test]
fn test_seed_domains() {
    let mut d = DomainDirectory::new();
    d.seed(&vec!["example.com".to_string(), "test.org".to_string()], 0);
    assert_eq!(d.rows.len(), 2);

    // Seeding again should not duplicate
    d.seed(&vec!["example.com".to_string()], 0);
    assert_eq!(d.rows.len(), 2);
}

#[test]
fn test_domain_token_lookup() {
    let mut d = DomainDirectory::new();
    d.register_with_token("example.com", "test-token-abc".to_string(), 0)
        .unwrap();
    let domain = d.lookup_by_token("test-token-abc").unwrap();
    assert_eq!(domain, "example.com");
}

#[test]
fn test_queue_insert_and_read() {
    let mut q = DeliveryQueue::new();
    let now = now_millis();
    let msg = message("a@b.com", &["c@d.com"], "hi", "hello");
    q.enqueue(&msg, "test-id-123".to_string(), now).unwrap();

    let row = q.rows.iter().find(|r| r.id == "test-id-123").unwrap();
    assert_eq!(row.status, DeliveryStatus::Pending);
}

#[test]
fn registration_validates_and_conflicts() {
    let mut relay = fresh_relay();
    let err = relay.register_domain("", 0).unwrap_err();
    assert_eq!(err.kind, ErrorKind::Validation);
    let err = relay.register_domain("nodot", 0).unwrap_err();
    assert_eq!(err.kind, ErrorKind::Validation);

    let first = relay.register_domain("  Example.COM ", 0).unwrap();
    assert_eq!(first.domain, "example.com");
    assert_eq!(first.token.len(), 36);

    // registering again fails with a conflict and keeps the original token
    let err = relay.register_domain("example.com", 1).unwrap_err();
    assert_eq!(err.kind, ErrorKind::Conflict);
    let still = relay.domains.lookup_by_token(&first.token).unwrap();
    assert_eq!(still, "example.com");

    // distinct registrations draw distinct tokens
    let second = relay.register_domain("other.net", 2).unwrap();
    assert_ne!(second.token, first.token);
}

#[test]
fn listing_is_sorted_and_delete_revokes() {
    let mut relay = fresh_relay();
    relay.register_domain("zeta.org", 0).unwrap();
    let resp = relay.register_domain("alpha.org", 1).unwrap();
    relay.register_domain("mid.org", 2).unwrap();

    let names: Vec<String> = relay.list_domains().into_iter().map(|e| e.domain).collect();
    assert_eq!(names, vec!["alpha.org", "mid.org", "zeta.org"]);

    let err = relay.delete_domain("missing.org").unwrap_err();
    assert_eq!(err.kind, ErrorKind::NotFound);

    relay.delete_domain("Alpha.ORG").unwrap();
    assert!(relay.domains.lookup_by_token(&resp.token).is_none());
    assert_eq!(relay.list_domains().len(), 2);
}

#[test]
fn submit_requires_token_and_scopes_it() {
    let mut relay = fresh_relay();
    let resp = relay.register_domain("example.com", 0).unwrap();
    let msg = message("a@example.com", &["b@x.com"], "hi", "body");

    let err = relay.submit(None, &msg, 1).unwrap_err();
    assert_eq!(err.kind, ErrorKind::Auth);

    let err = relay.submit(Some("wrong-token"), &msg, 1).unwrap_err();
    assert_eq!(err.kind, ErrorKind::Auth);

    let bad_from = message("not-an-address", &["b@x.com"], "hi", "body");
    let err = relay.submit(Some(&resp.token), &bad_from, 1).unwrap_err();
    assert_eq!(err.kind, ErrorKind::Validation);

    let no_to = message("a@example.com", &[], "hi", "body");
    let err = relay.submit(Some(&resp.token), &no_to, 1).unwrap_err();
    assert_eq!(err.kind, ErrorKind::Validation);

    // the domain comparison is case-insensitive
    let shouting = message("A@EXAMPLE.COM", &["b@x.com"], "hi", "body");
    let receipt = relay.submit(Some(&resp.token), &shouting, 1).unwrap();
    assert_eq!(receipt.status, "queued");
}

#[test]
fn scenario_queue_round_trip() {
    let mut relay = fresh_relay();
    let resp = relay.register_domain("example.com", 0).unwrap();
    let msg = message("a@example.com", &["b@x.com"], "hi", "body");

    let created = now_millis();
    let receipt = relay.submit(Some(&resp.token), &msg, created).unwrap();
    assert_eq!(receipt.status, "queued");
    assert_eq!(relay.health().queue_size, 1);
    assert_eq!(relay.queue.rows[0].status, DeliveryStatus::Pending);

    // one worker cycle against a transport that always succeeds
    let batch = relay.claim_batch(10);
    assert_eq!(batch.len(), 1);
    assert_eq!(relay.queue.rows[0].status, DeliveryStatus::Sending);
    let sent_at = now_millis();
    relay.record_delivery_success(&batch[0], sent_at);

    assert_eq!(relay.health().queue_size, 0);
    assert_eq!(relay.health().archive_size, 1);
    let row = &relay.archive.rows[0];
    assert_eq!(row.queue_id, receipt.id);
    assert_eq!(row.from, "a@example.com");
    assert_eq!(row.to, vec!["b@x.com"]);
    assert_eq!(row.subject, "hi");
    assert_eq!(row.body, "body");
    assert!(row.sent_at >= created);
}

#[test]
fn scenario_forbidden_leaves_state_unchanged() {
    let mut relay = fresh_relay();
    let resp = relay.register_domain("example.com", 0).unwrap();
    let msg = message("a@other.com", &["b@x.com"], "hi", "body");

    let err = relay.submit(Some(&resp.token), &msg, 1).unwrap_err();
    assert_eq!(err.kind, ErrorKind::Forbidden);
    assert_eq!(relay.health().queue_size, 0);
    assert_eq!(relay.health().archive_size, 0);
}

#[test]
fn retry_accounting_keeps_the_row() {
    let mut relay = fresh_relay();
    let resp = relay.register_domain("example.com", 0).unwrap();
    let msg = message("a@example.com", &["b@x.com"], "hi", "body");
    relay.submit(Some(&resp.token), &msg, 1).unwrap();

    let batch = relay.claim_batch(10);
    assert_eq!(batch.len(), 1);
    relay.record_delivery_failure(&batch[0].id, "smtp send: connection refused");

    assert_eq!(relay.health().queue_size, 1);
    let row = &relay.queue.rows[0];
    assert_eq!(row.status, DeliveryStatus::Pending);
    assert_eq!(row.attempts, 1);
    assert_eq!(row.last_error.as_deref(), Some("smtp send: connection refused"));
    assert_eq!(relay.retrying_count(), 1);

    // the next cycle picks it up again; a second failure counts again
    let batch = relay.claim_batch(10);
    assert_eq!(batch.len(), 1);
    relay.record_delivery_failure(&batch[0].id, "still down");
    assert_eq!(relay.queue.rows[0].attempts, 2);
    assert_eq!(relay.health().queue_size, 1);
}

#[test]
fn claiming_is_fifo_and_bounded() {
    let mut relay = fresh_relay();
    let resp = relay.register_domain("example.com", 0).unwrap();
    for i in 0..4 {
        let msg = message("a@example.com", &["b@x.com"], "s", "b");
        relay.submit(Some(&resp.token), &msg, 100 + i).unwrap();
    }
    let batch = relay.claim_batch(2);
    assert_eq!(batch.len(), 2);
    assert_eq!(batch[0].id, relay.queue.rows[0].id);
    assert_eq!(batch[1].id, relay.queue.rows[1].id);
    assert_eq!(relay.queue.rows[0].status, DeliveryStatus::Sending);
    assert_eq!(relay.queue.rows[2].status, DeliveryStatus::Pending);
    // a second claim skips what is already in flight
    let batch2 = relay.claim_batch(10);
    assert_eq!(batch2.len(), 2);
    assert_ne!(batch2[0].id, batch[0].id);
}

#[test]
fn scenario_retention_keeps_most_recent() {
    let mut relay = Relay::new(test_config(2), String::new(), String::new());
    let resp = relay.register_domain("example.com", 0).unwrap();
    for i in 0..3 {
        let msg = message("a@example.com", &["b@x.com"], "s", "b");
        relay.submit(Some(&resp.token), &msg, 100 + i).unwrap();
        let batch = relay.claim_batch(10);
        assert_eq!(batch.len(), 1);
        relay.record_delivery_success(&batch[0], 200 + i);
    }
    assert_eq!(relay.health().archive_size, 3);
    let newest: Vec<i64> = relay.archive.rows.iter().map(|r| r.id).collect();

    let deleted = relay.cull_archive();
    assert_eq!(deleted, 1);
    assert_eq!(relay.health().archive_size, 2);
    let kept: Vec<i64> = relay.archive.rows.iter().map(|r| r.id).collect();
    assert_eq!(kept, newest[1..].to_vec());

    // culling an archive already within the ceiling is a no-op
    let deleted = relay.cull_archive();
    assert_eq!(deleted, 0);
    assert_eq!(relay.health().archive_size, 2);
}

#[test]
fn sync_path_records_when_saving() {
    let mut relay = fresh_relay();
    let resp = relay.register_domain("example.com", 0).unwrap();
    let msg = message("a@example.com", &["b@x.com"], "hi", "body");

    relay.begin_sync_send(Some(&resp.token), &msg).unwrap();
    let receipt = relay.record_sent_fresh(&msg, true, 500);
    assert_eq!(receipt.status, "sent");
    assert_eq!(relay.health().archive_size, 1);
    assert_eq!(relay.archive.rows[0].queue_id, receipt.id);
    assert_eq!(relay.health().queue_size, 0);

    // without save, nothing is archived
    let receipt = relay.record_sent_fresh(&msg, false, 501);
    assert_eq!(receipt.status, "sent");
    assert_eq!(relay.health().archive_size, 1);
}

#[test]
fn duplicate_queue_id_is_a_persistence_error() {
    let mut relay = fresh_relay();
    let resp = relay.register_domain("example.com", 0).unwrap();
    let msg = message("a@example.com", &["b@x.com"], "hi", "body");
    relay
        .submit_queued(Some(&resp.token), &msg, "dup".to_string(), 1)
        .unwrap();
    let err = relay
        .submit_queued(Some(&resp.token), &msg, "dup".to_string(), 2)
        .unwrap_err();
    assert_eq!(err.kind, ErrorKind::Persistence);
    assert_eq!(relay.health().queue_size, 1);
}

#[test]
fn transport_credentials_are_validated_and_swapped() {
    let mut relay = fresh_relay();
    let status = relay.transport_status();
    assert!(!status.configured);
    assert_eq!(status.user, "");

    let err = relay
        .set_transport_credentials("user".to_string(), String::new())
        .unwrap_err();
    assert_eq!(err.kind, ErrorKind::Validation);
    let err = relay
        .set_transport_credentials(String::new(), "pass".to_string())
        .unwrap_err();
    assert_eq!(err.kind, ErrorKind::Validation);

    relay
        .set_transport_credentials("user".to_string(), "secret".to_string())
        .unwrap();
    let status = relay.transport_status();
    assert!(status.configured);
    assert_eq!(status.user, "user");
}

#[test]
fn mailbox_validation_gates_transport() {
    let ok = validate_message("a@example.com", &vec!["b@x.com".to_string()]);
    assert!(ok.is_ok());
    let ok = validate_message(
        "Name <a@example.com>",
        &vec!["b@x.com".to_string(), "c@y.org".to_string()],
    );
    assert!(ok.is_ok());

    let err = validate_message("not-an-address", &vec!["b@x.com".to_string()]).unwrap_err();
    assert_eq!(err.kind, ErrorKind::Transport);
    let err = validate_message("a@example.com", &vec!["nope".to_string()]).unwrap_err();
    assert_eq!(err.kind, ErrorKind::Transport);
}

#[test]
fn seeding_skips_invalid_entries() {
    let mut d = DomainDirectory::new();
    d.seed(
        &vec!["".to_string(), "nodot".to_string(), "ok.example".to_string()],
        0,
    );
    assert_eq!(d.rows.len(), 1);
    assert_eq!(d.rows[0].domain, "ok.example");
}
