use monitoring_core::auth::{authorize_upgrade, extract_token, AuthDecision, TokenValidator};
use monitoring_core::compressor::{checksum_hex, Compressor};
use monitoring_core::config::{ProcessorSettings, StorageSettings};
use monitoring_core::events::{
    Batch, CompressionType, Event, IngestStatus, MetricEvent, MetricType, UncompressedBatch,
};
use monitoring_core::intake::{dispatch_frame, enrich_events, BatchProcessor, FrameAction,
    InboundFrame};
use monitoring_core::retry::RetryPolicy;
use monitoring_core::transport::{ConnAction, ConnEvent, ConnState, ConnectionFsm};
use monitoring_core::wire::batch_to_json;

fn processor() -> BatchProcessor<monitoring_core::storage::ConsoleBackend> {
    BatchProcessor::new(
        ProcessorSettings { workers: 4, batch_size: 1000 },
        StorageSettings {
            backend: "console".to_string(),
            clickhouse_url: None,
            postgres_url: None,
            s3_bucket: None,
            s3_region: None,
        },
    )
}

fn metric_with_empty_tags() -> Event {
    Event::Metric(MetricEvent {
        timestamp: 77,
        name: "m".to_string(),
        value: "1".to_string(),
        metric_type: MetricType::Counter,
        tags: Vec::new(),
        unit: None,
    })
}

#[test]
fn enrichment_attaches_agent_identity() {
    let enriched = enrich_events(vec![metric_with_empty_tags()], "a1", "h1");
    assert_eq!(enriched.len(), 1);
    match &enriched[0] {
        Event::Metric(m) => {
            assert!(m.tags.contains(&("agent_id".to_string(), "a1".to_string())));
            assert!(m.tags.contains(&("hostname".to_string(), "h1".to_string())));
        },
        _ => panic!("expected a metric event"),
    }
}

#[test]
fn enrichment_rebinds_existing_keys() {
    let mut tags = Vec::new();
    tags.push(("agent_id".to_string(), "stale".to_string()));
    tags.push(("zone".to_string(), "z1".to_string()));
    let event = Event::Metric(MetricEvent {
        timestamp: 1,
        name: "m".to_string(),
        value: "2".to_string(),
        metric_type: MetricType::Gauge,
        tags,
        unit: None,
    });
    let enriched = enrich_events(vec![event], "fresh", "h");
    match &enriched[0] {
        Event::Metric(m) => {
            assert!(!m.tags.contains(&("agent_id".to_string(), "stale".to_string())));
            assert!(m.tags.contains(&("agent_id".to_string(), "fresh".to_string())));
            assert!(m.tags.contains(&("zone".to_string(), "z1".to_string())));
        },
        _ => panic!("expected a metric event"),
    }
}

#[test]
fn enrichment_appends_log_tags() {
    let log = Event::Log(monitoring_core::events::LogEvent {
        timestamp: 1,
        source: "s".to_string(),
        level: monitoring_core::events::LogLevel::Info,
        message: "m".to_string(),
        fields: Vec::new(),
        tags: vec!["env:test".to_string()],
    });
    let enriched = enrich_events(vec![log], "a1", "h1");
    match &enriched[0] {
        Event::Log(l) => {
            assert_eq!(
                l.tags,
                vec![
                    "env:test".to_string(),
                    "agent_id:a1".to_string(),
                    "hostname:h1".to_string(),
                ]
            );
        },
        _ => panic!("expected a log event"),
    }
}

#[test]
fn handle_text_full_path_succeeds() {
    let batch = Compressor::compress(
        UncompressedBatch {
            batch_id: "b-77".to_string(),
            agent_id: "a1".to_string(),
            hostname: "h1".to_string(),
            timestamp: 5,
            events: vec![metric_with_empty_tags()],
        },
        CompressionType::Snappy,
    )
    .unwrap();
    let frame = batch_to_json(&batch);
    let response = processor().handle_text(frame, 99);
    assert_eq!(response.batch_id, "b-77");
    assert!(matches!(response.status, IngestStatus::Success));
    assert_eq!(response.received_at, 99);
}

#[test]
fn handle_text_rejects_unparsable_frames() {
    let response = processor().handle_text(b"not json".to_vec(), 3);
    assert_eq!(response.batch_id, "unknown");
    assert!(matches!(response.status, IngestStatus::Rejected));
    assert_eq!(response.error_message, Some("invalid batch format".to_string()));
}

#[test]
fn handle_text_rejects_corrupted_batches() {
    let mut batch = Compressor::compress(
        UncompressedBatch {
            batch_id: "b-1".to_string(),
            agent_id: "a".to_string(),
            hostname: "h".to_string(),
            timestamp: 0,
            events: vec![metric_with_empty_tags()],
        },
        CompressionType::Snappy,
    )
    .unwrap();
    let last = batch.compressed_data.len() - 1;
    batch.compressed_data[last] ^= 0x01;
    let response = processor().handle_text(batch_to_json(&batch), 3);
    assert_eq!(response.batch_id, "b-1");
    assert!(matches!(response.status, IngestStatus::Rejected));
    // the rejection names the checksum check
    assert!(response.error_message.unwrap().contains("checksum"));
}

#[test]
fn handle_text_rejects_lz4_batches() {
    let data = vec![1u8, 2, 3];
    let batch = Batch {
        batch_id: "b-lz4".to_string(),
        agent_id: "a".to_string(),
        hostname: "h".to_string(),
        timestamp: 0,
        event_count: 0,
        compression: CompressionType::Lz4,
        checksum: checksum_hex(&data),
        compressed_data: data,
    };
    let response = processor().handle_text(batch_to_json(&batch), 4);
    assert_eq!(response.batch_id, "b-lz4");
    assert!(matches!(response.status, IngestStatus::Rejected));
}

#[test]
fn frame_dispatch_follows_the_receive_rules() {
    match dispatch_frame(InboundFrame::Text(vec![1, 2])) {
        FrameAction::ProcessText(t) => assert_eq!(t, vec![1, 2]),
        _ => panic!("text should be processed"),
    }
    match dispatch_frame(InboundFrame::Ping(vec![9])) {
        FrameAction::ReplyPong(d) => assert_eq!(d, vec![9]),
        _ => panic!("ping should be answered with pong"),
    }
    assert!(matches!(dispatch_frame(InboundFrame::Binary(vec![0])), FrameAction::Ignore));
    assert!(matches!(dispatch_frame(InboundFrame::Pong(vec![0])), FrameAction::Ignore));
    assert!(matches!(dispatch_frame(InboundFrame::Close), FrameAction::Stop));
    assert!(matches!(dispatch_frame(InboundFrame::Failure), FrameAction::Stop));
}

#[test]
fn connection_fsm_reconnects_with_backoff() {
    let mut fsm = ConnectionFsm::new(RetryPolicy::new(2, 1000, 60000));
    assert!(matches!(fsm.step(ConnEvent::Start), ConnAction::OpenStream));
    assert!(matches!(fsm.state, ConnState::Connecting));
    assert!(matches!(fsm.step(ConnEvent::ConnectSucceeded), ConnAction::Proceed));
    assert!(matches!(fsm.state, ConnState::Connected));
    // a failed send prices a sleep and a reconnect with the same batch
    match fsm.step(ConnEvent::SendFailed) {
        ConnAction::SleepMs(d) => assert!((800..=1200).contains(&d)),
        _ => panic!("first failure should back off"),
    }
    assert!(matches!(fsm.state, ConnState::Backoff));
    assert!(matches!(fsm.step(ConnEvent::BackoffElapsed), ConnAction::OpenStream));
    assert!(matches!(fsm.state, ConnState::Connecting));
    // a successful reconnect restores the retry budget
    fsm.step(ConnEvent::ConnectSucceeded);
    assert_eq!(fsm.policy.current_attempt(), 0);
}

#[test]
fn connection_fsm_exhausts_the_budget() {
    let mut fsm = ConnectionFsm::new(RetryPolicy::new(1, 1000, 60000));
    fsm.step(ConnEvent::Start);
    assert!(matches!(fsm.step(ConnEvent::ConnectFailed), ConnAction::SleepMs(_)));
    fsm.step(ConnEvent::BackoffElapsed);
    assert!(matches!(fsm.step(ConnEvent::ConnectFailed), ConnAction::GiveUp));
    assert!(matches!(fsm.state, ConnState::Exhausted));
}

#[test]
fn test_token_generation_and_validation() {
    let validator = TokenValidator::new("test-secret".to_string());

    let token = validator.generate_token("test-agent", 24).unwrap();
    let claims = validator.validate_token(&token).unwrap();

    assert_eq!(claims.sub, "test-agent");
    assert_eq!(claims.exp, claims.iat + 24 * 3600);
}

#[test]
fn claims_are_built_over_the_given_clock() {
    let claims = monitoring_core::auth::build_claims("agent-7", 24, 1_000_000);
    assert_eq!(claims.sub, "agent-7");
    assert_eq!(claims.iat, 1_000_000);
    assert_eq!(claims.exp, 1_000_000 + 24 * 3600);
    // expiry saturates instead of wrapping
    let capped = monitoring_core::auth::build_claims("agent-7", u64::MAX, 5);
    assert_eq!(capped.exp, usize::MAX);
}

#[test]
fn validation_rejects_a_wrong_secret() {
    let validator = TokenValidator::new("test-secret".to_string());
    let token = validator.generate_token("test-agent", 24).unwrap();
    let other = TokenValidator::new("other-secret".to_string());
    assert!(other.validate_token(&token).is_err());
}

#[test]
fn token_extraction_prefers_the_bearer_header() {
    let header = Some("Bearer abc".to_string());
    let query = Some("from-query".to_string());
    assert_eq!(extract_token(&header, &query), Some("abc".to_string()));
    assert_eq!(extract_token(&None, &query), Some("from-query".to_string()));
    // blank tokens count as absent
    assert_eq!(extract_token(&Some("Bearer    ".to_string()), &None), None);
    assert_eq!(extract_token(&Some("Token abc".to_string()), &None), None);
    assert_eq!(extract_token(&None, &Some("  ".to_string())), None);
    assert_eq!(extract_token(&None, &None), None);
}

#[test]
fn upgrade_without_any_token_is_unauthorized() {
    let decision = authorize_upgrade(
        &"token".to_string(),
        &Some("secret".to_string()),
        &None,
        &None,
    );
    assert!(matches!(decision, AuthDecision::Unauthorized));
}

#[test]
fn upgrade_decisions_cover_modes_and_secrets() {
    // modes outside token and hybrid pass untouched
    assert!(matches!(
        authorize_upgrade(&"mtls".to_string(), &None, &None, &None),
        AuthDecision::Allow
    ));
    // token mode without a configured secret is a server error
    assert!(matches!(
        authorize_upgrade(&"token".to_string(), &None, &None, &None),
        AuthDecision::ServerError
    ));
    // a forged token is refused
    assert!(matches!(
        authorize_upgrade(
            &"token".to_string(),
            &Some("secret".to_string()),
            &Some("Bearer not-a-jwt".to_string()),
            &None,
        ),
        AuthDecision::Unauthorized
    ));
    // a real token under the same secret is accepted
    let validator = TokenValidator::new("secret".to_string());
    let token = validator.generate_token("agent-9", 1).unwrap();
    assert!(matches!(
        authorize_upgrade(
            &"hybrid".to_string(),
            &Some("secret".to_string()),
            &Some(format!("Bearer {}", token)),
            &None,
        ),
        AuthDecision::Allow
    ));
}
