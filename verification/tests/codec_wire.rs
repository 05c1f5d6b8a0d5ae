use monitoring_core::compressor::{checksum_hex, CodecError, Compressor};
use monitoring_core::events::{
    Batch, CompressionType, Event, IngestResponse, IngestStatus, LogEvent, LogLevel, MetricEvent,
    MetricType, Protocol, TrafficEvent, UncompressedBatch,
};
use monitoring_core::wire::{batch_from_json, batch_to_json, response_from_json, response_to_json};

fn sample_events() -> Vec<Event> {
    let mut fields = Vec::new();
    fields.push(("request_id".to_string(), "req_1".to_string()));
    let log = Event::Log(LogEvent {
        timestamp: 123,
        source: "test".to_string(),
        level: LogLevel::Info,
        message: "test message".to_string(),
        fields,
        tags: vec!["env:test".to_string()],
    });
    let mut tags = Vec::new();
    tags.push(("host".to_string(), "host-1".to_string()));
    let metric = Event::Metric(MetricEvent {
        timestamp: -5,
        name: "system.cpu.usage".to_string(),
        value: "20.5".to_string(),
        metric_type: MetricType::Gauge,
        tags,
        unit: Some("%".to_string()),
    });
    let traffic = Event::Traffic(TrafficEvent {
        timestamp: 9,
        protocol: Protocol::Other("QUIC".to_string()),
        src_ip: "192.168.1.9".to_string(),
        dst_ip: "10.0.0.9".to_string(),
        src_port: 50001,
        dst_port: 443,
        bytes: 2048,
        packets: 3,
        metadata: Vec::new(),
    });
    vec![log, metric, traffic]
}

fn uncompressed(events: Vec<Event>) -> UncompressedBatch {
    UncompressedBatch {
        batch_id: "test-batch".to_string(),
        agent_id: "test-agent".to_string(),
        hostname: "test-host".to_string(),
        timestamp: 123,
        events,
    }
}

fn assert_events_equal(a: &[Event], b: &[Event]) {
    assert_eq!(a.len(), b.len());
    for (x, y) in a.iter().zip(b.iter()) {
        match (x, y) {
            (Event::Log(l), Event::Log(r)) => {
                assert_eq!(l.timestamp, r.timestamp);
                assert_eq!(l.source, r.source);
                assert_eq!(l.message, r.message);
                assert_eq!(l.fields, r.fields);
                assert_eq!(l.tags, r.tags);
                assert!(matches!(
                    (l.level, r.level),
                    (LogLevel::Info, LogLevel::Info)
                        | (LogLevel::Debug, LogLevel::Debug)
                        | (LogLevel::Trace, LogLevel::Trace)
                        | (LogLevel::Warning, LogLevel::Warning)
                        | (LogLevel::Error, LogLevel::Error)
                        | (LogLevel::Critical, LogLevel::Critical)
                ));
            },
            (Event::Metric(l), Event::Metric(r)) => {
                assert_eq!(l.timestamp, r.timestamp);
                assert_eq!(l.name, r.name);
                assert_eq!(l.value, r.value);
                assert_eq!(l.tags, r.tags);
                assert_eq!(l.unit, r.unit);
            },
            (Event::Traffic(l), Event::Traffic(r)) => {
                assert_eq!(l.timestamp, r.timestamp);
                assert_eq!(l.src_ip, r.src_ip);
                assert_eq!(l.dst_ip, r.dst_ip);
                assert_eq!(l.src_port, r.src_port);
                assert_eq!(l.dst_port, r.dst_port);
                assert_eq!(l.bytes, r.bytes);
                assert_eq!(l.packets, r.packets);
                assert_eq!(l.metadata, r.metadata);
                match (&l.protocol, &r.protocol) {
                    (Protocol::Other(ln), Protocol::Other(rn)) => assert_eq!(ln, rn),
                    (Protocol::HTTP, Protocol::HTTP) => {},
                    (Protocol::HTTPS, Protocol::HTTPS) => {},
                    (Protocol::TCP, Protocol::TCP) => {},
                    (Protocol::UDP, Protocol::UDP) => {},
                    (Protocol::ICMP, Protocol::ICMP) => {},
                    _ => panic!("protocol mismatch"),
                }
            },
            _ => panic!("event shape mismatch"),
        }
    }
}

#[test]
fn test_compress_decompress() {
    let events = sample_events();
    let batch = Compressor::compress(uncompressed(events.clone()), CompressionType::Snappy)
        .unwrap();
    let decompressed = Compressor::decompress(&batch).unwrap();

    assert_eq!(decompressed.len(), events.len());
}

#[test]
fn round_trip_every_scheme() {
    let events = sample_events();
    for scheme in [
        CompressionType::NoCompression,
        CompressionType::Snappy,
        CompressionType::Gzip,
        CompressionType::Lz4,
    ] {
        let batch = Compressor::compress(uncompressed(events.clone()), scheme).unwrap();
        assert_eq!(batch.batch_id, "test-batch");
        assert_eq!(batch.agent_id, "test-agent");
        assert_eq!(batch.hostname, "test-host");
        assert_eq!(batch.event_count, events.len());
        // lz4 is not built in: the envelope records the degraded scheme.
        if matches!(scheme, CompressionType::Lz4) {
            assert!(matches!(batch.compression, CompressionType::Snappy));
        }
        let back = Compressor::decompress(&batch).unwrap();
        assert_events_equal(&back, &events);
    }
}

#[test]
fn round_trip_preserves_unicode_and_escapes() {
    let log = Event::Log(LogEvent {
        timestamp: 1,
        source: "s\"quoted\\slash".to_string(),
        level: LogLevel::Critical,
        message: "snow \u{2603} and emoji \u{1F600}\nline two\ttab".to_string(),
        fields: Vec::new(),
        tags: vec!["\u{00e9}tiquette".to_string()],
    });
    let events = vec![log];
    let batch = Compressor::compress(uncompressed(events.clone()), CompressionType::Gzip)
        .unwrap();
    let back = Compressor::decompress(&batch).unwrap();
    assert_events_equal(&back, &events);
}

#[test]
fn empty_event_list_round_trips() {
    let batch = Compressor::compress(uncompressed(Vec::new()), CompressionType::Snappy).unwrap();
    assert_eq!(batch.event_count, 0);
    let back = Compressor::decompress(&batch).unwrap();
    assert_eq!(back.len(), 0);
}

#[test]
fn corrupted_payload_is_rejected_as_checksum_mismatch() {
    let batch = Compressor::compress(uncompressed(sample_events()), CompressionType::Snappy)
        .unwrap();
    let mut bad = batch.clone();
    let last = bad.compressed_data.len() - 1;
    bad.compressed_data[last] ^= 0x01;
    assert!(matches!(
        Compressor::decompress(&bad),
        Err(CodecError::ChecksumMismatch)
    ));
}

#[test]
fn corrupted_checksum_text_is_rejected() {
    let batch = Compressor::compress(uncompressed(sample_events()), CompressionType::Gzip)
        .unwrap();
    let mut bad = batch.clone();
    bad.checksum = "0000000000000000000000000000000000000000000000000000000000000000"
        .to_string();
    assert!(matches!(
        Compressor::decompress(&bad),
        Err(CodecError::ChecksumMismatch)
    ));
}

#[test]
fn lz4_batches_are_unsupported_at_intake() {
    let data = vec![1u8, 2, 3];
    let batch = Batch {
        batch_id: "b".to_string(),
        agent_id: "a".to_string(),
        hostname: "h".to_string(),
        timestamp: 0,
        event_count: 0,
        compression: CompressionType::Lz4,
        checksum: checksum_hex(&data),
        compressed_data: data,
    };
    assert!(matches!(
        Compressor::decompress(&batch),
        Err(CodecError::UnsupportedCompression)
    ));
}

#[test]
fn garbage_with_truthful_checksum_is_malformed() {
    let data = vec![0x7Bu8, 0x00, 0xFF];
    let batch = Batch {
        batch_id: "b".to_string(),
        agent_id: "a".to_string(),
        hostname: "h".to_string(),
        timestamp: 0,
        event_count: 0,
        compression: CompressionType::NoCompression,
        checksum: checksum_hex(&data),
        compressed_data: data,
    };
    assert!(matches!(
        Compressor::decompress(&batch),
        Err(CodecError::MalformedPayload)
    ));
}

#[test]
fn checksum_is_lowercase_hex_of_payload() {
    // SHA-256 of the empty byte string, a published constant.
    let empty: Vec<u8> = Vec::new();
    assert_eq!(
        checksum_hex(&empty),
        "e3b0c44298fc1c149afbf4c8996fb92427ae41e4649b934ca495991b7852b855"
    );
}

#[test]
fn batch_wire_form_round_trips() {
    let batch = Compressor::compress(uncompressed(sample_events()), CompressionType::Snappy)
        .unwrap();
    let json = batch_to_json(&batch);
    let back = batch_from_json(&json).unwrap();
    assert_eq!(back.batch_id, batch.batch_id);
    assert_eq!(back.agent_id, batch.agent_id);
    assert_eq!(back.hostname, batch.hostname);
    assert_eq!(back.timestamp, batch.timestamp);
    assert_eq!(back.event_count, batch.event_count);
    assert_eq!(back.compressed_data, batch.compressed_data);
    assert_eq!(back.checksum, batch.checksum);
    assert!(matches!(back.compression, CompressionType::Snappy));
}

#[test]
fn response_wire_form_round_trips() {
    let response = IngestResponse {
        batch_id: "id-1".to_string(),
        status: IngestStatus::PartialSuccess,
        error_message: Some("two events dropped".to_string()),
        received_at: -42,
    };
    let json = response_to_json(&response);
    let back = response_from_json(&json).unwrap();
    assert_eq!(back.batch_id, "id-1");
    assert!(matches!(back.status, IngestStatus::PartialSuccess));
    assert_eq!(back.error_message, Some("two events dropped".to_string()));
    assert_eq!(back.received_at, -42);

    let none_resp = IngestResponse {
        batch_id: "id-2".to_string(),
        status: IngestStatus::Success,
        error_message: None,
        received_at: 0,
    };
    let back2 = response_from_json(&response_to_json(&none_resp)).unwrap();
    assert_eq!(back2.error_message, None);
    assert!(matches!(back2.status, IngestStatus::Success));
}

#[test]
fn wire_parsers_reject_trailing_bytes() {
    let response = IngestResponse {
        batch_id: "id".to_string(),
        status: IngestStatus::Failed,
        error_message: None,
        received_at: 1,
    };
    let mut json = response_to_json(&response);
    json.push(b' ');
    assert!(response_from_json(&json).is_none());
    assert!(batch_from_json(&vec![b'{']).is_none());
}
