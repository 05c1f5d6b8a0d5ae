use monitoring_core::batcher::Batcher;
use monitoring_core::capture::{traffic_event_from_ipv4, Ipv4Transport};
use monitoring_core::buffer::RingBuffer;
use monitoring_core::config::{AgentSettings, BufferSettings};
use monitoring_core::events::{CompressionType, Event, LogEvent, LogLevel};
use monitoring_core::retry::RetryPolicy;

fn log_event(timestamp: i64, message: &str) -> Event {
    Event::Log(LogEvent {
        timestamp,
        source: "test".to_string(),
        level: LogLevel::Info,
        message: message.to_string(),
        fields: Vec::new(),
        tags: Vec::new(),
    })
}

#[test]
fn test_ring_buffer() {
    let mut buffer = RingBuffer::new(10);

    assert_eq!(buffer.len(), 0);
    assert!(buffer.is_empty());

    let event = log_event(123, "test");

    buffer.push(event).unwrap();
    assert_eq!(buffer.len(), 1);

    let popped = buffer.pop().unwrap();
    match popped {
        Event::Log(l) => assert_eq!(l.timestamp, 123),
        _ => panic!("expected a log event"),
    }
    assert_eq!(buffer.len(), 0);
}

#[test]
fn test_buffer_overflow() {
    let mut buffer = RingBuffer::new(2);

    buffer.push(log_event(123, "test")).unwrap();
    buffer.push(log_event(123, "test")).unwrap();

    assert!(buffer.push(log_event(123, "test")).is_err());
}

#[test]
fn test_drain() {
    let mut buffer = RingBuffer::new(10);

    for i in 0..5 {
        buffer.push(log_event(i, &format!("message {}", i))).unwrap();
    }

    let events = buffer.drain(3);
    assert_eq!(events.len(), 3);
    assert_eq!(buffer.len(), 2);
}

#[test]
fn scenario_overflow_keeps_capacity() {
    let mut buffer = RingBuffer::new(2);
    buffer.push(log_event(1, "a")).unwrap();
    buffer.push(log_event(2, "b")).unwrap();
    assert!(buffer.push(log_event(3, "c")).is_err());
    assert_eq!(buffer.len(), 2);
}

#[test]
fn drain_preserves_fifo_order() {
    let mut buffer = RingBuffer::new(8);
    for i in 0..6 {
        buffer.push(log_event(i, &format!("m{}", i))).unwrap();
    }
    let events = buffer.drain(4);
    assert_eq!(events.len(), 4);
    for (k, e) in events.iter().enumerate() {
        match e {
            Event::Log(l) => assert_eq!(l.timestamp, k as i64),
            _ => panic!("expected a log event"),
        }
    }
    assert_eq!(buffer.len(), 2);
    let rest = buffer.drain(10);
    assert_eq!(rest.len(), 2);
    assert_eq!(buffer.len(), 0);
}

#[test]
fn test_exponential_backoff() {
    let mut policy = RetryPolicy::new(3, 1000, 60000);

    let delay1 = policy.next_delay();
    assert!(delay1.is_some());
    assert!(delay1.unwrap() / 1000 <= 2);

    let delay2 = policy.next_delay();
    assert!(delay2.is_some());
    assert!(delay2.unwrap() / 1000 <= 4);

    let delay3 = policy.next_delay();
    assert!(delay3.is_some());

    let delay4 = policy.next_delay();
    assert!(delay4.is_none());
}

#[test]
fn test_reset() {
    let mut policy = RetryPolicy::new(3, 1000, 60000);

    policy.next_delay();
    policy.next_delay();
    assert_eq!(policy.current_attempt(), 2);

    policy.reset();
    assert_eq!(policy.current_attempt(), 0);
}

#[test]
fn backoff_delays_stay_within_jitter_bounds() {
    // base doubles per attempt: 1000, 2000, 4000; jitter adds at most a
    // fifth in either direction.
    let mut policy = RetryPolicy::new(3, 1000, 60000);
    let d1 = policy.next_delay().unwrap();
    assert!((800..=1200).contains(&d1));
    let d2 = policy.next_delay().unwrap();
    assert!((1600..=2400).contains(&d2));
    let d3 = policy.next_delay().unwrap();
    assert!((3200..=4800).contains(&d3));
    assert!(policy.next_delay().is_none());
    policy.reset();
    let again = policy.next_delay().unwrap();
    assert!((800..=1200).contains(&again));
}

#[test]
fn backoff_base_caps_at_max_delay() {
    let mut policy = RetryPolicy::new(10, 1000, 3000);
    policy.next_delay();
    policy.next_delay();
    // attempt 3: uncapped base would be 4000; the cap holds it at 3000.
    let d3 = policy.next_delay().unwrap();
    assert!((2400..=3600).contains(&d3));
}

#[test]
fn batcher_tick_empty_buffer_yields_nothing() {
    let batcher = Batcher::new(
        BufferSettings {
            max_events: 10,
            flush_interval_secs: 1,
            max_batch_size: 10,
            compression: "snappy".to_string(),
        },
        AgentSettings {
            id: "a1".to_string(),
            hostname: "h1".to_string(),
            tags: Vec::new(),
        },
    );
    let mut buffer = RingBuffer::new(4);
    assert!(batcher.tick(&mut buffer, "batch-1".to_string(), 5).is_none());
}

#[test]
fn batcher_tick_zero_batch_size_emits_nothing() {
    // a batch size of zero drains nothing, and no empty batch goes out
    let batcher = Batcher::new(
        BufferSettings {
            max_events: 10,
            flush_interval_secs: 1,
            max_batch_size: 0,
            compression: "snappy".to_string(),
        },
        AgentSettings {
            id: "a1".to_string(),
            hostname: "h1".to_string(),
            tags: Vec::new(),
        },
    );
    let mut buffer = RingBuffer::new(4);
    buffer.push(log_event(1, "x")).unwrap();
    assert!(batcher.tick(&mut buffer, "batch-1".to_string(), 5).is_none());
    assert_eq!(buffer.len(), 1);
}

#[test]
fn batcher_tick_drains_and_compresses() {
    let batcher = Batcher::new(
        BufferSettings {
            max_events: 10,
            flush_interval_secs: 1,
            max_batch_size: 2,
            compression: "snappy".to_string(),
        },
        AgentSettings {
            id: "a1".to_string(),
            hostname: "h1".to_string(),
            tags: Vec::new(),
        },
    );
    let mut buffer = RingBuffer::new(8);
    for i in 0..3 {
        buffer.push(log_event(i, "x")).unwrap();
    }
    let batch = batcher.tick(&mut buffer, "batch-1".to_string(), 7).unwrap().unwrap();
    assert_eq!(batch.batch_id, "batch-1");
    assert_eq!(batch.agent_id, "a1");
    assert_eq!(batch.hostname, "h1");
    assert_eq!(batch.timestamp, 7);
    assert_eq!(batch.event_count, 2);
    assert!(matches!(batch.compression, CompressionType::Snappy));
    // only max_batch_size events left the buffer
    assert_eq!(buffer.len(), 1);
}

#[test]
fn compression_name_parsing_falls_back_to_snappy() {
    let settings = |name: &str| BufferSettings {
        max_events: 1,
        flush_interval_secs: 1,
        max_batch_size: 1,
        compression: name.to_string(),
    };
    let agent = AgentSettings {
        id: "a".to_string(),
        hostname: "h".to_string(),
        tags: Vec::new(),
    };
    let b = |n: &str| Batcher::new(settings(n), agent.clone());
    assert!(matches!(b("snappy").parse_compression_type(), CompressionType::Snappy));
    assert!(matches!(b("lz4").parse_compression_type(), CompressionType::Lz4));
    assert!(matches!(b("gzip").parse_compression_type(), CompressionType::Gzip));
    assert!(matches!(b("none").parse_compression_type(), CompressionType::NoCompression));
    assert!(matches!(b("zstd").parse_compression_type(), CompressionType::Snappy));
}

#[test]
fn packet_classification_follows_the_port_table() {
    let tcp = traffic_event_from_ipv4(
        5,
        "192.168.1.2".to_string(),
        "10.0.0.3".to_string(),
        Ipv4Transport::Tcp { src_port: 50000, dst_port: 443, flags: 16 },
        1500,
    )
    .unwrap();
    match tcp {
        Event::Traffic(t) => {
            assert!(matches!(t.protocol, monitoring_core::events::Protocol::HTTPS));
            assert_eq!(t.bytes, 1500);
            assert_eq!(t.packets, 1);
            assert_eq!(t.metadata, vec![("flags".to_string(), "16".to_string())]);
        },
        _ => panic!("expected a traffic event"),
    }

    let http = traffic_event_from_ipv4(
        5,
        "a".to_string(),
        "b".to_string(),
        Ipv4Transport::Tcp { src_port: 1, dst_port: 80, flags: 0 },
        10,
    )
    .unwrap();
    match http {
        Event::Traffic(t) => {
            assert!(matches!(t.protocol, monitoring_core::events::Protocol::HTTP))
        },
        _ => panic!("expected a traffic event"),
    }

    let icmp = traffic_event_from_ipv4(
        5,
        "a".to_string(),
        "b".to_string(),
        Ipv4Transport::Icmp,
        64,
    )
    .unwrap();
    match icmp {
        Event::Traffic(t) => {
            assert!(matches!(t.protocol, monitoring_core::events::Protocol::ICMP));
            assert_eq!(t.src_port, 0);
            assert_eq!(t.dst_port, 0);
        },
        _ => panic!("expected a traffic event"),
    }

    // other IP protocols are not collected
    assert!(traffic_event_from_ipv4(
        5,
        "a".to_string(),
        "b".to_string(),
        Ipv4Transport::Other(47),
        64,
    )
    .is_none());
}
