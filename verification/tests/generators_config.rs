use monitoring_core::config::{
    default_auth_mode, default_batch_size, default_compression, default_connect_timeout,
    default_flush_interval, default_max_batch_size, default_max_events, default_request_timeout,
    default_system_interval, default_workers, expand_token, resolve_hostname, AgentConfig,
    AgentSettings, BufferSettings, CollectorConfigs, CollectorSettings, LogCollectorConfig,
    MetricsCollectorConfig, TrafficCollectorConfig,
};
use monitoring_core::events::Event;
use monitoring_core::storage::console_line;
use monitoring_core::testdata::{
    generate_log_events, generate_metric_events, generate_traffic_events,
};

#[test]
fn test_default_config() {
    let config = AgentConfig {
        agent: AgentSettings {
            id: "test-agent".to_string(),
            hostname: "test-host".to_string(),
            tags: vec!["env:test".to_string()],
        },
        collector: CollectorSettings {
            endpoint: "wss://localhost:8080/ingest".to_string(),
            auth_token: Some("test-token".to_string()),
            tls_ca_cert: None,
            client_cert: None,
            client_key: None,
            connect_timeout_secs: 30,
            request_timeout_secs: 60,
        },
        buffer: BufferSettings {
            max_events: 10000,
            flush_interval_secs: 60,
            max_batch_size: 1000,
            compression: "snappy".to_string(),
        },
        collectors: CollectorConfigs {
            logs: LogCollectorConfig {
                enabled: true,
                files: vec![],
                journald_units: vec![],
                exclude_patterns: vec![],
            },
            metrics: MetricsCollectorConfig {
                enabled: true,
                system_interval_secs: 10,
                prometheus_endpoints: vec![],
                include_process_metrics: false,
            },
            traffic: TrafficCollectorConfig {
                enabled: false,
                interface: None,
                protocols: vec![],
                sample_rate: "0.1".to_string(),
                capture_payload: false,
            },
        },
    };

    assert_eq!(config.agent.id, "test-agent");
}

#[test]
fn defaults_match_the_documented_values() {
    assert_eq!(default_max_events(), 10000);
    assert_eq!(default_flush_interval(), 60);
    assert_eq!(default_max_batch_size(), 1000);
    assert_eq!(default_compression(), "snappy");
    assert_eq!(default_system_interval(), 10);
    assert_eq!(default_connect_timeout(), 30);
    assert_eq!(default_request_timeout(), 60);
    assert_eq!(default_auth_mode(), "token");
    assert_eq!(default_workers(), 4);
    assert_eq!(default_batch_size(), 1000);
}

#[test]
fn env_references_expand_and_plain_tokens_stand() {
    assert_eq!(
        expand_token("${TOKEN_VAR}".to_string(), Some("resolved".to_string())),
        Some("resolved".to_string())
    );
    assert_eq!(expand_token("${TOKEN_VAR}".to_string(), None), None);
    assert_eq!(
        expand_token("plain-secret".to_string(), None),
        Some("plain-secret".to_string())
    );
    // almost-references stand for themselves
    assert_eq!(
        expand_token("${open".to_string(), None),
        Some("${open".to_string())
    );
}

#[test]
fn hostname_falls_back_to_the_machine() {
    assert_eq!(
        resolve_hostname("given".to_string(), Some("machine".to_string())),
        "given"
    );
    assert_eq!(
        resolve_hostname(String::new(), Some("machine".to_string())),
        "machine"
    );
    assert_eq!(resolve_hostname(String::new(), None), "unknown");
}

#[test]
fn test_generate_log_events() {
    let events = generate_log_events(10);
    assert_eq!(events.len(), 10);

    for event in events {
        match event {
            Event::Log(log) => {
                assert!(!log.message.is_empty());
                assert!(!log.source.is_empty());
            },
            _ => panic!("Expected log event"),
        }
    }
}

#[test]
fn test_generate_metric_events() {
    let events = generate_metric_events(5);
    assert_eq!(events.len(), 15);

    for event in events {
        match event {
            Event::Metric(metric) => {
                assert!(!metric.name.is_empty());
                assert!(metric.value.parse::<f64>().unwrap() >= 0.0);
            },
            _ => panic!("Expected metric event"),
        }
    }
}

#[test]
fn test_generate_traffic_events() {
    let events = generate_traffic_events(10);
    assert_eq!(events.len(), 10);

    for event in events {
        match event {
            Event::Traffic(traffic) => {
                assert!(!traffic.src_ip.is_empty());
                assert!(!traffic.dst_ip.is_empty());
                assert!(traffic.bytes > 0);
            },
            _ => panic!("Expected traffic event"),
        }
    }
}

#[test]
fn console_lines_render_the_identifying_fields() {
    let log = Event::Log(monitoring_core::events::LogEvent {
        timestamp: 0,
        source: "syslog".to_string(),
        level: monitoring_core::events::LogLevel::Warning,
        message: "disk nearly full".to_string(),
        fields: Vec::new(),
        tags: Vec::new(),
    });
    assert_eq!(
        console_line(&log),
        "[LOG] 1970-01-01 00:00:00 | syslog | warning | disk nearly full"
    );

    let metric = Event::Metric(monitoring_core::events::MetricEvent {
        timestamp: 0,
        name: "system.cpu.usage".to_string(),
        value: "42.5".to_string(),
        metric_type: monitoring_core::events::MetricType::Gauge,
        tags: Vec::new(),
        unit: Some("%".to_string()),
    });
    assert_eq!(
        console_line(&metric),
        "[METRIC] 1970-01-01 00:00:00 | system.cpu.usage = 42.5 %"
    );

    let traffic = Event::Traffic(monitoring_core::events::TrafficEvent {
        timestamp: 0,
        protocol: monitoring_core::events::Protocol::TCP,
        src_ip: "192.168.1.2".to_string(),
        dst_ip: "10.0.0.3".to_string(),
        src_port: 50000,
        dst_port: 443,
        bytes: 10,
        packets: 1,
        metadata: Vec::new(),
    });
    assert_eq!(
        console_line(&traffic),
        "[TRAFFIC] 1970-01-01 00:00:00 | TCP | 192.168.1.2:50000 -> 10.0.0.3:443"
    );
}
