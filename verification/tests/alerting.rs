//! Alerting, metrics extraction, webhook decisions and CLI helper tests.

use nyx::alert::{
    Alert, AlertSeverity, AlertSystem, AlertThreshold, SuppressionRule, ThresholdComparison,
};
use nyx::cli::{
    default_daemon_endpoint, derive_statistics_summary, error_rate_band, format_duration,
    latency_band, throughput_band, ConcernBand,
};
use nyx::daemon::{StreamRegistry, StreamState};
use nyx::kdf::hmac_sha256;
use nyx::report::{metric_name, severity_name, smtp_transaction, webhook_json_body};
use nyx::metrics::{
    extract_metric_value, ErrorMetrics, LayerMetrics, LayerType, MetricId, MetricsSnapshot,
    NetworkMetrics, PerformanceMetrics, SystemMetrics,
};
use nyx::webhook::{backoff_delay_ms, base64_encode, classify_scheme, SchemeDecision};
use nyx::NyxError;

fn snapshot(cpu_centi: u64, ts_ms: u64) -> MetricsSnapshot {
    MetricsSnapshot {
        timestamp_ms: ts_ms,
        system_metrics: SystemMetrics {
            cpu_usage_centi: cpu_centi,
            memory_usage_bytes: 0,
            memory_total_bytes: 0,
        },
        network_metrics: NetworkMetrics {
            total_connections: 0,
            failed_connections: 0,
        },
        performance_metrics: PerformanceMetrics {
            avg_latency_centi_ms: 0,
            packet_loss_centi: 0,
        },
        error_metrics: ErrorMetrics { error_rate_centi: 0 },
        stream_layer: None,
        mix_layer: None,
        fec_layer: None,
        transport_layer: None,
    }
}

fn cpu_only_system() -> AlertSystem {
    let mut system = AlertSystem::new();
    // keep only the plain CPU threshold (80.00 %, 300 s cooldown)
    for id in 2..=11 {
        assert!(system.remove_threshold(id));
    }
    system
}

#[test]
fn alert_fires_on_breach_and_honours_cooldown() {
    let mut system = cpu_only_system();
    let t0 = 1_000_000u64;
    // cpu 90 % breaches the 80 % threshold: one alert
    let first = system.check_thresholds(&snapshot(9000, t0), t0);
    assert_eq!(first.len(), 1);
    assert_eq!(first[0].metric, MetricId::CpuUsage);
    assert_eq!(first[0].current_value, 9000);
    assert_eq!(first[0].threshold, 8000);
    // within the 300 s cooldown nothing new fires
    let second = system.check_thresholds(&snapshot(9100, t0 + 100_000), t0 + 100_000);
    assert_eq!(second.len(), 0);
    // after 301 s the threshold fires again; the new alert replaces the
    // old one, so exactly one (cpu_usage, no layer) alert stays active
    let third = system.check_thresholds(&snapshot(9000, t0 + 301_000), t0 + 301_000);
    assert_eq!(third.len(), 1);
    let active = system.get_active_alerts();
    assert_eq!(active.len(), 1);
    assert_eq!(active[0].id, third[0].id);
}

#[test]
fn alert_resolution_moves_to_history() {
    let mut system = cpu_only_system();
    let t0 = 5_000_000u64;
    let created = system.check_thresholds(&snapshot(9000, t0), t0);
    assert_eq!(created.len(), 1);
    let id = created[0].id;
    assert!(system.resolve_alert(id, t0 + 1000).is_ok());
    let stats = system.get_alert_statistics(t0 + 2000);
    assert_eq!(stats.total_active, 0);
    assert_eq!(stats.total_resolved, 1);
    assert_eq!(stats.total_created_today, 1);
    // without a limit, history comes back in insertion order
    let history = system.get_alert_history(None);
    assert_eq!(history.len(), 2);
    assert_eq!(history[0].action, nyx::alert::AlertAction::Created);
    assert_eq!(history[1].action, nyx::alert::AlertAction::Resolved);
    assert!(history[1].alert.resolved);
    assert_eq!(history[1].alert.resolved_at_ms, Some(t0 + 1000));
    // with a limit, the most recent come first
    let recent = system.get_alert_history(Some(1));
    assert_eq!(recent.len(), 1);
    assert_eq!(recent[0].action, nyx::alert::AlertAction::Resolved);
    // resolving an unknown id fails
    assert_eq!(
        system.resolve_alert(999_999, t0),
        Err(NyxError::ConfigInvalid)
    );
}

#[test]
fn suppression_rule_caps_matching_alerts() {
    let t0 = 10_000_000u64;
    // without a rule, cpu 96 % fires both the warning and the critical
    // threshold for the same metric
    let mut free = AlertSystem::new();
    for id in 3..=11 {
        assert!(free.remove_threshold(id));
    }
    let fired = free.check_thresholds(&snapshot(9600, t0), t0);
    assert_eq!(fired.len(), 2);
    // the critical alert replaced the warning one: one active per
    // (metric, layer)
    let active = free.get_active_alerts();
    assert_eq!(active.len(), 1);
    assert_eq!(active[0].threshold, 9500);
    // under (cpu_usage, max_alerts = 1) only one may become active
    let mut capped = AlertSystem::new();
    for id in 3..=11 {
        assert!(capped.remove_threshold(id));
    }
    capped.add_suppression_rule(SuppressionRule {
        metric: Some(MetricId::CpuUsage),
        layer: None,
        max_alerts: 1,
        duration_ms: 1_000_000,
        created_at_ms: t0,
    });
    let fired = capped.check_thresholds(&snapshot(9600, t0), t0);
    assert_eq!(fired.len(), 1);
    assert_eq!(capped.get_active_alerts().len(), 1);
}

#[test]
fn custom_threshold_comparisons() {
    let mut system = AlertSystem::new();
    for id in 1..=11 {
        system.remove_threshold(id);
    }
    system.add_threshold(
        50,
        AlertThreshold {
            metric: MetricId::ErrorRate,
            threshold: 200,
            severity: AlertSeverity::Info,
            comparison: ThresholdComparison::LessThan,
            layer: None,
            enabled: true,
            cooldown_ms: 0,
            last_triggered_ms: None,
        },
    );
    let mut snap = snapshot(0, 1000);
    snap.error_metrics = ErrorMetrics { error_rate_centi: 100 };
    let fired = system.check_thresholds(&snap, 1000);
    assert_eq!(fired.len(), 1);
    assert_eq!(fired[0].severity, AlertSeverity::Info);
    // a disabled threshold never fires
    assert!(system.remove_threshold(50));
    system.add_threshold(
        50,
        AlertThreshold {
            metric: MetricId::ErrorRate,
            threshold: 200,
            severity: AlertSeverity::Info,
            comparison: ThresholdComparison::LessThan,
            layer: None,
            enabled: false,
            cooldown_ms: 0,
            last_triggered_ms: None,
        },
    );
    let fired = system.check_thresholds(&snap, 60_000);
    assert_eq!(fired.len(), 0);
}

#[test]
fn metric_extraction_honours_layers_and_ratios() {
    let mut snap = snapshot(1234, 0);
    snap.system_metrics.memory_usage_bytes = 512;
    snap.system_metrics.memory_total_bytes = 1024;
    snap.network_metrics = NetworkMetrics {
        total_connections: 10,
        failed_connections: 1,
    };
    snap.transport_layer = Some(LayerMetrics {
        throughput_centi: 777,
        error_rate_centi: 55,
        queue_depth: 3,
        active_connections: 9,
    });
    assert_eq!(extract_metric_value(&snap, MetricId::CpuUsage, None), Some(1234));
    // 512 of 1024 bytes = 50.00 %
    assert_eq!(extract_metric_value(&snap, MetricId::MemoryUsage, None), Some(5000));
    // 1 of 10 connections = 10.00 %
    assert_eq!(
        extract_metric_value(&snap, MetricId::ConnectionFailureRate, None),
        Some(1000)
    );
    assert_eq!(
        extract_metric_value(&snap, MetricId::QueueDepth, Some(LayerType::Transport)),
        Some(3)
    );
    // the layer the snapshot lacks yields nothing
    assert_eq!(
        extract_metric_value(&snap, MetricId::QueueDepth, Some(LayerType::Mix)),
        None
    );
    assert_eq!(extract_metric_value(&snap, MetricId::QueueDepth, None), None);
}

#[test]
fn routes_match_by_severity_and_layer() {
    let system = AlertSystem::new();
    let alert = Alert {
        id: 1,
        timestamp_ms: 0,
        severity: AlertSeverity::Warning,
        metric: MetricId::CpuUsage,
        current_value: 9000,
        threshold: 8000,
        layer: None,
        resolved: false,
        resolved_at_ms: None,
    };
    // the stock routes (console and log) both accept every severity
    let routes = system.routes_for(&alert);
    assert_eq!(routes, vec![0, 1]);
}

#[test]
fn webhook_decisions() {
    assert_eq!(
        classify_scheme(&"http".to_string()),
        SchemeDecision::SendHttp
    );
    assert_eq!(
        classify_scheme(&"https".to_string()),
        SchemeDecision::RejectHttps
    );
    assert_eq!(
        classify_scheme(&"ftp".to_string()),
        SchemeDecision::RejectUnsupported
    );
    assert_eq!(backoff_delay_ms(0), 200);
    assert_eq!(backoff_delay_ms(1), 400);
    assert_eq!(backoff_delay_ms(2), 800);
    assert_eq!(backoff_delay_ms(3), 1600);
    // the backoff stays capped at eight times the base
    assert_eq!(backoff_delay_ms(30), 1600);
}

#[test]
fn hmac_matches_published_test_vector() {
    // RFC 4231 test case 2
    let key = b"Jefe".to_vec();
    let msg = b"what do ya want for nothing?".to_vec();
    let tag = hmac_sha256(&key, &msg);
    let expected: Vec<u8> = vec![
        0x5b, 0xdc, 0xc1, 0x46, 0xbf, 0x60, 0x75, 0x4e, 0x6a, 0x04, 0x24, 0x26, 0x08, 0x95,
        0x75, 0xc7, 0x5a, 0x00, 0x3f, 0x08, 0x9d, 0x27, 0x39, 0x83, 0x9d, 0xec, 0x58, 0xb9,
        0x64, 0xec, 0x38, 0x43,
    ];
    assert_eq!(tag, expected);
}

#[test]
fn base64_matches_known_encoding() {
    assert_eq!(base64_encode(&b"abc".to_vec()), "YWJj".to_string());
    assert_eq!(base64_encode(&Vec::new()), "".to_string());
}

#[test]
fn duration_formatting() {
    assert_eq!(format_duration(0), "0s".to_string());
    assert_eq!(format_duration(5), "5s".to_string());
    assert_eq!(format_duration(61), "1m 1s".to_string());
    assert_eq!(format_duration(3661), "1h 1m 1s".to_string());
    assert_eq!(format_duration(86400), "24h 0m 0s".to_string());
}

#[test]
fn default_endpoint() {
    assert_eq!(default_daemon_endpoint(), "127.0.0.1:8080".to_string());
}

#[test]
fn stream_registry_lifecycle() {
    let mut reg = StreamRegistry::new(42);
    let a = reg.open_stream().unwrap();
    let b = reg.open_stream().unwrap();
    assert_ne!(a, b);
    assert_eq!(reg.stream_state(a), Some(StreamState::Open));
    assert_eq!(reg.send_data(a, 100, false), Ok(false));
    assert_eq!(reg.send_data(a, 50, true), Ok(true));
    assert!(reg.close_stream(a).is_ok());
    // a closed stream takes no more data, and its id never reopens
    assert_eq!(reg.send_data(a, 1, false), Err(NyxError::RouteUnavailable));
    assert_eq!(reg.stream_state(a), Some(StreamState::Closed));
    assert_eq!(
        reg.close_stream(999),
        Err(NyxError::RouteUnavailable)
    );
    reg.note_bytes_in(7);
    let info = reg.get_info(60);
    assert_eq!(info.node_id, 42);
    assert_eq!(info.uptime_sec, 60);
    assert_eq!(info.active_streams, 1);
    assert_eq!(info.bytes_in, 7);
    assert_eq!(info.bytes_out, 150);
}

#[test]
fn statistics_summary_totals() {
    let mut reg = StreamRegistry::new(9);
    let id = reg.open_stream().unwrap();
    assert!(reg.send_data(id, 1024 * 100, false).is_ok());
    let info = reg.get_info(120);
    let summary = derive_statistics_summary(&info);
    assert_eq!(summary.total_requests, 100);
    assert_eq!(summary.successful_requests, 95);
    assert_eq!(summary.failed_requests, 5);
    assert_eq!(summary.active_connections, 1);
    assert_eq!(summary.uptime_seconds, 120);
}

#[test]
fn analysis_bands() {
    assert_eq!(error_rate_band(600), ConcernBand::High);
    assert_eq!(error_rate_band(200), ConcernBand::Moderate);
    assert_eq!(error_rate_band(60), ConcernBand::Low);
    assert_eq!(latency_band(150), ConcernBand::High);
    assert_eq!(latency_band(60), ConcernBand::Moderate);
    assert_eq!(latency_band(10), ConcernBand::Low);
    assert_eq!(throughput_band(50), ConcernBand::High);
    assert_eq!(throughput_band(500), ConcernBand::Moderate);
    assert_eq!(throughput_band(5000), ConcernBand::Low);
}

#[test]
fn delivery_texts_are_exact() {
    let alert = Alert {
        id: 7,
        timestamp_ms: 0,
        severity: AlertSeverity::Warning,
        metric: MetricId::CpuUsage,
        current_value: 9000,
        threshold: 8000,
        layer: None,
        resolved: false,
        resolved_at_ms: None,
    };
    assert_eq!(severity_name(AlertSeverity::Critical), "Critical".to_string());
    assert_eq!(metric_name(MetricId::PacketLossRate), "packet_loss_rate".to_string());
    let body = webhook_json_body(&alert, &"2021-01-01T00:00:00+00:00".to_string());
    assert_eq!(
        body,
        "{\"id\":7,\"metric\":\"cpu_usage\",\"severity\":\"Warning\",\"value\":9000,\"threshold\":8000,\"layer\":null,\"ts\":\"2021-01-01T00:00:00+00:00\"}"
            .to_string()
    );
    let mail = smtp_transaction(
        &"node".to_string(),
        &"a@b".to_string(),
        &"c@d".to_string(),
        &alert,
    );
    assert_eq!(
        mail,
        "HELO node\r\nMAIL FROM:<a@b>\r\nRCPT TO:<c@d>\r\nDATA\r\nSubject: Alert: cpu_usage (Warning)\r\nFrom: a@b\r\nTo: c@d\r\n\r\nMetric: cpu_usage\r\nValue: 9000 (threshold 8000)\r\nID: 7\r\n.\r\nQUIT\r\n"
            .to_string()
    );
}

#[test]
fn layered_suppression_rule_caps_alerts() {
    let t0 = 50_000_000u64;
    let mut system = AlertSystem::new();
    for id in 1..=11 {
        system.remove_threshold(id);
    }
    for (id, metric) in [(50u64, MetricId::Throughput), (51u64, MetricId::QueueDepth)] {
        system.add_threshold(
            id,
            AlertThreshold {
                metric,
                threshold: 10,
                severity: AlertSeverity::Warning,
                comparison: ThresholdComparison::GreaterThan,
                layer: Some(LayerType::Transport),
                enabled: true,
                cooldown_ms: 0,
                last_triggered_ms: None,
            },
        );
    }
    system.add_suppression_rule(SuppressionRule {
        metric: None,
        layer: Some(LayerType::Transport),
        max_alerts: 1,
        duration_ms: 1_000_000,
        created_at_ms: t0,
    });
    let mut snap = snapshot(0, t0);
    snap.transport_layer = Some(LayerMetrics {
        throughput_centi: 100,
        error_rate_centi: 0,
        queue_depth: 100,
        active_connections: 0,
    });
    // both layered thresholds breach, but the rule caps the layer at one
    let fired = system.check_thresholds(&snap, t0);
    assert_eq!(fired.len(), 1);
    assert_eq!(system.get_active_alerts().len(), 1);
}
