//! Immutable metric snapshots the alerting core evaluates.
//!
//! Rates and percentages are fixed-point integers in hundredths (`8000`
//! means `80.00`), so the evaluation rules stay exact; timestamps are
//! milliseconds of wall-clock time supplied by the caller.

use vstd::prelude::*;

verus! {

/// The protocol layer a metric belongs to.
#[derive(Clone, Copy, PartialEq, Eq, Structural, Debug)]
pub enum LayerType {
    Stream,
    Mix,
    Fec,
    Transport,
}

/// The closed set of metrics thresholds can watch.
#[derive(Clone, Copy, PartialEq, Eq, Structural, Debug)]
pub enum MetricId {
    CpuUsage,
    MemoryUsage,
    ErrorRate,
    AvgLatencyMs,
    PacketLossRate,
    ConnectionFailureRate,
    Throughput,
    LayerErrorRate,
    QueueDepth,
    ActiveConnections,
}

/// Process-level measurements.
#[derive(Clone, Copy, PartialEq, Eq, Structural, Debug)]
pub struct SystemMetrics {
    /// CPU usage in hundredths of a percent.
    pub cpu_usage_centi: u64,
    pub memory_usage_bytes: u64,
    pub memory_total_bytes: u64,
}

/// Connection-level measurements.
#[derive(Clone, Copy, PartialEq, Eq, Structural, Debug)]
pub struct NetworkMetrics {
    pub total_connections: u64,
    pub failed_connections: u64,
}

/// Aggregate performance measurements.
#[derive(Clone, Copy, PartialEq, Eq, Structural, Debug)]
pub struct PerformanceMetrics {
    /// Average latency in hundredths of a millisecond.
    pub avg_latency_centi_ms: u64,
    /// Packet loss in hundredths of a percent.
    pub packet_loss_centi: u64,
}

/// Error counters.
#[derive(Clone, Copy, PartialEq, Eq, Structural, Debug)]
pub struct ErrorMetrics {
    /// Error rate in hundredths of a percent.
    pub error_rate_centi: u64,
}

/// Per-layer measurements.
#[derive(Clone, Copy, PartialEq, Eq, Structural, Debug)]
pub struct LayerMetrics {
    /// Throughput in hundredths of the configured unit.
    pub throughput_centi: u64,
    /// Error rate in hundredths of a percent.
    pub error_rate_centi: u64,
    pub queue_depth: u64,
    pub active_connections: u64,
}

/// One immutable snapshot of everything the collector samples.
#[derive(Clone, Copy, PartialEq, Eq, Structural, Debug)]
pub struct MetricsSnapshot {
    pub timestamp_ms: u64,
    pub system_metrics: SystemMetrics,
    pub network_metrics: NetworkMetrics,
    pub performance_metrics: PerformanceMetrics,
    pub error_metrics: ErrorMetrics,
    pub stream_layer: Option<LayerMetrics>,
    pub mix_layer: Option<LayerMetrics>,
    pub fec_layer: Option<LayerMetrics>,
    pub transport_layer: Option<LayerMetrics>,
}

impl MetricsSnapshot {
    /// The measurements of one layer, if the snapshot has them.
    pub open spec fn spec_layer(self, layer: LayerType) -> Option<LayerMetrics> {
        match layer {
            LayerType::Stream => self.stream_layer,
            LayerType::Mix => self.mix_layer,
            LayerType::Fec => self.fec_layer,
            LayerType::Transport => self.transport_layer,
        }
    }

    pub fn layer(&self, layer: LayerType) -> (r: Option<LayerMetrics>)
        ensures
            r == self.spec_layer(layer),
    {
        match layer {
            LayerType::Stream => self.stream_layer,
            LayerType::Mix => self.mix_layer,
            LayerType::Fec => self.fec_layer,
            LayerType::Transport => self.transport_layer,
        }
    }
}

/// A ratio as hundredths of a percent of the total, saturated at the
/// largest representable value; meaningful only for a positive total.
pub open spec fn spec_percent_centi(usage: u64, total: u64) -> u64
    recommends
        total > 0,
{
    if usage * 10000 / (total as int) > u64::MAX {
        u64::MAX
    } else {
        (usage * 10000 / (total as int)) as u64
    }
}

/// What a threshold on `metric` (with an optional layer) reads from the
/// snapshot, if the snapshot can answer it.
pub open spec fn spec_extract_metric(s: MetricsSnapshot, metric: MetricId, layer: Option<
    LayerType,
>) -> Option<u64> {
    match metric {
        MetricId::CpuUsage => Some(s.system_metrics.cpu_usage_centi),
        MetricId::MemoryUsage => if s.system_metrics.memory_total_bytes > 0 {
            Some(
                spec_percent_centi(
                    s.system_metrics.memory_usage_bytes,
                    s.system_metrics.memory_total_bytes,
                ),
            )
        } else {
            None
        },
        MetricId::ErrorRate => Some(s.error_metrics.error_rate_centi),
        MetricId::AvgLatencyMs => Some(s.performance_metrics.avg_latency_centi_ms),
        MetricId::PacketLossRate => Some(s.performance_metrics.packet_loss_centi),
        MetricId::ConnectionFailureRate => if s.network_metrics.total_connections > 0 {
            Some(
                spec_percent_centi(
                    s.network_metrics.failed_connections,
                    s.network_metrics.total_connections,
                ),
            )
        } else {
            None
        },
        MetricId::Throughput => match layer {
            Some(l) => match s.spec_layer(l) {
                Some(m) => Some(m.throughput_centi),
                None => None,
            },
            None => None,
        },
        MetricId::LayerErrorRate => match layer {
            Some(l) => match s.spec_layer(l) {
                Some(m) => Some(m.error_rate_centi),
                None => None,
            },
            None => None,
        },
        MetricId::QueueDepth => match layer {
            Some(l) => match s.spec_layer(l) {
                Some(m) => Some(m.queue_depth),
                None => None,
            },
            None => None,
        },
        MetricId::ActiveConnections => match layer {
            Some(l) => match s.spec_layer(l) {
                Some(m) => Some(m.active_connections),
                None => None,
            },
            None => None,
        },
    }
}

/// Ratio `usage / total` as hundredths of a percent, saturated.
fn percent_centi(usage: u64, total: u64) -> (r: u64)
    requires
        total > 0,
    ensures
        r == spec_percent_centi(usage, total),
{
    let wide: u128 = (usage as u128) * 10000 / (total as u128);
    if wide > u64::MAX as u128 {
        u64::MAX
    } else {
        wide as u64
    }
}

/// Read the value a threshold on `metric` observes, honouring its layer.
pub fn extract_metric_value(s: &MetricsSnapshot, metric: MetricId, layer: Option<LayerType>) -> (r:
    Option<u64>)
    ensures
        r == spec_extract_metric(*s, metric, layer),
{
    match metric {
        MetricId::CpuUsage => Some(s.system_metrics.cpu_usage_centi),
        MetricId::MemoryUsage => {
            if s.system_metrics.memory_total_bytes > 0 {
                Some(
                    percent_centi(
                        s.system_metrics.memory_usage_bytes,
                        s.system_metrics.memory_total_bytes,
                    ),
                )
            } else {
                None
            }
        },
        MetricId::ErrorRate => Some(s.error_metrics.error_rate_centi),
        MetricId::AvgLatencyMs => Some(s.performance_metrics.avg_latency_centi_ms),
        MetricId::PacketLossRate => Some(s.performance_metrics.packet_loss_centi),
        MetricId::ConnectionFailureRate => {
            if s.network_metrics.total_connections > 0 {
                Some(
                    percent_centi(
                        s.network_metrics.failed_connections,
                        s.network_metrics.total_connections,
                    ),
                )
            } else {
                None
            }
        },
        MetricId::Throughput => {
            match layer {
                Some(l) => match s.layer(l) {
                    Some(m) => Some(m.throughput_centi),
                    None => None,
                },
                None => None,
            }
        },
        MetricId::LayerErrorRate => {
            match layer {
                Some(l) => match s.layer(l) {
                    Some(m) => Some(m.error_rate_centi),
                    None => None,
                },
                None => None,
            }
        },
        MetricId::QueueDepth => {
            match layer {
                Some(l) => match s.layer(l) {
                    Some(m) => Some(m.queue_depth),
                    None => None,
                },
                None => None,
            }
        },
        MetricId::ActiveConnections => {
            match layer {
                Some(l) => match s.layer(l) {
                    Some(m) => Some(m.active_connections),
                    None => None,
                },
                None => None,
            }
        },
    }
}

} // verus!
