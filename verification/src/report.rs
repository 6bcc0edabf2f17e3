//! The exact texts an alert is delivered as: the SMTP transaction of the
//! email route and the JSON body of the webhook route. The shell doing the
//! socket work sends these byte for byte.

use vstd::prelude::*;
use vstd::string::StringExecFns;
use crate::alert::{Alert, AlertSeverity};
use crate::metrics::{LayerType, MetricId};
use crate::cli::{spec_dec, append_dec};

verus! {

/// The printable name of a severity.
pub open spec fn spec_severity_name(s: AlertSeverity) -> Seq<char> {
    match s {
        AlertSeverity::Info => "Info"@,
        AlertSeverity::Warning => "Warning"@,
        AlertSeverity::Critical => "Critical"@,
    }
}

pub fn severity_name(s: AlertSeverity) -> (r: String)
    ensures
        r@ == spec_severity_name(s),
{
    match s {
        AlertSeverity::Info => String::from_str("Info"),
        AlertSeverity::Warning => String::from_str("Warning"),
        AlertSeverity::Critical => String::from_str("Critical"),
    }
}

/// The wire name of a metric.
pub open spec fn spec_metric_name(m: MetricId) -> Seq<char> {
    match m {
        MetricId::CpuUsage => "cpu_usage"@,
        MetricId::MemoryUsage => "memory_usage"@,
        MetricId::ErrorRate => "error_rate"@,
        MetricId::AvgLatencyMs => "avg_latency_ms"@,
        MetricId::PacketLossRate => "packet_loss_rate"@,
        MetricId::ConnectionFailureRate => "connection_failure_rate"@,
        MetricId::Throughput => "throughput"@,
        MetricId::LayerErrorRate => "layer_error_rate"@,
        MetricId::QueueDepth => "queue_depth"@,
        MetricId::ActiveConnections => "active_connections"@,
    }
}

pub fn metric_name(m: MetricId) -> (r: String)
    ensures
        r@ == spec_metric_name(m),
{
    match m {
        MetricId::CpuUsage => String::from_str("cpu_usage"),
        MetricId::MemoryUsage => String::from_str("memory_usage"),
        MetricId::ErrorRate => String::from_str("error_rate"),
        MetricId::AvgLatencyMs => String::from_str("avg_latency_ms"),
        MetricId::PacketLossRate => String::from_str("packet_loss_rate"),
        MetricId::ConnectionFailureRate => String::from_str("connection_failure_rate"),
        MetricId::Throughput => String::from_str("throughput"),
        MetricId::LayerErrorRate => String::from_str("layer_error_rate"),
        MetricId::QueueDepth => String::from_str("queue_depth"),
        MetricId::ActiveConnections => String::from_str("active_connections"),
    }
}

/// The printable name of a layer.
pub open spec fn spec_layer_name(l: LayerType) -> Seq<char> {
    match l {
        LayerType::Stream => "Stream"@,
        LayerType::Mix => "Mix"@,
        LayerType::Fec => "Fec"@,
        LayerType::Transport => "Transport"@,
    }
}

pub fn layer_name(l: LayerType) -> (r: String)
    ensures
        r@ == spec_layer_name(l),
{
    match l {
        LayerType::Stream => String::from_str("Stream"),
        LayerType::Mix => String::from_str("Mix"),
        LayerType::Fec => String::from_str("Fec"),
        LayerType::Transport => String::from_str("Transport"),
    }
}

/// The JSON body a webhook delivery carries for an alert. The timestamp is
/// embedded verbatim between quotes, so the caller hands in an RFC 3339
/// time, which never holds a quote or backslash.
pub open spec fn spec_webhook_json_body(a: Alert, ts: Seq<char>) -> Seq<char> {
    "{\"id\":"@ + spec_dec(a.id as nat) + ",\"metric\":\""@ + spec_metric_name(a.metric)
        + "\",\"severity\":\""@ + spec_severity_name(a.severity) + "\",\"value\":"@ + spec_dec(
        a.current_value as nat,
    ) + ",\"threshold\":"@ + spec_dec(a.threshold as nat) + ",\"layer\":"@ + (match a.layer {
        Some(l) => "\""@ + spec_layer_name(l) + "\""@,
        None => "null"@,
    }) + ",\"ts\":\""@ + ts + "\"}"@
}

/// Build the webhook JSON body for one alert.
pub fn webhook_json_body(a: &Alert, ts: &String) -> (r: String)
    ensures
        r@ == spec_webhook_json_body(*a, ts@),
{
    let mut out = String::new();
    out.append("{\"id\":");
    append_dec(&mut out, a.id);
    out.append(",\"metric\":\"");
    let m = metric_name(a.metric);
    out.append(m.as_str());
    out.append("\",\"severity\":\"");
    let s = severity_name(a.severity);
    out.append(s.as_str());
    out.append("\",\"value\":");
    append_dec(&mut out, a.current_value);
    out.append(",\"threshold\":");
    append_dec(&mut out, a.threshold);
    out.append(",\"layer\":");
    match a.layer {
        Some(l) => {
            out.append("\"");
            let ln = layer_name(l);
            out.append(ln.as_str());
            out.append("\"");
        },
        None => {
            out.append("null");
        },
    }
    out.append(",\"ts\":\"");
    out.append(ts.as_str());
    out.append("\"}");
    proof {
        assert(out@ =~= spec_webhook_json_body(*a, ts@));
    }
    out
}

/// The whole plaintext SMTP transaction delivering one alert: greeting,
/// envelope, message and quit, with the alert's metric, value, threshold
/// and id spelled out. The hostname and addresses are embedded verbatim.
pub open spec fn spec_smtp_transaction(hostname: Seq<char>, from: Seq<char>, to: Seq<char>,
    a: Alert) -> Seq<char> {
    "HELO "@ + hostname + "\r\nMAIL FROM:<"@ + from + ">\r\nRCPT TO:<"@ + to + ">\r\nDATA\r\nSubject: Alert: "@
        + spec_metric_name(a.metric) + " ("@ + spec_severity_name(a.severity) + ")\r\nFrom: "@
        + from + "\r\nTo: "@ + to + "\r\n\r\nMetric: "@ + spec_metric_name(a.metric)
        + "\r\nValue: "@ + spec_dec(a.current_value as nat) + " (threshold "@ + spec_dec(
        a.threshold as nat,
    ) + ")\r\nID: "@ + spec_dec(a.id as nat) + "\r\n.\r\nQUIT\r\n"@
}

/// Build the SMTP transaction for one alert.
pub fn smtp_transaction(hostname: &String, from: &String, to: &String, a: &Alert) -> (r: String)
    ensures
        r@ == spec_smtp_transaction(hostname@, from@, to@, *a),
{
    let mut out = String::new();
    out.append("HELO ");
    out.append(hostname.as_str());
    out.append("\r\nMAIL FROM:<");
    out.append(from.as_str());
    out.append(">\r\nRCPT TO:<");
    out.append(to.as_str());
    out.append(">\r\nDATA\r\nSubject: Alert: ");
    let m = metric_name(a.metric);
    out.append(m.as_str());
    out.append(" (");
    let s = severity_name(a.severity);
    out.append(s.as_str());
    out.append(")\r\nFrom: ");
    out.append(from.as_str());
    out.append("\r\nTo: ");
    out.append(to.as_str());
    out.append("\r\n\r\nMetric: ");
    out.append(m.as_str());
    out.append("\r\nValue: ");
    append_dec(&mut out, a.current_value);
    out.append(" (threshold ");
    append_dec(&mut out, a.threshold);
    out.append(")\r\nID: ");
    append_dec(&mut out, a.id);
    out.append("\r\n.\r\nQUIT\r\n");
    proof {
        assert(out@ =~= spec_smtp_transaction(hostname@, from@, to@, *a));
    }
    out
}

} // verus!
