//! Pure helpers of the command-line front end.

use vstd::prelude::*;
use vstd::string::StringExecFns;

verus! {

/// The decimal digit character for `d`.
pub open spec fn spec_digit(d: int) -> char {
    if d == 0 {
        '0'
    } else if d == 1 {
        '1'
    } else if d == 2 {
        '2'
    } else if d == 3 {
        '3'
    } else if d == 4 {
        '4'
    } else if d == 5 {
        '5'
    } else if d == 6 {
        '6'
    } else if d == 7 {
        '7'
    } else if d == 8 {
        '8'
    } else {
        '9'
    }
}

/// The decimal rendering of `n`, most significant digit first.
pub open spec fn spec_dec(n: nat) -> Seq<char>
    decreases n,
{
    if n < 10 {
        seq![spec_digit(n as int)]
    } else {
        spec_dec(n / 10).push(spec_digit((n % 10) as int))
    }
}

/// Append the decimal rendering of `n`.
pub(crate) fn append_dec(out: &mut String, n: u64)
    ensures
        final(out)@ == old(out)@ + spec_dec(n as nat),
    decreases n,
{
    if n >= 10 {
        append_dec(out, n / 10);
    }
    let d = n % 10;
    if d == 0 {
        out.append("0");
        proof {
            reveal_strlit("0");
        }
    } else if d == 1 {
        out.append("1");
        proof {
            reveal_strlit("1");
        }
    } else if d == 2 {
        out.append("2");
        proof {
            reveal_strlit("2");
        }
    } else if d == 3 {
        out.append("3");
        proof {
            reveal_strlit("3");
        }
    } else if d == 4 {
        out.append("4");
        proof {
            reveal_strlit("4");
        }
    } else if d == 5 {
        out.append("5");
        proof {
            reveal_strlit("5");
        }
    } else if d == 6 {
        out.append("6");
        proof {
            reveal_strlit("6");
        }
    } else if d == 7 {
        out.append("7");
        proof {
            reveal_strlit("7");
        }
    } else if d == 8 {
        out.append("8");
        proof {
            reveal_strlit("8");
        }
    } else {
        out.append("9");
        proof {
            reveal_strlit("9");
        }
    }
    proof {
        assert(out@ =~= old(out)@ + spec_dec(n as nat));
    }
}

/// The rendering of an uptime: hours, minutes and seconds, with the
/// leading parts left out while they are zero.
pub open spec fn spec_format_duration(seconds: nat) -> Seq<char> {
    let h = seconds / 3600;
    let m = (seconds % 3600) / 60;
    let s = seconds % 60;
    if h > 0 {
        spec_dec(h) + "h "@ + spec_dec(m) + "m "@ + spec_dec(s) + "s"@
    } else if m > 0 {
        spec_dec(m) + "m "@ + spec_dec(s) + "s"@
    } else {
        spec_dec(s) + "s"@
    }
}

/// Render an uptime in seconds as `1h 2m 3s`, `2m 3s` or `3s`.
pub fn format_duration(seconds: u64) -> (r: String)
    ensures
        r@ == spec_format_duration(seconds as nat),
{
    let hours = seconds / 3600;
    let minutes = (seconds % 3600) / 60;
    let secs = seconds % 60;
    let mut out = String::new();
    if hours > 0 {
        append_dec(&mut out, hours);
        out.append("h ");
        append_dec(&mut out, minutes);
        out.append("m ");
        append_dec(&mut out, secs);
        out.append("s");
        proof {
            assert(out@ =~= spec_format_duration(seconds as nat));
        }
    } else if minutes > 0 {
        append_dec(&mut out, minutes);
        out.append("m ");
        append_dec(&mut out, secs);
        out.append("s");
        proof {
            assert(out@ =~= spec_format_duration(seconds as nat));
        }
    } else {
        append_dec(&mut out, secs);
        out.append("s");
        proof {
            assert(out@ =~= spec_format_duration(seconds as nat));
        }
    }
    out
}

/// How much concern a measurement deserves in the analysis views.
#[derive(Clone, Copy, PartialEq, Eq, Structural, Debug)]
pub enum ConcernBand {
    High,
    Moderate,
    Low,
}

/// Band an error rate (hundredths of a percent): above five percent is a
/// high concern, above one percent moderate, anything else low.
pub fn error_rate_band(error_rate_centi: u64) -> (r: ConcernBand)
    ensures
        r == ConcernBand::High <==> error_rate_centi > 500,
        r == ConcernBand::Moderate <==> 100 < error_rate_centi <= 500,
        r == ConcernBand::Low <==> error_rate_centi <= 100,
{
    if error_rate_centi > 500 {
        ConcernBand::High
    } else if error_rate_centi > 100 {
        ConcernBand::Moderate
    } else {
        ConcernBand::Low
    }
}

/// Band an average latency: above 100 ms is a high concern, above 50 ms
/// moderate, anything else low.
pub fn latency_band(avg_latency_ms: u64) -> (r: ConcernBand)
    ensures
        r == ConcernBand::High <==> avg_latency_ms > 100,
        r == ConcernBand::Moderate <==> 50 < avg_latency_ms <= 100,
        r == ConcernBand::Low <==> avg_latency_ms <= 50,
{
    if avg_latency_ms > 100 {
        ConcernBand::High
    } else if avg_latency_ms > 50 {
        ConcernBand::Moderate
    } else {
        ConcernBand::Low
    }
}

/// Band a throughput (hundredths of a megabit per second): below one
/// megabit is a high concern, below ten moderate, anything else low.
pub fn throughput_band(throughput_centi_mbps: u64) -> (r: ConcernBand)
    ensures
        r == ConcernBand::High <==> throughput_centi_mbps < 100,
        r == ConcernBand::Moderate <==> 100 <= throughput_centi_mbps < 1000,
        r == ConcernBand::Low <==> throughput_centi_mbps >= 1000,
{
    if throughput_centi_mbps < 100 {
        ConcernBand::High
    } else if throughput_centi_mbps < 1000 {
        ConcernBand::Moderate
    } else {
        ConcernBand::Low
    }
}

/// Request totals the statistics view derives from a node's counters.
#[derive(Clone, Copy, PartialEq, Eq, Structural, Debug)]
pub struct StatisticsSummary {
    pub total_requests: u64,
    pub successful_requests: u64,
    pub failed_requests: u64,
    pub active_connections: u64,
    pub uptime_seconds: u64,
}

/// Derive the request totals from a node's self-report: one request per
/// kilobyte sent, of which ninety-five percent are taken as successful.
pub fn derive_statistics_summary(info: &crate::daemon::NodeInfo) -> (r: StatisticsSummary)
    ensures
        r.total_requests == info.bytes_out / 1024,
        r.successful_requests == (info.bytes_out / 1024) * 95 / 100,
        r.failed_requests == (info.bytes_out / 1024) * 5 / 100,
        r.active_connections == info.active_streams,
        r.uptime_seconds == info.uptime_sec,
{
    let total = info.bytes_out / 1024;
    StatisticsSummary {
        total_requests: total,
        successful_requests: total * 95 / 100,
        failed_requests: total * 5 / 100,
        active_connections: info.active_streams,
        uptime_seconds: info.uptime_sec,
    }
}

/// The daemon endpoint used when none is given.
pub fn default_daemon_endpoint() -> (r: String)
    ensures
        r@ == "127.0.0.1:8080"@,
{
    String::from_str("127.0.0.1:8080")
}

} // verus!
