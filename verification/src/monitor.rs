//! The background monitors' per-cycle logic: classifying each
//! backend's health poll, and sampling the connection count.
//!
//! Metric values are carried in hundredths of their unit (a CPU load
//! of 90.25 % arrives as `9025`), so that fractional measurements
//! survive without floating point.

use vstd::prelude::*;
use crate::forward::{spec_is_redirection, spec_is_server_error, is_redirection_status,
    is_server_error_status};

verus! {

/// CPU load, in hundredths of a percent, above which a warning is raised.
pub const CPU_WARN_CENTI: u64 = 9000;

/// RAM load, in hundredths of a percent, above which a warning is raised.
pub const RAM_WARN_CENTI: u64 = 9000;

/// Download throughput, in hundredths of a unit, below which a warning is raised.
pub const DOWNLOAD_WARN_CENTI: u64 = 5000;

/// Upload throughput, in hundredths of a unit, below which a warning is raised.
pub const UPLOAD_WARN_CENTI: u64 = 5000;

/// Open-connection count above which the connection monitor warns,
/// when no other ceiling is configured.
pub const DEFAULT_CONNECTION_CEILING: usize = 100;

/// One backend's metrics payload, in hundredths of a unit per field.
#[derive(Debug, Clone, Copy, PartialEq, Eq, Structural)]
pub struct MetricsSample {
    pub cpu_centi: u64,
    pub ram_centi: u64,
    pub download_centi: u64,
    pub upload_centi: u64,
}

/// The warnings a metrics payload gives rise to.
#[derive(Debug, Clone, Copy, PartialEq, Eq, Structural)]
pub struct MetricsAlerts {
    pub cpu_high: bool,
    pub ram_high: bool,
    pub download_low: bool,
    pub upload_low: bool,
}

/// The warnings owed for a metrics payload: CPU or RAM strictly above
/// their limits, download or upload strictly below theirs.
pub open spec fn spec_classify_metrics(m: MetricsSample) -> MetricsAlerts {
    MetricsAlerts {
        cpu_high: m.cpu_centi > CPU_WARN_CENTI,
        ram_high: m.ram_centi > RAM_WARN_CENTI,
        download_low: m.download_centi < DOWNLOAD_WARN_CENTI,
        upload_low: m.upload_centi < UPLOAD_WARN_CENTI,
    }
}

/// Classifies one backend's metrics payload against the fixed
/// warning thresholds.
pub fn classify_metrics(m: &MetricsSample) -> (r: MetricsAlerts)
    ensures
        r == spec_classify_metrics(*m),
{
    MetricsAlerts {
        cpu_high: m.cpu_centi > CPU_WARN_CENTI,
        ram_high: m.ram_centi > RAM_WARN_CENTI,
        download_low: m.download_centi < DOWNLOAD_WARN_CENTI,
        upload_low: m.upload_centi < UPLOAD_WARN_CENTI,
    }
}

/// The URL the health monitor polls for one backend: the backend's
/// metrics endpoint on the serving port.
pub fn metrics_url(ip: &str) -> (r: String)
    ensures
        r@ == "http://"@ + ip@ + ":3000/metrics"@,
{
    let mut s = "http://".to_owned();
    s.append(ip);
    s.append(":3000/metrics");
    proof {
        assert(s@ =~= "http://"@ + ip@ + ":3000/metrics"@);
    }
    s
}

/// What polling one backend's metrics endpoint produced.
#[derive(Debug, Clone, Copy, PartialEq, Eq, Structural)]
pub enum PollOutcome {
    /// The poll itself failed: connect, timeout or DNS.
    TransportError,
    /// The backend answered; its payload parsed (`Some`) or did not
    /// (`None`).
    Answered { status: u16, metrics: Option<MetricsSample> },
}

/// What the monitor has to say about one backend after a poll.
#[derive(Debug, Clone, Copy, PartialEq, Eq, Structural)]
pub enum BackendReport {
    /// The backend could not be reached; log and move on.
    Unreachable,
    /// The backend answered but its payload did not parse; log and
    /// move on.
    Malformed { status: u16 },
    /// The backend answered with a payload; `redirected` and
    /// `server_error` note the status class, `alerts` the threshold
    /// breaches.
    Observed { status: u16, redirected: bool, server_error: bool, alerts: MetricsAlerts },
}

/// The report owed for one backend's poll outcome.
pub open spec fn spec_assess_backend(o: PollOutcome) -> BackendReport {
    match o {
        PollOutcome::TransportError => BackendReport::Unreachable,
        PollOutcome::Answered { status, metrics } => match metrics {
            None => BackendReport::Malformed { status },
            Some(m) => BackendReport::Observed {
                status,
                redirected: spec_is_redirection(status),
                server_error: spec_is_server_error(status),
                alerts: spec_classify_metrics(m),
            },
        },
    }
}

/// Turns one backend's poll outcome into its report.  Every outcome,
/// a transport error and an unparseable payload included, yields a
/// report: nothing a single backend does can abort the cycle.
pub fn assess_backend(o: &PollOutcome) -> (r: BackendReport)
    ensures
        r == spec_assess_backend(*o),
{
    match o {
        PollOutcome::TransportError => BackendReport::Unreachable,
        PollOutcome::Answered { status, metrics } => match metrics {
            None => BackendReport::Malformed { status: *status },
            Some(m) => BackendReport::Observed {
                status: *status,
                redirected: is_redirection_status(*status),
                server_error: is_server_error_status(*status),
                alerts: classify_metrics(m),
            },
        },
    }
}

/// The reports of a whole poll cycle, one per backend, in pool order.
pub open spec fn spec_assess_cycle(outcomes: Seq<PollOutcome>) -> Seq<BackendReport> {
    outcomes.map_values(|o: PollOutcome| spec_assess_backend(o))
}

/// Runs the classification of one poll cycle: every backend in the
/// pool gets a report, whatever happened to the ones before it.
pub fn assess_cycle(outcomes: &Vec<PollOutcome>) -> (r: Vec<BackendReport>)
    ensures
        r@ == spec_assess_cycle(outcomes@),
        r@.len() == outcomes@.len(),
{
    let mut r: Vec<BackendReport> = Vec::new();
    let mut i: usize = 0;
    while i < outcomes.len()
        invariant
            i <= outcomes@.len(),
            r@.len() == i,
            forall|j: int| 0 <= j < i ==> r@[j] == spec_assess_backend(outcomes@[j]),
        decreases outcomes@.len() - i,
    {
        let report = assess_backend(&outcomes[i]);
        r.push(report);
        i += 1;
    }
    proof {
        assert(r@ =~= spec_assess_cycle(outcomes@));
    }
    r
}

/// Each backend's report depends on its own poll outcome alone: two
/// cycles whose outcomes agree at one position agree on that
/// backend's report, however the other backends fared.  A transport
/// error on one backend therefore never costs another backend its
/// report.
pub proof fn lemma_cycle_isolated(a: Seq<PollOutcome>, b: Seq<PollOutcome>, i: int)
    requires
        0 <= i < a.len(),
        0 <= i < b.len(),
        a[i] == b[i],
    ensures
        spec_assess_cycle(a)[i] == spec_assess_cycle(b)[i],
{
}

/// One entry of the OS socket table, reduced to what the connection
/// monitor reads: the socket's protocol.
#[derive(Debug, Clone, Copy, PartialEq, Eq, Structural)]
pub enum SocketKind {
    Tcp,
    Udp,
}

/// Number of TCP entries in a socket table.
pub open spec fn spec_tcp_count(s: Seq<SocketKind>) -> nat
    decreases s.len(),
{
    if s.len() == 0 {
        0
    } else {
        spec_tcp_count(s.drop_last()) + if s.last() is Tcp {
            1nat
        } else {
            0nat
        }
    }
}

/// Counts the TCP entries of a socket table sample.
pub fn count_tcp(sockets: &Vec<SocketKind>) -> (n: usize)
    ensures
        n == spec_tcp_count(sockets@),
{
    let mut n: usize = 0;
    let mut i: usize = 0;
    while i < sockets.len()
        invariant
            i <= sockets@.len(),
            n == spec_tcp_count(sockets@.subrange(0, i as int)),
            n <= i,
        decreases sockets@.len() - i,
    {
        let is_tcp = match sockets[i] {
            SocketKind::Tcp => true,
            SocketKind::Udp => false,
        };
        proof {
            let pre = sockets@.subrange(0, i as int);
            let post = sockets@.subrange(0, i + 1);
            assert(post.drop_last() =~= pre);
            assert(post.last() == sockets@[i as int]);
        }
        if is_tcp {
            n += 1;
        }
        i += 1;
    }
    proof {
        assert(sockets@.subrange(0, sockets@.len() as int) =~= sockets@);
    }
    n
}

/// What one connection-monitor cycle reports.
#[derive(Debug, Clone, Copy, PartialEq, Eq, Structural)]
pub enum ConnectionReport {
    /// The OS socket table could not be queried; log and move on.
    QueryFailed,
    /// The table was read; `alert` holds exactly when the TCP count
    /// exceeds the ceiling.
    Counted { count: usize, alert: bool },
}

/// One cycle of the connection monitor: counts the TCP sockets of the
/// sample and compares them with the ceiling.  The second component
/// says whether the loop goes on to the next cycle, and it always
/// does: a failed sample is reported, never fatal.
pub fn connection_monitor_step(sample: Option<Vec<SocketKind>>, ceiling: usize) -> (r: (
    ConnectionReport,
    bool,
))
    ensures
        r.1,
        sample is None ==> r.0 == ConnectionReport::QueryFailed,
        sample matches Some(sockets) ==> r.0 == (ConnectionReport::Counted {
            count: spec_tcp_count(sockets@) as usize,
            alert: spec_tcp_count(sockets@) > ceiling,
        }),
{
    match sample {
        None => (ConnectionReport::QueryFailed, true),
        Some(sockets) => {
            let count = count_tcp(&sockets);
            (ConnectionReport::Counted { count, alert: count > ceiling }, true)
        },
    }
}

} // verus!
