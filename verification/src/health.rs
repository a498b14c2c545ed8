//! Health monitor: a periodic liveness verdict over the worker process.
//!
//! The monitor is a small state machine, idle or running.  Each tick of the
//! running monitor turns one probe outcome into a verdict; only the latest
//! verdict is retained.  The probe itself — checking the process, sending
//! `ping` through the channel, timing it — is the embedding runtime's part;
//! it hands the outcome in as a plain value, and passes every verdict to
//! whatever callback is registered, healthy or not: the callback, not the
//! monitor, decides whether to act.

use vstd::prelude::*;

verus! {

/// What one liveness probe came back with.
#[derive(Debug, Clone)]
pub enum ProbeOutcome {
    /// The process is not running; no request was attempted.
    ProcessNotRunning,
    /// The `ping` request ran out of time.
    TimedOut,
    /// The worker answered `ping` with an application-level error.
    RpcError(String),
    /// The worker answered within this many milliseconds.
    Responded(u64),
}

/// Mathematical model of a verdict.
pub ghost struct HealthCheckResultModel {
    pub healthy: bool,
    pub response_time_ms: u64,
    pub error: Option<Seq<char>>,
    pub timestamp_ms: u64,
}

/// One health verdict, immutable once produced.
#[derive(Debug, Clone)]
pub struct HealthCheckResult {
    /// Whether the worker counts as healthy.
    pub healthy: bool,
    /// Round-trip time of the probe, zero when none was measured.
    pub response_time_ms: u64,
    /// Why the worker counts as unhealthy, if it does.
    pub error: Option<String>,
    /// When the verdict was produced, in milliseconds.
    pub timestamp_ms: u64,
}

impl View for HealthCheckResult {
    type V = HealthCheckResultModel;

    open spec fn view(&self) -> HealthCheckResultModel {
        HealthCheckResultModel {
            healthy: self.healthy,
            response_time_ms: self.response_time_ms,
            error: match self.error {
                Some(ref e) => Some(e@),
                None => None,
            },
            timestamp_ms: self.timestamp_ms,
        }
    }
}

/// The verdict that a probe outcome maps to, at a given time.
pub open spec fn verdict_of(outcome_healthy_rtt: Option<u64>, error: Option<Seq<char>>, now_ms: u64) -> HealthCheckResultModel {
    match outcome_healthy_rtt {
        Some(rtt) => HealthCheckResultModel {
            healthy: true,
            response_time_ms: rtt,
            error: None,
            timestamp_ms: now_ms,
        },
        None => HealthCheckResultModel {
            healthy: false,
            response_time_ms: 0,
            error,
            timestamp_ms: now_ms,
        },
    }
}

/// A condensed view of the monitor's latest verdict.
#[derive(Debug, Clone, PartialEq)]
pub struct HealthStats {
    /// Whether the latest verdict was healthy.
    pub is_healthy: bool,
    /// The latest verdict's description.
    pub last_result: String,
}

/// Mathematical model of the monitor.
pub ghost struct HealthMonitorModel {
    pub running: bool,
    pub last: Option<HealthCheckResultModel>,
}

/// The health monitor: idle or running, retaining the latest verdict.
#[derive(Debug)]
pub struct HealthMonitor {
    running: bool,
    last: Option<HealthCheckResult>,
}

impl View for HealthMonitor {
    type V = HealthMonitorModel;

    closed spec fn view(&self) -> HealthMonitorModel {
        HealthMonitorModel {
            running: self.running,
            last: match self.last {
                Some(ref r) => Some(r@),
                None => None,
            },
        }
    }
}

impl HealthMonitor {
    /// A fresh, idle monitor with no verdict yet.
    pub fn new() -> (r: Self)
        ensures
            !r@.running,
            r@.last is None,
    {
        HealthMonitor { running: false, last: None }
    }

    /// Start the probe loop: idle becomes running; starting a running
    /// monitor is a no-op, and the call says which happened.
    pub fn start(&mut self) -> (started: bool)
        ensures
            final(self)@.running,
            final(self)@.last == old(self)@.last,
            started == !old(self)@.running,
    {
        let started = !self.running;
        self.running = true;
        started
    }

    /// Stop the probe loop: running becomes idle.  The latest verdict
    /// stays available.
    pub fn stop(&mut self)
        ensures
            !final(self)@.running,
            final(self)@.last == old(self)@.last,
    {
        self.running = false;
    }

    /// Whether the probe loop is running.
    pub fn is_running(&self) -> (r: bool)
        ensures
            r == self@.running,
    {
        self.running
    }

    /// Turn one probe outcome into a verdict and retain it, overwriting
    /// the previous one.  A dead process is unhealthy without a request;
    /// a timeout and an application-level error are unhealthy with their
    /// reason; an answer is healthy with its round-trip time.
    pub fn on_tick(&mut self, outcome: ProbeOutcome, now_ms: u64) -> (r: HealthCheckResult)
        requires
            old(self)@.running,
        ensures
            final(self)@.running,
            final(self)@.last == Some(r@),
            r@ == match outcome {
                ProbeOutcome::ProcessNotRunning => verdict_of(
                    None,
                    Some("process not running"@),
                    now_ms,
                ),
                ProbeOutcome::TimedOut => verdict_of(None, Some("health check timed out"@), now_ms),
                ProbeOutcome::RpcError(d) => verdict_of(None, Some(d@), now_ms),
                ProbeOutcome::Responded(rtt) => verdict_of(Some(rtt), None, now_ms),
            },
    {
        let r = match outcome {
            ProbeOutcome::ProcessNotRunning => HealthCheckResult {
                healthy: false,
                response_time_ms: 0,
                error: Some(String::from_str("process not running")),
                timestamp_ms: now_ms,
            },
            ProbeOutcome::TimedOut => HealthCheckResult {
                healthy: false,
                response_time_ms: 0,
                error: Some(String::from_str("health check timed out")),
                timestamp_ms: now_ms,
            },
            ProbeOutcome::RpcError(d) => HealthCheckResult {
                healthy: false,
                response_time_ms: 0,
                error: Some(d),
                timestamp_ms: now_ms,
            },
            ProbeOutcome::Responded(rtt) => HealthCheckResult {
                healthy: true,
                response_time_ms: rtt,
                error: None,
                timestamp_ms: now_ms,
            },
        };
        self.last = Some(r.clone_result());
        r
    }

    /// The latest verdict, if any probe has run yet.
    pub fn last_result(&self) -> (r: Option<HealthCheckResult>)
        ensures
            match r {
                Some(v) => self@.last == Some(v@),
                None => self@.last is None,
            },
    {
        match &self.last {
            Some(v) => Some(v.clone_result()),
            None => None,
        }
    }

    /// The latest verdict condensed to a stats value: healthy with `OK`,
    /// or unhealthy with its reason; `no probe yet` before the first tick.
    pub fn stats(&self) -> (r: HealthStats)
        ensures
            match self@.last {
                Some(v) => r.is_healthy == v.healthy && r.last_result@ == (match v.error {
                    Some(e) => e,
                    None => "OK"@,
                }),
                None => !r.is_healthy && r.last_result@ == "no probe yet"@,
            },
    {
        match &self.last {
            Some(v) => HealthStats {
                is_healthy: v.healthy,
                last_result: match &v.error {
                    Some(e) => e.clone(),
                    None => String::from_str("OK"),
                },
            },
            None => HealthStats {
                is_healthy: false,
                last_result: String::from_str("no probe yet"),
            },
        }
    }
}

impl HealthCheckResult {
    /// A field-for-field copy.
    pub fn clone_result(&self) -> (r: Self)
        ensures
            r@ == self@,
    {
        HealthCheckResult {
            healthy: self.healthy,
            response_time_ms: self.response_time_ms,
            error: match &self.error {
                Some(e) => Some(e.clone()),
                None => None,
            },
            timestamp_ms: self.timestamp_ms,
        }
    }
}

} // verus!
