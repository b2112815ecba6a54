//! Health and status vocabulary shared across nodes.
//!
//! A producer fills in a [`ProducerHealth`] and serves it; a consumer parses
//! the same struct when probing each producer it subscribes to, and keeps a
//! [`ProducerStatus`] per connection. [`HealthStatus`] maps to the green /
//! yellow / red status dots in the UI.

use vstd::prelude::*;
use crate::notification::copy_opt;
use crate::outbox::{Cursor, Outbox};
use crate::text::copy_str;

verus! {

/// Overall health verdict for a node or one of its subsystems.
#[derive(Debug, Clone, Copy, PartialEq, Eq, Structural)]
pub enum HealthStatus {
    /// Fully operational.
    Healthy,
    /// Reachable / running, but something is wrong.
    Degraded,
    /// Not working.
    Unhealthy,
}

impl Default for HealthStatus {
    fn default() -> (s: Self)
        ensures
            s == HealthStatus::Healthy,
    {
        HealthStatus::Healthy
    }
}

/// Status of a producer's capture subsystem (the OS notification bridge).
#[derive(Debug, PartialEq, Eq)]
pub struct CaptureHealth {
    /// Whether capture was requested for this node at all.
    pub enabled: bool,
    /// Whether the capture worker is currently running.
    pub running: bool,
    /// OS notification-access permission, if known.
    pub access_granted: Option<bool>,
    /// Human-readable detail (e.g. an error message) when degraded.
    pub detail: Option<String>,
}

impl Clone for CaptureHealth {
    fn clone(&self) -> (r: Self)
        ensures
            r == *self,
    {
        CaptureHealth {
            enabled: self.enabled,
            running: self.running,
            access_granted: self.access_granted,
            detail: copy_opt(&self.detail),
        }
    }
}

impl Default for CaptureHealth {
    fn default() -> (h: Self)
        ensures
            !h.enabled && !h.running && h.access_granted is None && h.detail is None,
    {
        CaptureHealth { enabled: false, running: false, access_granted: None, detail: None }
    }
}

impl CaptureHealth {
    /// The roll-up of a capture subsystem: a disabled one can't be wrong; an
    /// enabled one is `Ok` only while running without denied access.
    pub open spec fn status_of(&self) -> HealthStatus {
        if !self.enabled {
            HealthStatus::Healthy
        } else if self.running && self.access_granted != Some(false) {
            HealthStatus::Healthy
        } else {
            HealthStatus::Degraded
        }
    }

    /// Capture was not requested for this node (ingest-only producer).
    pub fn disabled() -> (h: Self)
        ensures
            !h.enabled && !h.running && h.access_granted is None && h.detail is None,
    {
        CaptureHealth::default()
    }

    /// Capture requested, worker running, access granted.
    pub fn running() -> (h: Self)
        ensures
            h.enabled && h.running && h.access_granted == Some(true) && h.detail is None,
    {
        CaptureHealth { enabled: true, running: true, access_granted: Some(true), detail: None }
    }

    /// Capture requested but not working; `detail` explains why.
    pub fn stopped(access_granted: Option<bool>, detail: &str) -> (h: Self)
        ensures
            h.enabled && !h.running && h.access_granted == access_granted,
            h.detail matches Some(d) && d@ == detail@,
    {
        CaptureHealth { enabled: true, running: false, access_granted, detail: Some(copy_str(detail)) }
    }

    /// Roll this subsystem up into an overall status.
    pub fn status(&self) -> (s: HealthStatus)
        ensures
            s == self.status_of(),
    {
        if !self.enabled {
            return HealthStatus::Healthy;
        }
        let denied = match self.access_granted {
            Some(granted) => !granted,
            None => false,
        };
        if self.running && !denied {
            HealthStatus::Healthy
        } else {
            HealthStatus::Degraded
        }
    }
}

/// A producer's self-reported health, served at `GET /health`.
#[derive(Debug, PartialEq, Eq)]
pub struct ProducerHealth {
    /// Overall roll-up (currently driven by the capture subsystem).
    pub status: HealthStatus,
    /// Seconds since this producer started serving.
    pub uptime_secs: u64,
    /// Highest cursor the producer has assigned (`0` = nothing published yet).
    pub latest_cursor: Cursor,
    /// Notifications currently retained in the catch-up outbox.
    pub outbox_len: usize,
    /// Maximum the outbox will retain.
    pub outbox_capacity: usize,
    /// Capture subsystem status.
    pub capture: CaptureHealth,
}

impl Clone for ProducerHealth {
    fn clone(&self) -> (r: Self)
        ensures
            r == *self,
    {
        ProducerHealth {
            status: self.status,
            uptime_secs: self.uptime_secs,
            latest_cursor: self.latest_cursor,
            outbox_len: self.outbox_len,
            outbox_capacity: self.outbox_capacity,
            capture: self.capture.clone(),
        }
    }
}

impl ProducerHealth {
    /// The self-report a producer serves: the overall status is the capture
    /// subsystem's roll-up, and the outbox figures are read off the outbox.
    pub fn report(uptime_secs: u64, outbox: &Outbox, capture: CaptureHealth) -> (h: Self)
        ensures
            h.status == capture.status_of(),
            h.uptime_secs == uptime_secs,
            h.latest_cursor == outbox.next() - 1,
            h.outbox_len == outbox.events().len(),
            h.outbox_capacity == outbox.cap(),
            h.capture == capture,
    {
        ProducerHealth {
            status: capture.status(),
            uptime_secs,
            latest_cursor: outbox.latest(),
            outbox_len: outbox.len(),
            outbox_capacity: outbox.capacity(),
            capture,
        }
    }
}

/// The state of a consumer's connection to one producer.
#[derive(Debug, Clone, Copy, PartialEq, Eq, Structural)]
pub enum ConnectionState {
    /// Dialing for the first time.
    Connecting,
    /// Subscribed and streaming.
    Connected,
    /// The connection dropped or a dial failed; retrying.
    Reconnecting,
    /// Several consecutive dials failed, or retries are exhausted.
    Unreachable,
}

/// The live status of one producer connection, as a consumer sees it.
#[derive(Debug, PartialEq, Eq)]
pub struct ProducerStatus {
    /// The producer's base URL.
    pub url: String,
    pub state: ConnectionState,
    /// The last connection or stream error, if any.
    pub last_error: Option<String>,
    /// When the last event arrived (unix ms).
    pub last_event_unix_ms: Option<i64>,
    /// The producer's last self-report.
    pub health: Option<ProducerHealth>,
}

impl Clone for ProducerStatus {
    fn clone(&self) -> (r: Self)
        ensures
            r == *self,
    {
        ProducerStatus {
            url: self.url.clone(),
            state: self.state,
            last_error: copy_opt(&self.last_error),
            last_event_unix_ms: self.last_event_unix_ms,
            health: match &self.health {
                Some(h) => Some(h.clone()),
                None => None,
            },
        }
    }
}

impl ProducerStatus {
    /// A fresh status for `url`, starting in `Connecting` with nothing known.
    pub fn new(url: &str) -> (s: Self)
        ensures
            s.url@ == url@,
            s.state == ConnectionState::Connecting,
            s.last_error is None,
            s.last_event_unix_ms is None,
            s.health is None,
    {
        ProducerStatus {
            url: copy_str(url),
            state: ConnectionState::Connecting,
            last_error: None,
            last_event_unix_ms: None,
            health: None,
        }
    }
}

} // verus!
