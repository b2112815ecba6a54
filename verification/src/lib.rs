//! notifwire: the OS-independent core of a peer-to-peer notification mesh.

pub mod text;
pub mod notification;
pub mod names;
pub mod rules;
pub mod outbox;
pub mod dedup;
pub mod calendar;
pub mod health;
pub mod consumer;
pub mod transport;
pub mod icon;
pub mod toast;
pub mod capture;
pub mod sink;
pub mod config;
pub mod cli;
pub mod settings;
pub mod appconfig;
pub mod laws;

use vstd::prelude::*;

verus! {

/// Crate version string, surfaced in handshakes and `--version` output.
pub const VERSION: &'static str = "0.1.0";

} // verus!

pub use capture::{CaptureError, NotificationSource, SyntheticSource};
pub use config::{Config, Freshness};
pub use consumer::{format_line, format_notification, ReconnectPolicy};
pub use dedup::Deduper;
pub use health::{CaptureHealth, ConnectionState, HealthStatus, ProducerHealth, ProducerStatus};
pub use icon::{classify, icon_chain, IconRef, IconStep};
pub use notification::{Notification, Priority, SourcePlatform};
pub use outbox::{CatchUp, Cursor, Outbox, Sequenced};
pub use rules::{DefaultMode, Filter, FilterAction, MatchField, Rules, Verdict};
pub use sink::{DisplayError, NotificationSink};
pub use transport::{MeshProducer, SseClient, TransportError};
