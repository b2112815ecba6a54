//! Versioned config schema and apply-if-newer semantics.
//!
//! Config sync is single-writer / many-readers by convention: the version
//! stamp carried inside the JSON is the guardrail. A reader applies an
//! incoming config only when it is strictly newer — a higher
//! `config_version`, or on a tie a later `updated_at` — the same high-water
//! mark logic as the notification cursor. The producer and focus payloads
//! ride along as opaque JSON.

use vstd::prelude::*;
use crate::text::{seq_lt, str_lt};

verus! {

/// Declares `serde_json::Value` so config payloads can be carried through
/// opaquely; nothing is claimed about its contents.
#[verifier::external_type_specification]
#[verifier::external_body]
pub struct ExJsonValue(serde_json::Value);

/// A synced configuration document, version-stamped in-band.
#[derive(Debug, PartialEq)]
pub struct Config {
    /// Monotonic high-water mark. The primary freshness signal.
    pub config_version: u64,
    /// ISO 8601 timestamp of the edit. Tie-breaker when versions are equal.
    pub updated_at: String,
    /// Node ID that produced this revision.
    pub updated_by: String,
    /// Producer definitions, carried as opaque JSON.
    pub producers: Vec<serde_json::Value>,
    /// Focus profiles, carried as opaque JSON.
    pub focuses: Vec<serde_json::Value>,
}

/// Result of comparing an incoming config against the one a reader holds.
#[derive(Debug, Clone, Copy, PartialEq, Eq, Structural)]
pub enum Freshness {
    /// The incoming config supersedes the current one and should be applied.
    Newer,
    /// The incoming config is the same revision or older; ignore it.
    SameOrOlder,
}

/// The (version, timestamp) stamp of `incoming` is strictly newer than that
/// of `current`: a higher version, or an equal version and a later
/// timestamp (compared lexicographically, which orders same-format UTC ISO
/// 8601 stamps chronologically).
pub open spec fn stamp_newer(incoming_version: u64, incoming_at: Seq<char>, current_version: u64, current_at: Seq<char>) -> bool {
    incoming_version > current_version || (incoming_version == current_version && seq_lt(current_at, incoming_at))
}

/// `incoming` supersedes `current`.
pub open spec fn newer(incoming: &Config, current: &Config) -> bool {
    stamp_newer(incoming.config_version, incoming.updated_at@, current.config_version, current.updated_at@)
}

impl Config {
    /// Compare `self` (the incoming config) against the config a reader
    /// currently holds.
    pub fn freshness_vs(&self, current: &Config) -> (f: Freshness)
        ensures
            f == (if newer(self, current) { Freshness::Newer } else { Freshness::SameOrOlder }),
    {
        let newer = self.config_version > current.config_version || (self.config_version == current.config_version
            && str_lt(current.updated_at.as_str(), self.updated_at.as_str()));
        if newer {
            Freshness::Newer
        } else {
            Freshness::SameOrOlder
        }
    }

    /// True iff `self` (incoming) is strictly newer than `current`.
    pub fn is_newer_than(&self, current: &Config) -> (b: bool)
        ensures
            b == newer(self, current),
    {
        self.freshness_vs(current) == Freshness::Newer
    }

    /// Replace `self` with `incoming` only if `incoming` is newer. Returns
    /// whether the config was applied.
    pub fn apply_if_newer(&mut self, incoming: Config) -> (applied: bool)
        ensures
            applied == newer(&incoming, old(self)),
            applied ==> *final(self) == incoming,
            !applied ==> *final(self) == *old(self),
    {
        if incoming.is_newer_than(self) {
            *self = incoming;
            true
        } else {
            false
        }
    }
}

} // verus!
