//! `notifwire-send` internals: build a normalized notification from simple
//! inputs, where to POST it (a node's localhost ingest endpoint), and what
//! the node's answer means.

use vstd::prelude::*;
use crate::notification::{copy_opt, Notification, Priority, SourcePlatform};
use crate::outbox::Cursor;
use crate::text::{has_char, push_str};
use crate::transport::{join_url, join_url_exec};

verus! {

/// Inputs for constructing a notification from the command line.
#[derive(Debug)]
pub struct SendOpts {
    pub title: String,
    pub body: String,
    pub app: String,
    pub priority: Option<Priority>,
    pub icon: Option<String>,
    pub producer_node: String,
}

impl Clone for SendOpts {
    fn clone(&self) -> (r: Self)
        ensures
            r == *self,
    {
        SendOpts {
            title: self.title.clone(),
            body: self.body.clone(),
            app: self.app.clone(),
            priority: self.priority,
            icon: copy_opt(&self.icon),
            producer_node: self.producer_node.clone(),
        }
    }
}

/// The shape of a hyphenated, lower-case version-4 UUID: 36 characters,
/// hyphens at 8, 13, 18 and 23, the version digit `4` at 14, and lower-case
/// hex digits everywhere else.
pub open spec fn uuid_v4_shape(s: Seq<char>) -> bool {
    &&& s.len() == 36
    &&& s[8] == '-' && s[13] == '-' && s[18] == '-' && s[23] == '-'
    &&& s[14] == '4'
    &&& forall|i: int| 0 <= i < 36 && i != 8 && i != 13 && i != 18 && i != 23
        ==> ('0' <= #[trigger] s[i] <= '9' || 'a' <= s[i] <= 'f')
}

/// Calls `uuid::Uuid::new_v4` and renders it with `to_string`. Trusted: the
/// value is random, so only its shape is claimed: `to_string` writes the
/// lower-case hyphenated form, and `new_v4` sets the version nibble to 4.
#[verifier::external_body]
pub(crate) fn new_uuid() -> (s: String)
    ensures
        uuid_v4_shape(s@),
{
    uuid::Uuid::new_v4().to_string()
}

/// The shape of an RFC 3339 rendering of a UTC time: the date and the time
/// are separated by a `T`, and it ends with the `+00:00` offset.
pub open spec fn utc_rfc3339_shape(s: Seq<char>) -> bool {
    &&& has_char(s, 'T')
    &&& s.len() >= 6
    &&& s.subrange(s.len() - 6, s.len() as int) == seq!['+', '0', '0', ':', '0', '0']
}

/// Calls `chrono::Utc::now` and renders it with `to_rfc3339`. Trusted: the
/// value depends on the clock, so only its shape is claimed: `to_rfc3339`
/// writes the date, a `T`, the time, then the offset, which for UTC is
/// `+00:00`.
#[verifier::external_body]
pub(crate) fn now_rfc3339() -> (s: String)
    ensures
        utc_rfc3339_shape(s@),
{
    chrono::Utc::now().to_rfc3339()
}

/// The plugin id `notifwire-send` stamps on what it injects.
pub const SEND_PLUGIN_ID: &'static str = "notifwire-send";

/// The notification `opts` describe, with the given id and timestamp: a
/// plugin-sourced notification carrying the options' fields.
pub open spec fn built_from(n: &Notification, opts: &SendOpts, id: Seq<char>, timestamp: Seq<char>) -> bool {
    &&& n.id@ == id
    &&& n.producer_node@ == opts.producer_node@
    &&& n.source_platform == SourcePlatform::Plugin
    &&& n.app_name@ == opts.app@
    &&& n.title@ == opts.title@
    &&& n.body@ == opts.body@
    &&& n.timestamp@ == timestamp
    &&& n.plugin_id matches Some(p) && p@ == SEND_PLUGIN_ID@
    &&& n.priority == opts.priority
    &&& n.app_icon == opts.icon
    &&& n.subtitle is None
    &&& n.image is None
    &&& n.category is None
    &&& n.thread_id is None
    &&& n.icon_resolution is None
    &&& !n.is_synthetic
}

/// Build the notification `opts` describe, with the given id and timestamp.
pub fn build_notification_with(opts: &SendOpts, id: &str, timestamp: &str) -> (n: Notification)
    ensures
        built_from(&n, opts, id@, timestamp@),
{
    let mut n = Notification::new(
        id,
        opts.producer_node.as_str(),
        SourcePlatform::Plugin,
        opts.app.as_str(),
        opts.title.as_str(),
        opts.body.as_str(),
        timestamp,
    );
    let mut plugin = String::new();
    push_str(&mut plugin, SEND_PLUGIN_ID);
    n.plugin_id = Some(plugin);
    n.priority = opts.priority;
    n.app_icon = copy_opt(&opts.icon);
    n
}

/// Build a normalized notification from CLI inputs: a fresh UUID as its id,
/// the current time (RFC 3339, UTC) as its timestamp, and the plugin channel
/// as its source.
pub fn build_notification(opts: &SendOpts) -> (n: Notification)
    ensures
        uuid_v4_shape(n.id@),
        utc_rfc3339_shape(n.timestamp@),
        built_from(&n, opts, n.id@, n.timestamp@),
{
    let id = new_uuid();
    let timestamp = now_rfc3339();
    build_notification_with(opts, id.as_str(), timestamp.as_str())
}

/// The path of a node's ingest endpoint.
pub const INGEST_PATH: &'static str = "/ingest";

/// Where a notification is POSTed on a node: its URL without trailing
/// slashes, then `/ingest`.
pub fn ingest_url(node_url: &str) -> (u: String)
    ensures
        u@ == join_url(node_url@, INGEST_PATH@),
{
    join_url_exec(node_url, INGEST_PATH)
}

/// What `serde_json::from_str::<serde_json::Value>` makes of `text`, then
/// `get(key)` and `as_u64` on it: `None` when `text` is not JSON,
/// `Some(None)` when it is but has no unsigned integer (fitting a `u64`)
/// under `key` in a top-level object, and `Some(Some(v))` otherwise.
pub uninterp spec fn json_u64_field(text: Seq<char>, key: Seq<char>) -> Option<Option<u64>>;

/// Calls `serde_json::from_str::<serde_json::Value>` on `text`, then
/// `Value::get(key)` and `Value::as_u64` on the result. Trusted: the parse
/// is a function of the text alone, so its result is only named, by
/// `json_u64_field`, and not restated.
#[verifier::external_body]
pub(crate) fn parse_json_u64_field(text: &str, key: &str) -> (r: Option<Option<u64>>)
    ensures
        r == json_u64_field(text@, key@),
{
    match serde_json::from_str::<serde_json::Value>(text) {
        Ok(v) => Some(v.get(key).and_then(serde_json::Value::as_u64)),
        Err(_) => None,
    }
}

/// Why a node's answer to an ingest POST carries no cursor.
#[derive(Debug, Clone, Copy, PartialEq, Eq, Structural)]
pub enum IngestError {
    /// The node answered with a status other than success.
    Rejected,
    /// The answer is not JSON.
    Unparsable,
    /// The answer is JSON without an unsigned `seq`.
    MissingSeq,
}

/// The cursor an ingest answer reports: a failure status is rejected before
/// the body is read; then the body must parse, and carry `seq`.
pub open spec fn ingest_outcome(status_ok: bool, parsed: Option<Option<u64>>) -> Result<Cursor, IngestError> {
    if !status_ok {
        Err(IngestError::Rejected)
    } else {
        match parsed {
            None => Err(IngestError::Unparsable),
            Some(None) => Err(IngestError::MissingSeq),
            Some(Some(s)) => Ok(s),
        }
    }
}

/// The cursor an ingest answer reports, from its status and the parsed
/// `seq` field of its body.
pub fn ingest_seq_from(status_ok: bool, parsed: Option<Option<u64>>) -> (r: Result<Cursor, IngestError>)
    ensures
        r == ingest_outcome(status_ok, parsed),
{
    if !status_ok {
        return Err(IngestError::Rejected);
    }
    match parsed {
        None => Err(IngestError::Unparsable),
        Some(None) => Err(IngestError::MissingSeq),
        Some(Some(s)) => Ok(s),
    }
}

/// The key under which a node reports the assigned cursor.
pub const SEQ_KEY: &'static str = "seq";

/// The cursor a node's answer to an ingest POST reports, from whether its
/// status was a success and its body text.
pub fn ingest_result(status_ok: bool, text: &str) -> (r: Result<Cursor, IngestError>)
    ensures
        r == ingest_outcome(status_ok, json_u64_field(text@, SEQ_KEY@)),
{
    if !status_ok {
        return Err(IngestError::Rejected);
    }
    let parsed = parse_json_u64_field(text, SEQ_KEY);
    ingest_seq_from(status_ok, parsed)
}

} // verus!
