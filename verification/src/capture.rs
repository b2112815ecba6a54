//! The OS-capture seam.
//!
//! Capturing notifications from a host OS is platform-specific; the pipeline
//! is driven by a source of notifications instead, which in tests is a
//! [`SyntheticSource`]: a fixed queue yielded in order, then exhausted.

use vstd::prelude::*;
use std::collections::{HashSet, VecDeque};
use crate::cli::{new_uuid, now_rfc3339, utc_rfc3339_shape, uuid_v4_shape};
use crate::notification::{Notification, SourcePlatform};
use crate::toast::{joined, title_body_from_lines};
use crate::text::push_str;

verus! {

/// Something went wrong capturing from the OS.
#[derive(Debug, PartialEq, Eq)]
pub enum CaptureError {
    /// The OS hasn't granted notification-access permission.
    AccessDenied,
    /// The platform capture backend failed.
    Backend(String),
}

pub const ACCESS_DENIED_MESSAGE: &'static str = "notification access not granted";

pub const CAPTURE_BACKEND_PREFIX: &'static str = "capture backend error: ";

impl CaptureError {
    /// The human-readable message.
    pub open spec fn message_spec(&self) -> Seq<char> {
        match self {
            CaptureError::AccessDenied => ACCESS_DENIED_MESSAGE@,
            CaptureError::Backend(d) => CAPTURE_BACKEND_PREFIX@ + d@,
        }
    }

    /// The error as text, e.g. `notification access not granted`.
    pub fn message(&self) -> (m: String)
        ensures
            m@ == self.message_spec(),
    {
        let mut m = String::new();
        match self {
            CaptureError::AccessDenied => {
                push_str(&mut m, ACCESS_DENIED_MESSAGE);
            },
            CaptureError::Backend(d) => {
                push_str(&mut m, CAPTURE_BACKEND_PREFIX);
                push_str(&mut m, d.as_str());
            },
        }
        m
    }
}

/// A source of captured notifications: an OS bridge in production, or a
/// [`SyntheticSource`] in tests. Implementors normalize whatever the
/// platform hands them into a [`Notification`] before yielding it.
pub trait NotificationSource {
    /// A short label for logs.
    fn name(&self) -> &str;

    /// The next captured notification, `None` once the source is exhausted.
    fn next(&mut self) -> Result<Option<Notification>, CaptureError>;
}

/// An in-memory source that yields a queue of notifications in order and
/// then ends.
#[derive(Debug)]
pub struct SyntheticSource {
    queue: VecDeque<Notification>,
}

impl SyntheticSource {
    /// The notifications still to be yielded, in order.
    pub closed spec fn pending(&self) -> Seq<Notification> {
        self.queue@
    }

    /// A source pre-loaded with `notifications`, yielded in order.
    pub fn new(notifications: Vec<Notification>) -> (s: Self)
        ensures
            s.pending() == notifications@,
    {
        let mut queue: VecDeque<Notification> = VecDeque::new();
        let mut notifications = notifications;
        let ghost all = notifications@;
        let mut rev: Vec<Notification> = Vec::new();
        while notifications.len() > 0
            invariant
                rev@.len() + notifications@.len() == all.len(),
                forall|i: int| 0 <= i < notifications@.len() ==> #[trigger] notifications@[i] == all[i],
                forall|i: int| 0 <= i < rev@.len() ==> #[trigger] rev@[i] == all[all.len() - 1 - i],
            decreases notifications.len(),
        {
            let n = notifications.pop().unwrap();
            rev.push(n);
        }
        while rev.len() > 0
            invariant
                rev@.len() + queue@.len() == all.len(),
                forall|i: int| 0 <= i < rev@.len() ==> #[trigger] rev@[i] == all[all.len() - 1 - i],
                forall|i: int| 0 <= i < queue@.len() ==> #[trigger] queue@[i] == all[i],
            decreases rev.len(),
        {
            let n = rev.pop().unwrap();
            queue.push_back(n);
        }
        assert(queue@ =~= all);
        SyntheticSource { queue }
    }

    /// Queue another notification to be yielded.
    pub fn push(&mut self, notification: Notification)
        ensures
            final(self).pending() == old(self).pending().push(notification),
    {
        self.queue.push_back(notification);
    }

    /// The next queued notification, `None` once the queue is exhausted.
    pub fn pop_next(&mut self) -> (n: Option<Notification>)
        ensures
            old(self).pending().len() == 0 ==> n is None && final(self).pending() == old(self).pending(),
            old(self).pending().len() > 0 ==> n == Some(old(self).pending()[0])
                && final(self).pending() == old(self).pending().drop_first(),
    {
        self.queue.pop_front()
    }
}

impl Default for SyntheticSource {
    fn default() -> (s: Self)
        ensures
            s.pending().len() == 0,
    {
        SyntheticSource { queue: VecDeque::new() }
    }
}

impl NotificationSource for SyntheticSource {
    fn name(&self) -> (s: &str)
        ensures
            s@ == "synthetic"@,
    {
        "synthetic"
    }

    /// Yields the queue in order, never failing.
    fn next(&mut self) -> (r: Result<Option<Notification>, CaptureError>)
        ensures
            old(self).pending().len() == 0 ==> r == Ok::<Option<Notification>, CaptureError>(None)
                && final(self).pending() == old(self).pending(),
            old(self).pending().len() > 0 ==> r == Ok::<Option<Notification>, CaptureError>(Some(old(self).pending()[0]))
                && final(self).pending() == old(self).pending().drop_first(),
    {
        Ok(self.pop_next())
    }
}

/// The ids of the OS toasts already captured, so that polling the OS's
/// notification list, which returns every toast still on screen, yields each
/// toast once.
#[derive(Debug)]
pub struct SeenToasts {
    ids: HashSet<u32>,
}

impl SeenToasts {
    /// The ids seen so far.
    pub closed spec fn ids(&self) -> Set<u32> {
        self.ids@
    }

    /// Nothing seen yet.
    pub fn new() -> (s: Self)
        ensures
            s.ids() == Set::<u32>::empty(),
    {
        SeenToasts { ids: HashSet::new() }
    }

    /// Record a sighting of toast `id`: `true` the first time only.
    pub fn first_sighting(&mut self, id: u32) -> (fresh: bool)
        ensures
            fresh == !old(self).ids().contains(id),
            final(self).ids() == old(self).ids().insert(id),
    {
        broadcast use vstd::std_specs::hash::group_hash_axioms;
        self.ids.insert(id)
    }
}

/// A toast captured on node `node` from app `app_name` whose text elements
/// were `lines`: a Windows-sourced notification whose title is the first line
/// and whose body is the rest, joined with newlines.
pub open spec fn captured_from(n: &Notification, node: Seq<char>, app_name: Seq<char>, lines: Seq<String>) -> bool {
    &&& n.producer_node@ == node
    &&& n.source_platform == SourcePlatform::Windows
    &&& n.app_name@ == app_name
    &&& (lines.len() == 0 ==> n.title@.len() == 0 && n.body@.len() == 0)
    &&& (lines.len() > 0 ==> n.title@ == lines[0]@
        && n.body@ == joined(lines.subrange(1, lines.len() as int).map_values(|l: String| l@)))
    &&& n.plugin_id is None
    &&& n.app_icon is None
    &&& n.subtitle is None
    &&& n.image is None
    &&& n.category is None
    &&& n.thread_id is None
    &&& n.icon_resolution is None
    &&& n.priority is None
    &&& !n.is_synthetic
}

/// Normalize a captured toast: a fresh UUID as its id and the current time
/// (RFC 3339, UTC) as its timestamp.
pub fn captured_toast(node: &str, app_name: &str, lines: &Vec<String>) -> (n: Notification)
    ensures
        uuid_v4_shape(n.id@),
        utc_rfc3339_shape(n.timestamp@),
        captured_from(&n, node@, app_name@, lines@),
{
    let (title, body) = title_body_from_lines(lines);
    let id = new_uuid();
    let timestamp = now_rfc3339();
    Notification::new(
        id.as_str(),
        node,
        SourcePlatform::Windows,
        app_name,
        title.as_str(),
        body.as_str(),
        timestamp.as_str(),
    )
}

} // verus!
