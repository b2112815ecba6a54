//! The normalized notification data model.
//!
//! Every notification, captured from an OS or injected by a plugin or
//! `notifwire-send`, is normalized to this schema before it enters the mesh: a
//! lowest-common-denominator core guaranteed on every platform, plus optional
//! extended fields carried when the source provides them.

use vstd::prelude::*;
use crate::text::copy_str;

verus! {

/// Where a notification originated.
#[derive(Debug, Clone, Copy, PartialEq, Eq, Structural)]
pub enum SourcePlatform {
    Macos,
    Windows,
    Linux,
    Android,
    /// Injected by an input plugin or `notifwire-send` (see `plugin_id`).
    Plugin,
}

/// Delivery priority; absent means [`Priority::Normal`].
#[derive(Debug, Clone, Copy, PartialEq, Eq, Structural)]
pub enum Priority {
    Low,
    Normal,
    High,
    Urgent,
}

impl Default for Priority {
    fn default() -> (p: Self)
        ensures
            p == Priority::Normal,
    {
        Priority::Normal
    }
}

/// A single normalized notification.
///
/// The first seven fields are guaranteed on every platform; the rest are
/// extended fields carried only when available.
#[derive(Debug, PartialEq, Eq)]
pub struct Notification {
    /// UUID generated at capture.
    pub id: String,
    /// Node ID that captured it.
    pub producer_node: String,
    /// Originating platform.
    pub source_platform: SourcePlatform,
    /// App that fired the notification.
    pub app_name: String,
    pub title: String,
    pub body: String,
    /// ISO 8601, captured at receive time.
    pub timestamp: String,
    /// Set when the source platform is [`SourcePlatform::Plugin`].
    pub plugin_id: Option<String>,
    /// Icon reference (path, URL, domain or brand name).
    pub app_icon: Option<String>,
    /// Middle line between title and body (macOS, iOS).
    pub subtitle: Option<String>,
    /// Inline or hero image (Android, Windows).
    pub image: Option<String>,
    /// App-defined notification category.
    pub category: Option<String>,
    /// Grouping key for related notifications.
    pub thread_id: Option<String>,
    /// Source icon resolution before normalization.
    pub icon_resolution: Option<String>,
    /// Delivery priority; `None` is treated as [`Priority::Normal`].
    pub priority: Option<Priority>,
    /// True for battery events, plugin-generated notifications, etc.
    pub is_synthetic: bool,
}

/// A copy of an optional string.
pub fn copy_opt(s: &Option<String>) -> (r: Option<String>)
    ensures
        r == *s,
{
    match s {
        Some(v) => Some(v.clone()),
        None => None,
    }
}

impl Clone for Notification {
    fn clone(&self) -> (r: Self)
        ensures
            r == *self,
    {
        Notification {
            id: self.id.clone(),
            producer_node: self.producer_node.clone(),
            source_platform: self.source_platform,
            app_name: self.app_name.clone(),
            title: self.title.clone(),
            body: self.body.clone(),
            timestamp: self.timestamp.clone(),
            plugin_id: copy_opt(&self.plugin_id),
            app_icon: copy_opt(&self.app_icon),
            subtitle: copy_opt(&self.subtitle),
            image: copy_opt(&self.image),
            category: copy_opt(&self.category),
            thread_id: copy_opt(&self.thread_id),
            icon_resolution: copy_opt(&self.icon_resolution),
            priority: self.priority,
            is_synthetic: self.is_synthetic,
        }
    }
}

impl Notification {
    /// The effective priority: an absent value resolves to `Normal`.
    pub open spec fn effective_priority(&self) -> Priority {
        match self.priority {
            Some(p) => p,
            None => Priority::Normal,
        }
    }

    /// Construct a notification from the guaranteed fields, leaving every
    /// extended field unset.
    pub fn new(
        id: &str,
        producer_node: &str,
        source_platform: SourcePlatform,
        app_name: &str,
        title: &str,
        body: &str,
        timestamp: &str,
    ) -> (n: Self)
        ensures
            n.id@ == id@,
            n.producer_node@ == producer_node@,
            n.source_platform == source_platform,
            n.app_name@ == app_name@,
            n.title@ == title@,
            n.body@ == body@,
            n.timestamp@ == timestamp@,
            n.plugin_id is None,
            n.app_icon is None,
            n.subtitle is None,
            n.image is None,
            n.category is None,
            n.thread_id is None,
            n.icon_resolution is None,
            n.priority is None,
            !n.is_synthetic,
    {
        Notification {
            id: copy_str(id),
            producer_node: copy_str(producer_node),
            source_platform,
            app_name: copy_str(app_name),
            title: copy_str(title),
            body: copy_str(body),
            timestamp: copy_str(timestamp),
            plugin_id: None,
            app_icon: None,
            subtitle: None,
            image: None,
            category: None,
            thread_id: None,
            icon_resolution: None,
            priority: None,
            is_synthetic: false,
        }
    }

    /// Effective priority, resolving an absent value to [`Priority::Normal`].
    pub fn priority(&self) -> (p: Priority)
        ensures
            p == self.effective_priority(),
    {
        match self.priority {
            Some(p) => p,
            None => Priority::Normal,
        }
    }
}

} // verus!
