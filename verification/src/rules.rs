//! The consumer-side rules engine.
//!
//! Given a received [`Notification`] and a [`Rules`] set, decide whether to
//! show it. Evaluation order: app gate (explicit per-app checkmark, else the
//! default mode), then block filters (any match suppresses), then allow
//! filters (if any exist, at least one must match).

use vstd::prelude::*;
use crate::notification::Notification;
use crate::names::NameMap;
use crate::text::{chars_of, contains_chars, contains_seq, lowercase, to_lowercase};

verus! {

/// How apps that aren't explicitly configured are treated.
#[derive(Debug, Clone, Copy, PartialEq, Eq, Structural)]
pub enum DefaultMode {
    /// Show notifications from apps not in the list (blacklist-style).
    Allow,
    /// Hide notifications from apps not in the list (whitelist-style).
    Block,
}

impl Default for DefaultMode {
    fn default() -> (m: Self)
        ensures
            m == DefaultMode::Allow,
    {
        DefaultMode::Allow
    }
}

/// Which part of a notification a [`Filter`] matches against.
#[derive(Debug, Clone, Copy, PartialEq, Eq, Structural)]
pub enum MatchField {
    Title,
    Body,
    AppName,
    /// Title, body, or app name.
    Any,
}

/// What a matching [`Filter`] does.
#[derive(Debug, Clone, Copy, PartialEq, Eq, Structural)]
pub enum FilterAction {
    /// A notification must match at least one `Allow` filter (when any exist).
    Allow,
    /// A matching notification is suppressed.
    Block,
}

/// A case-insensitive substring filter on one field of a notification.
#[derive(Debug, PartialEq, Eq)]
pub struct Filter {
    pub field: MatchField,
    /// Substring to look for (matched case-insensitively).
    pub contains: String,
    pub action: FilterAction,
}

impl Clone for Filter {
    fn clone(&self) -> (r: Self)
        ensures
            r == *self,
    {
        Filter { field: self.field, contains: self.contains.clone(), action: self.action }
    }
}

/// The decision for a single notification.
#[derive(Debug, Clone, Copy, PartialEq, Eq, Structural)]
pub enum Verdict {
    Show,
    Suppress,
}

/// `needle` (already lower-cased) occurs in the lower-cased `s`.
pub open spec fn hit(s: Seq<char>, needle: Seq<char>) -> bool {
    contains_seq(lowercase(s), needle)
}

/// Whether filter `f` matches notification `n`: its lower-cased keyword is
/// non-empty and occurs in the lower-cased field(s) it is scoped to.
pub open spec fn filter_matches(f: &Filter, n: &Notification) -> bool {
    let needle = lowercase(f.contains@);
    needle.len() > 0 && match f.field {
        MatchField::Title => hit(n.title@, needle),
        MatchField::Body => hit(n.body@, needle),
        MatchField::AppName => hit(n.app_name@, needle),
        MatchField::Any => hit(n.title@, needle) || hit(n.body@, needle) || hit(n.app_name@, needle),
    }
}

fn hit_exec(s: &str, needle: &[char]) -> (r: bool)
    ensures
        r == hit(s@, needle@),
{
    let lower = to_lowercase(s);
    let hay = chars_of(lower.as_str());
    contains_chars(hay.as_slice(), needle)
}

impl Filter {
    /// Whether this filter matches `n` (see [`filter_matches`]).
    pub fn matches(&self, n: &Notification) -> (r: bool)
        ensures
            r == filter_matches(self, n),
    {
        let lower = to_lowercase(self.contains.as_str());
        let needle = chars_of(lower.as_str());
        if needle.len() == 0 {
            return false;
        }
        match self.field {
            MatchField::Title => hit_exec(n.title.as_str(), needle.as_slice()),
            MatchField::Body => hit_exec(n.body.as_str(), needle.as_slice()),
            MatchField::AppName => hit_exec(n.app_name.as_str(), needle.as_slice()),
            MatchField::Any => {
                hit_exec(n.title.as_str(), needle.as_slice()) || hit_exec(n.body.as_str(), needle.as_slice())
                    || hit_exec(n.app_name.as_str(), needle.as_slice())
            },
        }
    }
}

/// Per-app checkmarks: app name to shown (`true`) or hidden (`false`).
pub type AppMap = NameMap<bool>;

// ---------------------------------------------------------------------------
// Rules
// ---------------------------------------------------------------------------

/// A set of rules: the default mode, per-app on/off toggles, and text filters.
#[derive(Debug, PartialEq, Eq)]
pub struct Rules {
    pub default_mode: DefaultMode,
    /// Per-app checkmark: `true` = shown, `false` = hidden. Apps not present
    /// fall back to `default_mode`.
    pub apps: AppMap,
    pub filters: Vec<Filter>,
}

impl Clone for Rules {
    fn clone(&self) -> (r: Self)
        ensures
            r.default_mode == self.default_mode,
            r.apps@ == self.apps@,
            r.filters@ == self.filters@,
    {
        let mut filters: Vec<Filter> = Vec::new();
        let mut i: usize = 0;
        while i < self.filters.len()
            invariant
                i <= self.filters@.len(),
                filters@.len() == i,
                forall|j: int| 0 <= j < i ==> #[trigger] filters@[j] == self.filters@[j],
            decreases self.filters.len() - i,
        {
            filters.push(self.filters[i].clone());
            i = i + 1;
        }
        assert(filters@ =~= self.filters@);
        Rules { default_mode: self.default_mode, apps: self.apps.clone(), filters }
    }
}

impl Default for Rules {
    fn default() -> (r: Self)
        ensures
            r.default_mode == DefaultMode::Allow,
            r.apps@ == Map::<Seq<char>, bool>::empty(),
            r.filters@.len() == 0,
    {
        Rules { default_mode: DefaultMode::Allow, apps: NameMap::new(), filters: Vec::new() }
    }
}

impl Rules {
    /// Whether the app gate lets `app` through: its explicit checkmark if it
    /// has one, else the default mode.
    pub open spec fn app_allowed(&self, app: Seq<char>) -> bool {
        if self.apps@.contains_key(app) {
            self.apps@[app]
        } else {
            self.default_mode == DefaultMode::Allow
        }
    }

    /// Some block filter matches `n`.
    pub open spec fn blocked(&self, n: &Notification) -> bool {
        exists|i: int|
            0 <= i < self.filters@.len() && self.filters@[i].action == FilterAction::Block
                && filter_matches(&self.filters@[i], n)
    }

    /// There is at least one allow filter.
    pub open spec fn has_allow_filters(&self) -> bool {
        exists|i: int| 0 <= i < self.filters@.len() && self.filters@[i].action == FilterAction::Allow
    }

    /// Some allow filter matches `n`.
    pub open spec fn allow_matched(&self, n: &Notification) -> bool {
        exists|i: int|
            0 <= i < self.filters@.len() && self.filters@[i].action == FilterAction::Allow
                && filter_matches(&self.filters@[i], n)
    }

    /// The decision for `n`: app gate, then block filters, then allow filters.
    pub open spec fn decide(&self, n: &Notification) -> Verdict {
        if !self.app_allowed(n.app_name@) {
            Verdict::Suppress
        } else if self.blocked(n) {
            Verdict::Suppress
        } else if self.has_allow_filters() && !self.allow_matched(n) {
            Verdict::Suppress
        } else {
            Verdict::Show
        }
    }

    /// Decide whether a notification should be shown.
    pub fn evaluate(&self, n: &Notification) -> (v: Verdict)
        ensures
            v == self.decide(n),
    {
        // 1. App gate: explicit checkmark, else the default mode.
        let app_allowed = match self.apps.get(n.app_name.as_str()) {
            Some(flag) => flag,
            None => self.default_mode == DefaultMode::Allow,
        };
        if !app_allowed {
            return Verdict::Suppress;
        }
        // 2. Block filters: any match suppresses.
        let mut i: usize = 0;
        while i < self.filters.len()
            invariant
                i <= self.filters@.len(),
                forall|j: int|
                    0 <= j < i ==> !(self.filters@[j].action == FilterAction::Block
                        && #[trigger] filter_matches(&self.filters@[j], n)),
            decreases self.filters.len() - i,
        {
            if self.filters[i].action == FilterAction::Block && self.filters[i].matches(n) {
                return Verdict::Suppress;
            }
            i = i + 1;
        }
        // 3. Allow filters: if any exist, at least one must match.
        let mut any_allow = false;
        let mut any_match = false;
        let mut i: usize = 0;
        while i < self.filters.len()
            invariant
                i <= self.filters@.len(),
                any_allow == exists|j: int| 0 <= j < i && self.filters@[j].action == FilterAction::Allow,
                any_match == exists|j: int|
                    0 <= j < i && self.filters@[j].action == FilterAction::Allow
                        && filter_matches(&self.filters@[j], n),
            decreases self.filters.len() - i,
        {
            if self.filters[i].action == FilterAction::Allow {
                any_allow = true;
                if !any_match && self.filters[i].matches(n) {
                    any_match = true;
                }
            }
            proof {
                if any_match {
                    assert(exists|j: int| 0 <= j < i + 1 && self.filters@[j].action == FilterAction::Allow
                        && filter_matches(&self.filters@[j], n));
                }
            }
            i = i + 1;
        }
        if any_allow && !any_match {
            return Verdict::Suppress;
        }
        Verdict::Show
    }

    /// Convenience: `true` if the notification should be shown.
    pub fn allows(&self, n: &Notification) -> (b: bool)
        ensures
            b == (self.decide(n) == Verdict::Show),
    {
        self.evaluate(n) == Verdict::Show
    }
}

} // verus!
