//! The desktop app's settings: configured producers, rules, retention,
//! focuses (named rule profiles) and focus schedules, with every edit the
//! settings UI can make. Loading and saving `config.json`, connecting to
//! producers and pruning history are done by the app around these.

use vstd::prelude::*;
use crate::names::NameMap;
use crate::notification::copy_opt;
use crate::rules::{DefaultMode, Filter, FilterAction, MatchField, Rules};
use crate::text::{copy_str, dec_digits, hex_digits, push_char, push_dec, push_hex, push_str, str_eq, trim, trim_str, string_from_chars};

verus! {

// ---------------------------------------------------------------------------
// Messages
// ---------------------------------------------------------------------------

/// `head`, then `x`, then `tail`.
pub fn message(head: &str, x: &str, tail: &str) -> (m: String)
    ensures
        m@ == head@ + x@ + tail@,
{
    let mut m = String::new();
    push_str(&mut m, head);
    push_str(&mut m, x);
    push_str(&mut m, tail);
    assert(m@ =~= head@ + x@ + tail@);
    m
}

/// An owned copy of a literal message.
pub fn literal(s: &str) -> (m: String)
    ensures
        m@ == s@,
{
    copy_str(s)
}

// ---------------------------------------------------------------------------
// Producers and retention
// ---------------------------------------------------------------------------

/// One configured producer.
#[derive(Debug, PartialEq, Eq)]
pub struct ProducerEntry {
    pub url: String,
    /// Optional friendly display name shown in the UI.
    pub label: Option<String>,
    pub enabled: bool,
}

impl Clone for ProducerEntry {
    fn clone(&self) -> (r: Self)
        ensures
            r == *self,
    {
        ProducerEntry { url: self.url.clone(), label: copy_opt(&self.label), enabled: self.enabled }
    }
}

/// Retention: how long to keep history, globally and per producer.
#[derive(Debug, PartialEq, Eq)]
pub struct RetentionConfig {
    /// Default retention in days.
    pub default_days: u32,
    /// Optional global cap on the number of stored notifications.
    pub max_count: Option<u32>,
    /// Per-producer URL overrides: producer URL to retention days.
    pub per_producer: NameMap<u32>,
}

impl Clone for RetentionConfig {
    fn clone(&self) -> (r: Self)
        ensures
            r.default_days == self.default_days,
            r.max_count == self.max_count,
            r.per_producer@ == self.per_producer@,
    {
        RetentionConfig {
            default_days: self.default_days,
            max_count: self.max_count,
            per_producer: self.per_producer.clone(),
        }
    }
}

impl Default for RetentionConfig {
    fn default() -> (r: Self)
        ensures
            r.default_days == 30,
            r.max_count is None,
            r.per_producer@ == Map::<Seq<char>, u32>::empty(),
    {
        RetentionConfig { default_days: 30, max_count: None, per_producer: NameMap::new() }
    }
}

/// The smallest of `default` and the values of `m` (the retention that
/// governs a single global cutoff).
pub open spec fn is_min_days(d: u32, default: u32, m: Map<Seq<char>, u32>) -> bool {
    &&& d <= default
    &&& forall|k: Seq<char>| #[trigger] m.contains_key(k) ==> d <= m[k]
    &&& (d == default || exists|k: Seq<char>| #[trigger] m.contains_key(k) && d == m[k])
}

impl RetentionConfig {
    /// The minimum configured days across the default and every
    /// per-producer override: a safe global cutoff.
    pub fn min_days(&self) -> (d: u32)
        ensures
            is_min_days(d, self.default_days, self.per_producer@),
    {
        let pairs = self.per_producer.to_vec();
        let mut d = self.default_days;
        let mut i: usize = 0;
        while i < pairs.len()
            invariant
                i <= pairs@.len(),
                pairs@.len() == self.per_producer@.len(),
                forall|j: int| 0 <= j < pairs@.len() ==> self.per_producer@.contains_key(#[trigger] pairs@[j].0@)
                    && self.per_producer@[pairs@[j].0@] == pairs@[j].1,
                d <= self.default_days,
                forall|j: int| 0 <= j < i ==> d <= #[trigger] pairs@[j].1,
                d == self.default_days || exists|j: int| 0 <= j < i && d == #[trigger] pairs@[j].1,
            decreases pairs.len() - i,
        {
            if pairs[i].1 < d {
                d = pairs[i].1;
            }
            i = i + 1;
        }
        proof {
            assert forall|k: Seq<char>| #[trigger] self.per_producer@.contains_key(k) implies d <= self.per_producer@[k] by {
                let j = choose|j: int| 0 <= j < pairs@.len() && pairs@[j].0@ == k;
                assert(d <= pairs@[j].1);
            }
            if d != self.default_days {
                let j = choose|j: int| 0 <= j < i && d == #[trigger] pairs@[j].1;
                assert(self.per_producer@.contains_key(pairs@[j].0@));
            }
        }
        d
    }
}

/// Milliseconds in a day.
pub const DAY_MS: i64 = 86_400_000;

/// The history cutoff `days` before `now_ms`: rows older than it are pruned.
pub fn retention_cutoff_ms(now_ms: i64, days: u32) -> (c: i64)
    requires
        now_ms - days * DAY_MS >= i64::MIN,
    ensures
        c == now_ms - days * DAY_MS,
{
    now_ms - (days as i64) * DAY_MS
}

/// How many of the oldest history rows pruning to `max_count` deletes when
/// `current` rows are stored: none when already within the cap.
pub fn excess_rows(current: usize, max_count: usize) -> (n: usize)
    ensures
        current <= max_count ==> n == 0,
        current > max_count ==> n == current - max_count,
{
    if current <= max_count {
        0
    } else {
        current - max_count
    }
}

// ---------------------------------------------------------------------------
// Weekdays and time ranges
// ---------------------------------------------------------------------------

/// Day of the week, for schedule matching.
#[derive(Debug, Clone, Copy, PartialEq, Eq, Structural)]
pub enum Weekday {
    Mon,
    Tue,
    Wed,
    Thu,
    Fri,
    Sat,
    Sun,
}

/// The weekday a lower-case three-letter name denotes.
pub open spec fn weekday_named(s: Seq<char>) -> Option<Weekday> {
    if s == "mon"@ {
        Some(Weekday::Mon)
    } else if s == "tue"@ {
        Some(Weekday::Tue)
    } else if s == "wed"@ {
        Some(Weekday::Wed)
    } else if s == "thu"@ {
        Some(Weekday::Thu)
    } else if s == "fri"@ {
        Some(Weekday::Fri)
    } else if s == "sat"@ {
        Some(Weekday::Sat)
    } else if s == "sun"@ {
        Some(Weekday::Sun)
    } else {
        None
    }
}

pub const WEEKDAY_ERR_HEAD: &'static str = "unknown weekday '";

pub const WEEKDAY_ERR_TAIL: &'static str = "'; expected mon|tue|wed|thu|fri|sat|sun";

/// What parsing a weekday name yields: the weekday, or the error message.
pub open spec fn weekday_parse(s: Seq<char>) -> Result<Weekday, Seq<char>> {
    match weekday_named(s) {
        Some(d) => Ok(d),
        None => Err(WEEKDAY_ERR_HEAD@ + s + WEEKDAY_ERR_TAIL@),
    }
}

/// Parse a weekday string (`mon` ... `sun`).
pub fn parse_weekday(s: &str) -> (r: Result<Weekday, String>)
    ensures
        match (r, weekday_parse(s@)) {
            (Ok(d), Ok(e)) => d == e,
            (Err(m), Err(e)) => m@ == e,
            _ => false,
        },
{
    if str_eq(s, "mon") {
        Ok(Weekday::Mon)
    } else if str_eq(s, "tue") {
        Ok(Weekday::Tue)
    } else if str_eq(s, "wed") {
        Ok(Weekday::Wed)
    } else if str_eq(s, "thu") {
        Ok(Weekday::Thu)
    } else if str_eq(s, "fri") {
        Ok(Weekday::Fri)
    } else if str_eq(s, "sat") {
        Ok(Weekday::Sat)
    } else if str_eq(s, "sun") {
        Ok(Weekday::Sun)
    } else {
        Err(message(WEEKDAY_ERR_HEAD, s, WEEKDAY_ERR_TAIL))
    }
}

/// A half-open time range in HHMM notation (local time); if `end_hhmm <
/// start_hhmm` the range wraps midnight.
#[derive(Debug, Clone, Copy, PartialEq, Eq, Structural)]
pub struct TimeRange {
    /// e.g. 2200 = 22:00
    pub start_hhmm: u16,
    /// e.g. 700 = 07:00
    pub end_hhmm: u16,
}

/// `hhmm` falls in `range`: `[start, end)`, or, when it wraps midnight,
/// from `start` on or before `end`.
pub open spec fn in_range(hhmm: u16, range: TimeRange) -> bool {
    if range.end_hhmm < range.start_hhmm {
        hhmm >= range.start_hhmm || hhmm < range.end_hhmm
    } else {
        hhmm >= range.start_hhmm && hhmm < range.end_hhmm
    }
}

/// Return true if `hhmm` (e.g. 2230 = 22:30) falls inside `range`.
pub fn hhmm_in_range(hhmm: u16, range: &TimeRange) -> (b: bool)
    ensures
        b == in_range(hhmm, *range),
{
    let s = range.start_hhmm;
    let e = range.end_hhmm;
    if e < s {
        hhmm >= s || hhmm < e
    } else {
        hhmm >= s && hhmm < e
    }
}

// ---------------------------------------------------------------------------
// Focuses and schedules
// ---------------------------------------------------------------------------

/// A named filter profile.
#[derive(Debug, PartialEq, Eq)]
pub struct Focus {
    /// Stable local id.
    pub id: String,
    pub name: String,
    /// Emoji or short decorative string shown next to the name.
    pub icon: Option<String>,
    /// Rules that gate which notifications this focus shows.
    pub rules: Rules,
    /// Lower value: higher in the list.
    pub sort_order: u32,
}

impl Clone for Focus {
    fn clone(&self) -> (r: Self)
        ensures
            r.id == self.id,
            r.name == self.name,
            r.icon == self.icon,
            r.rules.default_mode == self.rules.default_mode,
            r.rules.apps@ == self.rules.apps@,
            r.rules.filters@ == self.rules.filters@,
            r.sort_order == self.sort_order,
    {
        Focus {
            id: self.id.clone(),
            name: self.name.clone(),
            icon: copy_opt(&self.icon),
            rules: self.rules.clone(),
            sort_order: self.sort_order,
        }
    }
}

/// A saved schedule: activate `focus_id` on `days` during `time_range`.
#[derive(Debug, PartialEq, Eq)]
pub struct FocusSchedule {
    pub id: String,
    /// Id of the [`Focus`] to activate.
    pub focus_id: String,
    /// Days this schedule applies to.
    pub days: Vec<Weekday>,
    pub time_range: TimeRange,
    pub enabled: bool,
}

impl Clone for FocusSchedule {
    fn clone(&self) -> (r: Self)
        ensures
            r.id == self.id,
            r.focus_id == self.focus_id,
            r.days@ == self.days@,
            r.time_range == self.time_range,
            r.enabled == self.enabled,
    {
        FocusSchedule {
            id: self.id.clone(),
            focus_id: self.focus_id.clone(),
            days: self.days.clone(),
            time_range: self.time_range,
            enabled: self.enabled,
        }
    }
}

/// Schedule `s` is active on `weekday` at `hhmm`.
pub open spec fn schedule_active(s: &FocusSchedule, weekday: Weekday, hhmm: u16) -> bool {
    s.enabled && s.days@.contains(weekday) && in_range(hhmm, s.time_range)
}

fn days_contain(days: &Vec<Weekday>, d: Weekday) -> (b: bool)
    ensures
        b == days@.contains(d),
{
    let mut i: usize = 0;
    while i < days.len()
        invariant
            i <= days@.len(),
            forall|j: int| 0 <= j < i ==> days@[j] != d,
        decreases days.len() - i,
    {
        if days[i] == d {
            assert(days@[i as int] == d);
            return true;
        }
        i = i + 1;
    }
    false
}

/// The first enabled schedule whose days and time range match `weekday` at
/// `hhmm`: its focus id, or `None` if nothing matches.
pub fn active_scheduled_focus(
    schedules: &[FocusSchedule],
    _focuses: &[Focus],
    weekday: &Weekday,
    hhmm: u16,
) -> (r: Option<String>)
    ensures
        match r {
            Some(f) => exists|i: int|
                0 <= i < schedules@.len() && schedule_active(&schedules@[i], *weekday, hhmm)
                    && f == schedules@[i].focus_id
                    && forall|j: int| 0 <= j < i ==> !schedule_active(&schedules@[j], *weekday, hhmm),
            None => forall|i: int| 0 <= i < schedules@.len() ==> !schedule_active(&schedules@[i], *weekday, hhmm),
        },
{
    let mut i: usize = 0;
    while i < schedules.len()
        invariant
            i <= schedules@.len(),
            forall|j: int| 0 <= j < i ==> !schedule_active(&schedules@[j], *weekday, hhmm),
        decreases schedules.len() - i,
    {
        let s = &schedules[i];
        if s.enabled && days_contain(&s.days, *weekday) && hhmm_in_range(hhmm, &s.time_range) {
            return Some(s.focus_id.clone());
        }
        i = i + 1;
    }
    None
}

/// The id minted from counter value `n`: `f` and 16 hex digits of
/// `n * 0x9e3779b97f4a7c15 + 0xdeadbeefcafe0000` (wrapping).
pub open spec fn id_of(n: u64) -> Seq<char> {
    seq!['f'] + hex_digits(
        ((n as int * 0x9e3779b97f4a7c15int + 0xdead_beef_cafe_0000int) % 0x1_0000_0000_0000_0000int) as nat,
        16,
    )
}

/// A local id from a counter value, spread by a fixed odd multiplier.
pub fn id_from_counter(n: u64) -> (s: String)
    ensures
        s@ == id_of(n),
{
    let v = n.wrapping_mul(0x9e3779b97f4a7c15).wrapping_add(0xdead_beef_cafe_0000);
    proof {
        let m = 0x1_0000_0000_0000_0000int;
        let p = (n as int * 0x9e3779b97f4a7c15int) % m;
        assert(v == (p + 0xdead_beef_cafe_0000int) % m);
        assert((p + 0xdead_beef_cafe_0000int) % m == (n as int * 0x9e3779b97f4a7c15int + 0xdead_beef_cafe_0000int) % m) by {
            vstd::arithmetic::div_mod::lemma_add_mod_noop(n as int * 0x9e3779b97f4a7c15int, 0xdead_beef_cafe_0000int, m);
            vstd::arithmetic::div_mod::lemma_mod_twice(n as int * 0x9e3779b97f4a7c15int, m);
            vstd::arithmetic::div_mod::lemma_small_mod(0xdead_beef_cafe_0000nat, m as nat);
        }
    }
    let mut s = String::new();
    push_char(&mut s, 'f');
    push_hex(&mut s, v, 16);
    assert(s@ =~= id_of(n));
    s
}

// ---------------------------------------------------------------------------
// Enum names
// ---------------------------------------------------------------------------

pub const MODE_ERR_HEAD: &'static str = "unknown default_mode '";

pub const MODE_ERR_TAIL: &'static str = "'; expected allow|block";

pub const FIELD_ERR_HEAD: &'static str = "unknown field '";

pub const FIELD_ERR_TAIL: &'static str = "'; expected title|body|appname|any";

pub const ACTION_ERR_HEAD: &'static str = "unknown action '";

pub const ACTION_ERR_TAIL: &'static str = "'; expected allow|block";

/// What parsing a default-mode name yields.
pub open spec fn default_mode_parse(s: Seq<char>) -> Result<DefaultMode, Seq<char>> {
    if s == "allow"@ {
        Ok(DefaultMode::Allow)
    } else if s == "block"@ {
        Ok(DefaultMode::Block)
    } else {
        Err(MODE_ERR_HEAD@ + s + MODE_ERR_TAIL@)
    }
}

/// What parsing a match-field name yields.
pub open spec fn match_field_parse(s: Seq<char>) -> Result<MatchField, Seq<char>> {
    if s == "title"@ {
        Ok(MatchField::Title)
    } else if s == "body"@ {
        Ok(MatchField::Body)
    } else if s == "appname"@ {
        Ok(MatchField::AppName)
    } else if s == "any"@ {
        Ok(MatchField::Any)
    } else {
        Err(FIELD_ERR_HEAD@ + s + FIELD_ERR_TAIL@)
    }
}

/// What parsing a filter-action name yields.
pub open spec fn filter_action_parse(s: Seq<char>) -> Result<FilterAction, Seq<char>> {
    if s == "allow"@ {
        Ok(FilterAction::Allow)
    } else if s == "block"@ {
        Ok(FilterAction::Block)
    } else {
        Err(ACTION_ERR_HEAD@ + s + ACTION_ERR_TAIL@)
    }
}

/// Parse `allow` / `block` into a default mode.
pub fn parse_default_mode(s: &str) -> (r: Result<DefaultMode, String>)
    ensures
        match (r, default_mode_parse(s@)) {
            (Ok(d), Ok(e)) => d == e,
            (Err(m), Err(e)) => m@ == e,
            _ => false,
        },
{
    if str_eq(s, "allow") {
        Ok(DefaultMode::Allow)
    } else if str_eq(s, "block") {
        Ok(DefaultMode::Block)
    } else {
        Err(message(MODE_ERR_HEAD, s, MODE_ERR_TAIL))
    }
}

/// Parse `title` / `body` / `appname` / `any` into a match field.
pub fn parse_match_field(s: &str) -> (r: Result<MatchField, String>)
    ensures
        match (r, match_field_parse(s@)) {
            (Ok(d), Ok(e)) => d == e,
            (Err(m), Err(e)) => m@ == e,
            _ => false,
        },
{
    if str_eq(s, "title") {
        Ok(MatchField::Title)
    } else if str_eq(s, "body") {
        Ok(MatchField::Body)
    } else if str_eq(s, "appname") {
        Ok(MatchField::AppName)
    } else if str_eq(s, "any") {
        Ok(MatchField::Any)
    } else {
        Err(message(FIELD_ERR_HEAD, s, FIELD_ERR_TAIL))
    }
}

/// Parse `allow` / `block` into a filter action.
pub fn parse_filter_action(s: &str) -> (r: Result<FilterAction, String>)
    ensures
        match (r, filter_action_parse(s@)) {
            (Ok(d), Ok(e)) => d == e,
            (Err(m), Err(e)) => m@ == e,
            _ => false,
        },
{
    if str_eq(s, "allow") {
        Ok(FilterAction::Allow)
    } else if str_eq(s, "block") {
        Ok(FilterAction::Block)
    } else {
        Err(message(ACTION_ERR_HEAD, s, ACTION_ERR_TAIL))
    }
}

} // verus!
