//! Properties of the library as a whole, each proved over the same
//! specifications the operations' contracts use.

use vstd::prelude::*;
use crate::calendar::{
    iso8601_of_ms, iso_fields, iso_text, lemma_day_number_range, lemma_iso_fields_fit, lemma_iso_fields_increasing,
    lemma_iso_text_order, lemma_month_day_range, lemma_padded_field, ymd_of_jdn, FIRST_ISO_MS, LAST_ISO_MS,
};
use crate::config::{newer, Config};
use crate::consumer::{
    fresh_reconnector, gives_up, next_backoff, reconnect_step, resume_after, subscription_for, ReconnectEvent,
    ReconnectPolicy, Reconnector, Subscription,
};
use crate::dedup::{dedup_step, fresh_entries, Fingerprint};
use crate::icon::{chain_spec, classify_spec, file_prefix, http_prefix, https_prefix, last_dot, IconRefSpec, IconStepSpec};
use crate::notification::Notification;
use crate::outbox::{clamp_capacity, keep_last, outbox_shape, Cursor, Sequenced};
use crate::rules::{filter_matches, hit, DefaultMode, FilterAction, Rules, Verdict};
use crate::settings::{id_of, in_range, TimeRange};
use crate::text::{
    fmt_int_padded, has_char, hex_char, hex_digits, is_prefix, is_white_space, lemma_trim_idempotent, lowercase, pow10,
    seq_lt, trim, trim_end, trim_start,
};
use crate::toast::{escape_char, toast_xml, xml_escaped, TOAST_HEAD, TOAST_MID, TOAST_TAIL};
use crate::transport::{decode, parse_cursor, resume_cursor};

verus! {

// ---------------------------------------------------------------------------
// Rules engine
// ---------------------------------------------------------------------------

/// Block wins: a notification matched by any block filter is suppressed,
/// whatever the allow filters and the app's checkmark say.
pub proof fn law_block_filter_wins(rules: &Rules, n: &Notification, i: int)
    requires
        0 <= i < rules.filters@.len(),
        rules.filters@[i].action == FilterAction::Block,
        filter_matches(&rules.filters@[i], n),
    ensures
        rules.decide(n) == Verdict::Suppress,
{
}

/// An explicit checkmark overrides the default mode: an unchecked app is
/// always suppressed, and a checked app is shown exactly when the filters
/// let it through, in either default mode.
pub proof fn law_checkmark_overrides_default(rules: &Rules, n: &Notification)
    requires
        rules.apps@.contains_key(n.app_name@),
    ensures
        !rules.apps@[n.app_name@] ==> rules.decide(n) == Verdict::Suppress,
        rules.apps@[n.app_name@] ==> (rules.decide(n) == Verdict::Show <==> !rules.blocked(n)
            && (rules.has_allow_filters() ==> rules.allow_matched(n))),
{
}

/// Apps without a checkmark follow the default mode: with no filters,
/// `Allow` shows them and `Block` hides them.
pub proof fn law_default_mode_governs_unconfigured(rules: &Rules, n: &Notification)
    requires
        !rules.apps@.contains_key(n.app_name@),
        rules.filters@.len() == 0,
    ensures
        rules.decide(n) == (if rules.default_mode == DefaultMode::Allow { Verdict::Show } else { Verdict::Suppress }),
{
}

/// When allow filters exist, everything shown matches at least one of them.
pub proof fn law_shown_matches_some_allow_filter(rules: &Rules, n: &Notification)
    requires
        rules.has_allow_filters(),
        rules.decide(n) == Verdict::Show,
    ensures
        rules.allow_matched(n),
{
}

/// Matching is case-insensitive: two notifications from the same app whose
/// titles and bodies agree once lower-cased get the same verdict.
pub proof fn law_matching_ignores_case(rules: &Rules, a: &Notification, b: &Notification)
    requires
        a.app_name@ == b.app_name@,
        lowercase(a.title@) == lowercase(b.title@),
        lowercase(a.body@) == lowercase(b.body@),
    ensures
        rules.decide(a) == rules.decide(b),
{
    assert forall|i: int| 0 <= i < rules.filters@.len() implies filter_matches(&rules.filters@[i], a)
        == filter_matches(&rules.filters@[i], b) by {}
    assert(rules.blocked(a) == rules.blocked(b)) by {
        if rules.blocked(a) {
            let i = choose|i: int| 0 <= i < rules.filters@.len() && rules.filters@[i].action == FilterAction::Block
                && filter_matches(&rules.filters@[i], a);
            assert(filter_matches(&rules.filters@[i], b));
        }
        if rules.blocked(b) {
            let i = choose|i: int| 0 <= i < rules.filters@.len() && rules.filters@[i].action == FilterAction::Block
                && filter_matches(&rules.filters@[i], b);
            assert(filter_matches(&rules.filters@[i], a));
        }
    }
    assert(rules.allow_matched(a) == rules.allow_matched(b)) by {
        if rules.allow_matched(a) {
            let i = choose|i: int| 0 <= i < rules.filters@.len() && rules.filters@[i].action == FilterAction::Allow
                && filter_matches(&rules.filters@[i], a);
            assert(filter_matches(&rules.filters@[i], b));
        }
        if rules.allow_matched(b) {
            let i = choose|i: int| 0 <= i < rules.filters@.len() && rules.filters@[i].action == FilterAction::Allow
                && filter_matches(&rules.filters@[i], b);
            assert(filter_matches(&rules.filters@[i], a));
        }
    }
}

/// A filter is scoped to its field: a body filter never matches on the
/// title, so notifications differing only in their titles are judged alike by
/// it.
pub proof fn law_body_filter_ignores_title(rules: &Rules, a: &Notification, b: &Notification, i: int)
    requires
        0 <= i < rules.filters@.len(),
        rules.filters@[i].field == crate::rules::MatchField::Body,
        a.body@ == b.body@,
    ensures
        filter_matches(&rules.filters@[i], a) == filter_matches(&rules.filters@[i], b),
{
}

// ---------------------------------------------------------------------------
// Dedup window
// ---------------------------------------------------------------------------

/// The first sighting of a notification is never a duplicate.
pub proof fn law_first_sighting_shown(window: int, shown: Map<Fingerprint, i64>, fp: Fingerprint, now: i64)
    requires
        !shown.contains_key(fp),
    ensures
        !dedup_step(window, shown, fp, now).0,
{
}

/// Once shown at `t`, the same content is suppressed at any `t2` with
/// `t <= t2 < t + window`.
pub proof fn law_repeat_within_window_suppressed(window: int, shown: Map<Fingerprint, i64>, fp: Fingerprint, t: i64, t2: i64)
    requires
        window > 0,
        !dedup_step(window, shown, fp, t).0,
        t <= t2 < t + window,
    ensures
        dedup_step(window, dedup_step(window, shown, fp, t).1, fp, t2).0,
{
}

/// The window is fixed from the sighting that was shown: a suppressed repeat
/// does not extend it, and from `t + window` on the content is shown again.
pub proof fn law_window_fixed_from_first_sighting(
    window: int,
    shown: Map<Fingerprint, i64>,
    fp: Fingerprint,
    t: i64,
    t2: i64,
    t3: i64,
)
    requires
        window > 0,
        !dedup_step(window, shown, fp, t).0,
        t <= t2 < t + window,
        t3 >= t + window,
    ensures
        !dedup_step(window, dedup_step(window, dedup_step(window, shown, fp, t).1, fp, t2).1, fp, t3).0,
{
    let m1 = dedup_step(window, shown, fp, t).1;
    assert(m1.contains_key(fp) && m1[fp] == t);
    let m2 = dedup_step(window, m1, fp, t2).1;
    assert(m2.contains_key(fp) && m2[fp] == t);
}

/// Different content is never a duplicate: showing one notification cannot
/// make another, with a different fingerprint and no earlier sighting, a
/// duplicate.
pub proof fn law_different_content_not_duplicate(
    window: int,
    shown: Map<Fingerprint, i64>,
    fp1: Fingerprint,
    fp2: Fingerprint,
    t: i64,
    t2: i64,
)
    requires
        fp1 != fp2,
        !shown.contains_key(fp2),
    ensures
        !dedup_step(window, dedup_step(window, shown, fp1, t).1, fp2, t2).0,
{
}

/// A zero window dedups nothing and remembers nothing.
pub proof fn law_zero_window_dedups_nothing(shown: Map<Fingerprint, i64>, fp: Fingerprint, now: i64)
    ensures
        dedup_step(0, shown, fp, now) == (false, shown),
{
}

/// Memory stays bounded by the window: after a step, every remembered
/// sighting is younger than the window.
pub proof fn law_dedup_memory_bounded(window: int, shown: Map<Fingerprint, i64>, fp: Fingerprint, now: i64)
    requires
        window > 0,
    ensures
        forall|k: Fingerprint| #[trigger] dedup_step(window, shown, fp, now).1.contains_key(k)
            ==> now - dedup_step(window, shown, fp, now).1[k] < window,
{
}

// ---------------------------------------------------------------------------
// Config freshness
// ---------------------------------------------------------------------------

proof fn lemma_seq_lt_irreflexive(a: Seq<char>)
    ensures
        !seq_lt(a, a),
    decreases a.len(),
{
    if a.len() > 0 {
        lemma_seq_lt_irreflexive(a.drop_first());
    }
}

proof fn lemma_seq_lt_asymmetric(a: Seq<char>, b: Seq<char>)
    ensures
        !(seq_lt(a, b) && seq_lt(b, a)),
    decreases a.len(),
{
    if a.len() > 0 && b.len() > 0 && a[0] == b[0] {
        lemma_seq_lt_asymmetric(a.drop_first(), b.drop_first());
    }
}

proof fn lemma_seq_lt_transitive(a: Seq<char>, b: Seq<char>, c: Seq<char>)
    requires
        seq_lt(a, b),
        seq_lt(b, c),
    ensures
        seq_lt(a, c),
    decreases a.len(),
{
    if a.len() > 0 && b.len() > 0 && c.len() > 0 && a[0] == b[0] && b[0] == c[0] {
        lemma_seq_lt_transitive(a.drop_first(), b.drop_first(), c.drop_first());
    }
}

/// No config is newer than itself (re-delivering the same revision is a
/// no-op).
pub proof fn law_config_not_newer_than_itself(c: &Config)
    ensures
        !newer(c, c),
{
    lemma_seq_lt_irreflexive(c.updated_at@);
}

/// Two configs are never each newer than the other.
pub proof fn law_config_newer_asymmetric(a: &Config, b: &Config)
    ensures
        !(newer(a, b) && newer(b, a)),
{
    lemma_seq_lt_asymmetric(a.updated_at@, b.updated_at@);
}

/// Freshness is transitive, so a reader that applies only newer configs
/// moves forward through revisions.
pub proof fn law_config_newer_transitive(a: &Config, b: &Config, c: &Config)
    requires
        newer(a, b),
        newer(b, c),
    ensures
        newer(a, c),
{
    if a.config_version == b.config_version && b.config_version == c.config_version {
        lemma_seq_lt_transitive(c.updated_at@, b.updated_at@, a.updated_at@);
    }
}

/// Apply-if-newer never goes backwards and settles: after it, the held config
/// is not older than before, and offering the same config again is ignored.
pub proof fn law_apply_if_newer_settles(held: &Config, incoming: &Config)
    ensures
        ({
            let after = if newer(incoming, held) { *incoming } else { *held };
            &&& !newer(held, &after)
            &&& !newer(incoming, &after)
        }),
{
    lemma_seq_lt_irreflexive(held.updated_at@);
    lemma_seq_lt_irreflexive(incoming.updated_at@);
    lemma_seq_lt_asymmetric(held.updated_at@, incoming.updated_at@);
}

/// The version is the real guardrail: a higher version always wins and a
/// lower one always loses, whatever the timestamps say.
pub proof fn law_version_dominates_timestamp(a: &Config, b: &Config)
    requires
        a.config_version > b.config_version,
    ensures
        newer(a, b),
        !newer(b, a),
{
}

// ---------------------------------------------------------------------------
// Outbox and catch-up
// ---------------------------------------------------------------------------

/// Where the events after cursor `c` start in a consecutive run ending just
/// below `next`.
pub open spec fn first_after(next: nat, events: Seq<Sequenced>, c: Cursor) -> int {
    let first = next - events.len();
    if c + 1 <= first {
        0
    } else if c + 1 >= next {
        events.len() as int
    } else {
        c + 1 - first
    }
}

/// The events after a cursor form a suffix of a consecutive run.
pub proof fn lemma_after_cursor_is_suffix(next: nat, events: Seq<Sequenced>, c: Cursor)
    requires
        events.len() < next,
        forall|i: int| 0 <= i < events.len() ==> #[trigger] events[i].seq == next - events.len() + i,
    ensures
        events.filter(|e: Sequenced| e.seq > c) == events.subrange(first_after(next, events, c), events.len() as int),
    decreases events.len(),
{
    reveal(Seq::filter);
    let pred = |e: Sequenced| e.seq > c;
    if events.len() > 0 {
        let prev = events.drop_last();
        assert forall|i: int| 0 <= i < prev.len() implies #[trigger] prev[i].seq == (next - 1) - prev.len() + i by {
            assert(prev[i] == events[i]);
        }
        lemma_after_cursor_is_suffix((next - 1) as nat, prev, c);
        let k = first_after(next, events, c);
        let k2 = first_after((next - 1) as nat, prev, c);
        assert(events.last().seq == next - 1);
        assert(events.filter(pred) == if pred(events.last()) {
            prev.filter(pred).push(events.last())
        } else {
            prev.filter(pred)
        });
        if events.last().seq > c {
            assert(k == k2);
            assert(prev.subrange(k2, prev.len() as int).push(events.last()) =~= events.subrange(k, events.len() as int));
        } else {
            assert(k == events.len());
            assert(k2 == prev.len());
            assert(prev.subrange(k2, prev.len() as int) =~= events.subrange(k, events.len() as int));
        }
    } else {
        assert(events.subrange(0, 0) =~= events);
    }
}

/// Catch-up is exact: with no gap flagged, a consumer behind the latest
/// cursor receives every cursor from just after its own up to the latest,
/// each once and in order; when a gap is flagged, the cursor right after its
/// own is no longer retained (it was evicted unseen, or dropped on a
/// restore). A consumer already at the latest cursor receives nothing.
pub proof fn law_catch_up_exact(capacity: nat, next: nat, events: Seq<Sequenced>, c: Cursor)
    requires
        outbox_shape(capacity, next, events),
    ensures
        ({
            let r = events.filter(|e: Sequenced| e.seq > c);
            let gap = next - events.len() > c + 1;
            &&& c + 1 < next && !gap ==> r.len() == next - 1 - c
                && forall|i: int| 0 <= i < r.len() ==> #[trigger] r[i].seq == c + 1 + i
            &&& gap ==> forall|i: int| 0 <= i < events.len() ==> #[trigger] events[i].seq != c + 1
            &&& c + 1 >= next ==> r.len() == 0
        }),
{
    lemma_after_cursor_is_suffix(next, events, c);
    let r = events.filter(|e: Sequenced| e.seq > c);
    let k = first_after(next, events, c);
    if c + 1 < next && !(next - events.len() > c + 1) {
        assert(events.len() > 0);
        assert forall|i: int| 0 <= i < r.len() implies #[trigger] r[i].seq == c + 1 + i by {
            assert(r[i] == events[k + i]);
        }
    }
}

/// A consumer caught up at the latest cursor receives exactly the next
/// published notification, under the cursor it was assigned.
pub proof fn law_caught_up_receives_exactly_the_new_event(capacity: nat, next: nat, events: Seq<Sequenced>, n: Notification)
    requires
        outbox_shape(capacity, next, events),
        next < u64::MAX,
    ensures
        ({
            let new = Sequenced { seq: next as u64, notification: n };
            let after = keep_last(events.push(new), capacity);
            after.filter(|e: Sequenced| e.seq > (next - 1) as u64) == seq![new]
        }),
{
    let new = Sequenced { seq: next as u64, notification: n };
    let after = keep_last(events.push(new), capacity);
    law_append_keeps_shape(capacity, next, events, n);
    lemma_after_cursor_is_suffix(next + 1, after, (next - 1) as u64);
    assert(after.last() == new);
    assert(after.subrange(after.len() - 1, after.len() as int) =~= seq![new]);
}

/// Every append keeps the outbox's shape: cursors stay consecutive, the
/// newest is the one just assigned, and at most `capacity` are retained
/// (the oldest are evicted first).
pub proof fn law_append_keeps_shape(capacity: nat, next: nat, events: Seq<Sequenced>, n: Notification)
    requires
        outbox_shape(capacity, next, events),
    ensures
        ({
            let new = Sequenced { seq: next as u64, notification: n };
            let after = keep_last(events.push(new), capacity);
            &&& next <= u64::MAX ==> outbox_shape(capacity, next + 1, after)
            &&& after.len() == (if events.len() + 1 <= capacity { events.len() + 1 } else { capacity })
            &&& after.last() == new
            &&& forall|i: int| 0 <= i < events.len() ==> #[trigger] events[i].seq < next
        }),
{
    let new = Sequenced { seq: next as u64, notification: n };
    let s = events.push(new);
    let after = keep_last(s, capacity);
    if next <= u64::MAX {
        assert forall|i: int| 0 <= i < after.len() implies #[trigger] after[i].seq == (next + 1) - after.len() + i by {
            if s.len() > capacity {
                assert(after[i] == s[i + 1]);
            } else {
                assert(after[i] == s[i]);
            }
        }
    }
}

/// Re-applying a smaller capacity keeps the shape and the newest events;
/// the cursor counter is untouched, so cursors stay monotonic.
pub proof fn law_set_capacity_keeps_newest(capacity: nat, next: nat, events: Seq<Sequenced>, new_capacity: nat)
    requires
        outbox_shape(capacity, next, events),
        new_capacity >= 1,
    ensures
        outbox_shape(new_capacity, next, keep_last(events, new_capacity)),
        events.len() > 0 ==> keep_last(events, new_capacity).last() == events.last(),
{
    let after = keep_last(events, new_capacity);
    assert forall|i: int| 0 <= i < after.len() implies #[trigger] after[i].seq == next - after.len() + i by {
        if events.len() > new_capacity {
            assert(after[i] == events[events.len() - new_capacity + i]);
        }
    }
}

/// Replay, then live, delivers each cursor at most once: the replayed
/// events strictly increase, and every live event that is forwarded (one
/// past the last cursor sent) is past everything replayed.
pub proof fn law_replay_then_live_no_duplicates(capacity: nat, next: nat, events: Seq<Sequenced>, c: Cursor, live_seq: Cursor)
    requires
        outbox_shape(capacity, next, events),
    ensures
        ({
            let r = events.filter(|e: Sequenced| e.seq > c);
            let last_sent = if r.len() > 0 { r.last().seq } else { c };
            &&& forall|i: int, j: int| 0 <= i < j < r.len() ==> #[trigger] r[i].seq < #[trigger] r[j].seq
            &&& live_seq > last_sent ==> forall|i: int| 0 <= i < r.len() ==> #[trigger] r[i].seq < live_seq
        }),
{
    lemma_after_cursor_is_suffix(next, events, c);
    let r = events.filter(|e: Sequenced| e.seq > c);
    let k = first_after(next, events, c);
    assert forall|i: int| 0 <= i < r.len() implies #[trigger] r[i].seq == events[k + i].seq by {
        assert(r[i] == events[k + i]);
    }
}

// ---------------------------------------------------------------------------
// Icons, toasts, schedules
// ---------------------------------------------------------------------------

/// The icon chain is never empty and always ends with the generated
/// fallback for the app, which cannot fail; the cached icon and the brand
/// lookup come just before it.
pub proof fn law_icon_chain_ends_in_fallback(n: &Notification)
    ensures
        chain_spec(n).len() >= 3,
        chain_spec(n).last() == IconStepSpec::Fallback(n.app_name@),
        chain_spec(n)[chain_spec(n).len() - 2] == IconStepSpec::Brand(n.app_name@),
        chain_spec(n)[chain_spec(n).len() - 3] == IconStepSpec::CachedApp(n.app_name@),
{
}

/// An inline image always comes first in the chain.
pub proof fn law_embedded_image_first(n: &Notification)
    requires
        n.image is Some,
    ensures
        chain_spec(n)[0] == IconStepSpec::Embedded,
{
}

/// Escaped text carries no markup: none of `<`, `>`, `"`, `'` remains, and
/// every `&` starts an entity.
pub proof fn law_escaped_text_has_no_markup(s: Seq<char>)
    ensures
        forall|i: int| 0 <= i < xml_escaped(s).len() ==> {
            let c = #[trigger] xml_escaped(s)[i];
            c != '<' && c != '>' && c != '"' && c != '\''
        },
    decreases s.len(),
{
    if s.len() > 0 {
        law_escaped_text_has_no_markup(s.drop_last());
        let p = xml_escaped(s.drop_last());
        let e = escape_char(s.last());
        assert(xml_escaped(s) == p + e);
        assert forall|i: int| 0 <= i < (p + e).len() implies {
            let c = #[trigger] (p + e)[i];
            c != '<' && c != '>' && c != '"' && c != '\''
        } by {
            if i >= p.len() {
                assert((p + e)[i] == e[i - p.len()]);
            } else {
                assert((p + e)[i] == p[i]);
            }
        }
    }
}

/// A range that wraps midnight holds exactly the times outside
/// `[end, start)`.
pub proof fn law_wrapping_range_is_complement(hhmm: u16, range: TimeRange)
    requires
        range.end_hhmm < range.start_hhmm,
    ensures
        in_range(hhmm, range) == !(range.end_hhmm <= hhmm && hhmm < range.start_hhmm),
{
}

// ---------------------------------------------------------------------------
// Reconnect loop and health
// ---------------------------------------------------------------------------

/// The reconnect backoff doubles until it reaches the cap and never passes
/// the larger of its current value and the cap.
pub proof fn law_backoff_doubles_up_to_cap(backoff: nat, cap: nat)
    ensures
        crate::consumer::next_backoff(backoff, cap) <= if backoff <= cap { cap } else { backoff * 2 },
        crate::consumer::next_backoff(backoff, cap) <= cap,
        2 * backoff < cap ==> crate::consumer::next_backoff(backoff, cap) == 2 * backoff,
{
}

/// A capture subsystem that was never enabled is never degraded, and an
/// enabled one is healthy exactly while it runs without denied access.
pub proof fn law_capture_health_rollup(h: &crate::health::CaptureHealth)
    ensures
        !h.enabled ==> h.status_of() == crate::health::HealthStatus::Healthy,
        h.enabled ==> (h.status_of() == crate::health::HealthStatus::Healthy <==> h.running
            && h.access_granted != Some(false)),
{
}

/// A snapshot reloads to the same outbox: the parts saved from an outbox have
/// the shape that rebuilding accepts, and re-applying the same capacity
/// keeps every event (and the counter, which it never touches).
pub proof fn law_snapshot_reload_is_identity(capacity: nat, next: nat, events: Seq<Sequenced>)
    requires
        outbox_shape(capacity, next, events),
    ensures
        clamp_capacity(capacity) == capacity,
        keep_last(events, clamp_capacity(capacity)) == events,
{
}

/// A reconnect resumes after the highest cursor seen: the resume cursor is
/// at least the starting one and every cursor received, and it is one of
/// them.
pub proof fn law_resume_after_highest_seen(since: Cursor, seqs: Seq<Cursor>)
    ensures
        resume_after(since, seqs) >= since,
        forall|i: int| 0 <= i < seqs.len() ==> #[trigger] seqs[i] <= resume_after(since, seqs),
        resume_after(since, seqs) == since || exists|i: int| 0 <= i < seqs.len() && seqs[i] == resume_after(since, seqs),
    decreases seqs.len(),
{
    if seqs.len() > 0 {
        let prev = seqs.drop_last();
        law_resume_after_highest_seen(since, prev);
        assert forall|i: int| 0 <= i < seqs.len() implies #[trigger] seqs[i] <= resume_after(since, seqs) by {
            if i < prev.len() {
                assert(seqs[i] == prev[i]);
            }
        }
        if resume_after(since, seqs) != since {
            if resume_after(since, seqs) == seqs.last() {
                assert(seqs[seqs.len() - 1] == resume_after(since, seqs));
            } else {
                let j = choose|j: int| 0 <= j < prev.len() && prev[j] == resume_after(since, prev);
                assert(seqs[j] == prev[j]);
            }
        }
    }
}

// ---------------------------------------------------------------------------
// Local ids
// ---------------------------------------------------------------------------

/// `16` to the power `w`.
pub open spec fn pow16(w: nat) -> nat
    decreases w,
{
    if w == 0 { 1 } else { 16 * pow16((w - 1) as nat) }
}

/// Distinct hex digits render distinctly.
proof fn lemma_hex_char_injective(a: nat, b: nat)
    requires
        a < 16,
        b < 16,
        hex_char(a) == hex_char(b),
    ensures
        a == b,
{
}

/// Rendering a number below `16^w` as `w` hex digits loses nothing.
proof fn lemma_hex_digits_injective(x: nat, y: nat, w: nat)
    requires
        x < pow16(w),
        y < pow16(w),
        hex_digits(x, w) == hex_digits(y, w),
    ensures
        x == y,
    decreases w,
{
    if w > 0 {
        let p = pow16((w - 1) as nat);
        assert(hex_digits(x, w).drop_last() == hex_digits(x / 16, (w - 1) as nat));
        assert(hex_digits(y, w).drop_last() == hex_digits(y / 16, (w - 1) as nat));
        assert(hex_digits(x, w).last() == hex_char(x % 16));
        assert(hex_digits(y, w).last() == hex_char(y % 16));
        lemma_hex_char_injective(x % 16, y % 16);
        assert(x / 16 < p);
        assert(y / 16 < p);
        lemma_hex_digits_injective(x / 16, y / 16, (w - 1) as nat);
    }
}

/// Spreading a counter by the odd multiplier and the offset (mod 2^64)
/// never maps two counters to one value.
proof fn lemma_spread_injective(a: u64, b: u64)
    requires
        (a as int * 0x9e3779b97f4a7c15int + 0xdead_beef_cafe_0000int) % 0x1_0000_0000_0000_0000int
            == (b as int * 0x9e3779b97f4a7c15int + 0xdead_beef_cafe_0000int) % 0x1_0000_0000_0000_0000int,
    ensures
        a == b,
{
    let m = 0x1_0000_0000_0000_0000int;
    let xa = a as int * 0x9e3779b97f4a7c15int + 0xdead_beef_cafe_0000int;
    let xb = b as int * 0x9e3779b97f4a7c15int + 0xdead_beef_cafe_0000int;
    vstd::arithmetic::div_mod::lemma_fundamental_div_mod(xa, m);
    vstd::arithmetic::div_mod::lemma_fundamental_div_mod(xb, m);
    let q = xa / m - xb / m;
    assert((a - b) * 0x9e3779b97f4a7c15int == m * q);
    // The multiplier's inverse mod 2^64 is 0xf1de83e19937733d.
    let t = 10771413168148108919int;
    assert(0x9e3779b97f4a7c15int * 0xf1de83e19937733dint == 1 + t * m);
    let z = q * 0xf1de83e19937733dint - (a - b) * t;
    assert(a - b == m * z);
}

/// Sixteen hex digits cover exactly the `u64` range.
proof fn lemma_pow16_16()
    ensures
        pow16(16) == 0x1_0000_0000_0000_0000int,
{
    reveal_with_fuel(pow16, 17);
}

/// The hex part of an id.
proof fn lemma_id_hex_part(n: u64)
    ensures
        id_of(n).subrange(1, 17) == hex_digits(
            ((n as int * 0x9e3779b97f4a7c15int + 0xdead_beef_cafe_0000int) % 0x1_0000_0000_0000_0000int) as nat,
            16,
        ),
{
    let v = ((n as int * 0x9e3779b97f4a7c15int + 0xdead_beef_cafe_0000int) % 0x1_0000_0000_0000_0000int) as nat;
    lemma_hex_digits_len(v, 16);
    assert(id_of(n).subrange(1, 17) =~= hex_digits(v, 16));
}

/// `w` hex digits are `w` characters.
proof fn lemma_hex_digits_len(x: nat, w: nat)
    ensures
        hex_digits(x, w).len() == w,
    decreases w,
{
    if w > 0 {
        lemma_hex_digits_len(x / 16, (w - 1) as nat);
    }
}

/// Distinct counter values mint distinct local ids.
pub proof fn law_ids_distinct(a: u64, b: u64)
    requires
        a != b,
    ensures
        id_of(a) != id_of(b),
{
    let m = 0x1_0000_0000_0000_0000int;
    let va = ((a as int * 0x9e3779b97f4a7c15int + 0xdead_beef_cafe_0000int) % m) as nat;
    let vb = ((b as int * 0x9e3779b97f4a7c15int + 0xdead_beef_cafe_0000int) % m) as nat;
    lemma_pow16_16();
    lemma_id_hex_part(a);
    lemma_id_hex_part(b);
    if id_of(a) == id_of(b) {
        lemma_hex_digits_injective(va, vb, 16);
        lemma_spread_injective(a, b);
    }
}

// ---------------------------------------------------------------------------
// Calendar
// ---------------------------------------------------------------------------

/// From the Julian epoch on, every day number converts to a real month
/// (1 to 12) and a day of the month from 1 to 31.
pub proof fn law_calendar_fields_in_range(j: int)
    requires
        j >= 0,
    ensures
        1 <= ymd_of_jdn(j).1 <= 12,
        1 <= ymd_of_jdn(j).2 <= 31,
{
    lemma_month_day_range(j);
}

/// Every time from year 0 through year 9999 renders as the 20 characters
/// `YYYY-MM-DDTHH:MM:SSZ`: between fixed separators, the zero-padded year,
/// month (1 to 12) and day (1 to 31) of its day, and the hour (below 24),
/// minute and second (below 60) of its floored second within that day.
pub proof fn law_iso8601_shape(ms: int)
    requires
        FIRST_ISO_MS <= ms <= LAST_ISO_MS,
    ensures
        ({
            let s = iso8601_of_ms(ms);
            let f = iso_fields(ms);
            &&& s.len() == 20
            &&& s.subrange(0, 4) == fmt_int_padded(f.0, 4)
            &&& s[4] == '-'
            &&& s.subrange(5, 7) == fmt_int_padded(f.1, 2)
            &&& s[7] == '-'
            &&& s.subrange(8, 10) == fmt_int_padded(f.2, 2)
            &&& s[10] == 'T'
            &&& s.subrange(11, 13) == fmt_int_padded(f.3, 2)
            &&& s[13] == ':'
            &&& s.subrange(14, 16) == fmt_int_padded(f.4, 2)
            &&& s[16] == ':'
            &&& s.subrange(17, 19) == fmt_int_padded(f.5, 2)
            &&& s[19] == 'Z'
            &&& 0 <= f.0 <= 9999
            &&& 1 <= f.1 <= 12
            &&& 1 <= f.2 <= 31
            &&& 0 <= f.3 < 24
            &&& 0 <= f.4 < 60
            &&& 0 <= f.5 < 60
        }),
{
    let f = iso_fields(ms);
    lemma_iso_fields_fit(ms);
    lemma_day_number_range(ms);
    lemma_month_day_range(ms / 1000 / 86400 + 2440588);
    let tod = (ms / 1000) % 86400;
    vstd::arithmetic::div_mod::lemma_fundamental_div_mod(ms / 1000, 86400);
    vstd::arithmetic::div_mod::lemma_fundamental_div_mod(tod, 3600);
    vstd::arithmetic::div_mod::lemma_fundamental_div_mod(tod % 3600, 60);
    assert(pow10(4) == 10000 && pow10(2) == 100) by {
        reveal_with_fuel(pow10, 5);
    }
    lemma_padded_field(f.0, 4);
    lemma_padded_field(f.1, 2);
    lemma_padded_field(f.2, 2);
    lemma_padded_field(f.3, 2);
    lemma_padded_field(f.4, 2);
    lemma_padded_field(f.5, 2);
    let s = iso8601_of_ms(ms);
    assert(s == iso_text(f.0, f.1, f.2, f.3, f.4, f.5));
    assert(s.subrange(0, 4) =~= fmt_int_padded(f.0, 4));
    assert(s.subrange(5, 7) =~= fmt_int_padded(f.1, 2));
    assert(s.subrange(8, 10) =~= fmt_int_padded(f.2, 2));
    assert(s.subrange(11, 13) =~= fmt_int_padded(f.3, 2));
    assert(s.subrange(14, 16) =~= fmt_int_padded(f.4, 2));
    assert(s.subrange(17, 19) =~= fmt_int_padded(f.5, 2));
}

/// Rendered timestamps sort like the times they render, from year 0 through
/// year 9999: a later time never sorts before an earlier one, and a later
/// second sorts strictly after. History pruning relies on this when it
/// compares a rendered cutoff with stored timestamps as text.
pub proof fn law_iso8601_sorts_by_time(a: int, b: int)
    requires
        FIRST_ISO_MS <= a <= b <= LAST_ISO_MS,
    ensures
        !seq_lt(iso8601_of_ms(b), iso8601_of_ms(a)),
        a / 1000 < b / 1000 ==> seq_lt(iso8601_of_ms(a), iso8601_of_ms(b)),
{
    let fa = iso_fields(a);
    let fb = iso_fields(b);
    assert(iso8601_of_ms(a) == iso_text(fa.0, fa.1, fa.2, fa.3, fa.4, fa.5));
    assert(iso8601_of_ms(b) == iso_text(fb.0, fb.1, fb.2, fb.3, fb.4, fb.5));
    vstd::arithmetic::div_mod::lemma_div_is_ordered(a, b, 1000);
    if a / 1000 < b / 1000 {
        lemma_iso_fields_fit(a);
        lemma_iso_fields_fit(b);
        lemma_iso_fields_increasing(a, b);
        lemma_iso_text_order(fa, fb);
        lemma_seq_lt_asymmetric(iso8601_of_ms(a), iso8601_of_ms(b));
    } else {
        assert(fa == fb);
        lemma_seq_lt_irreflexive(iso8601_of_ms(a));
    }
}

// ---------------------------------------------------------------------------
// Event stream decoding
// ---------------------------------------------------------------------------

/// Frames do not depend on how the byte stream is cut into chunks: decoding
/// one chunk and then the next gives the state, and the frames in order,
/// that decoding both at once gives.
pub proof fn law_decode_ignores_chunking(
    id: Option<Cursor>,
    data: Seq<char>,
    line: Seq<char>,
    t1: Seq<char>,
    t2: Seq<char>,
)
    ensures
        ({
            let whole = decode(id, data, line, t1 + t2);
            let r1 = decode(id, data, line, t1);
            let r2 = decode(r1.0, r1.1, r1.2, t2);
            &&& whole.0 == r2.0
            &&& whole.1 == r2.1
            &&& whole.2 == r2.2
            &&& whole.3 == r1.3 + r2.3
        }),
    decreases t2.len(),
{
    let r1 = decode(id, data, line, t1);
    if t2.len() == 0 {
        assert(t1 + t2 =~= t1);
        assert(r1.3 + Seq::<(Option<Cursor>, Seq<char>)>::empty() =~= r1.3);
    } else {
        law_decode_ignores_chunking(id, data, line, t1, t2.drop_last());
        assert((t1 + t2).drop_last() =~= t1 + t2.drop_last());
        assert((t1 + t2).last() == t2.last());
        let prev = decode(r1.0, r1.1, r1.2, t2.drop_last());
        assert forall|f: (Option<Cursor>, Seq<char>)| (r1.3 + prev.3).push(f) =~= r1.3 + prev.3.push(f) by {}
    }
}

/// A reconnect never re-delivers what was already received: resuming after
/// the highest cursor seen, everything the outbox replays is past every
/// cursor received before the reconnect.
pub proof fn law_reconnect_replays_nothing_seen(events: Seq<Sequenced>, since: Cursor, seqs: Seq<Cursor>)
    ensures
        ({
            let replay = events.filter(|e: Sequenced| e.seq > resume_after(since, seqs));
            forall|k: int, i: int| 0 <= k < replay.len() && 0 <= i < seqs.len() ==> #[trigger] seqs[i] < #[trigger] replay[k].seq
        }),
{
    law_resume_after_highest_seen(since, seqs);
    let c = resume_after(since, seqs);
    let replay = events.filter(|e: Sequenced| e.seq > c);
    assert forall|k: int, i: int| 0 <= k < replay.len() && 0 <= i < seqs.len() implies #[trigger] seqs[i] < #[trigger] replay[k].seq by {
        events.lemma_filter_pred(|e: Sequenced| e.seq > c, k);
    }
}

/// Classifying a hint ignores surrounding whitespace: a hint and its trimmed
/// form classify alike.
pub proof fn law_classify_ignores_surrounding_whitespace(s: Seq<char>)
    ensures
        classify_spec(trim(s)) == classify_spec(s),
{
    lemma_trim_idempotent(s);
}

/// Nothing is lost at the replay/live boundary: for a consumer at or behind
/// the latest cursor, with no gap flagged, the replay is exactly the cursors
/// just after its own up to the latest, so the last one sent is the latest
/// and the next cursor published is the next one forwarded.
pub proof fn law_replay_then_live_no_gap(capacity: nat, next: nat, events: Seq<Sequenced>, c: Cursor)
    requires
        outbox_shape(capacity, next, events),
        c + 1 <= next,
        !(next - events.len() > c + 1),
    ensures
        ({
            let r = events.filter(|e: Sequenced| e.seq > c);
            let last_sent = if r.len() > 0 { r.last().seq as int } else { c as int };
            &&& r.len() == next - 1 - c
            &&& forall|i: int| 0 <= i < r.len() ==> #[trigger] r[i].seq == c + 1 + i
            &&& last_sent == next - 1
            &&& next > last_sent
        }),
{
    law_catch_up_exact(capacity, next, events, c);
    let r = events.filter(|e: Sequenced| e.seq > c);
    if r.len() > 0 {
        assert(r[r.len() - 1].seq == c + 1 + (r.len() - 1));
    }
}

/// Reloading an outbox from its parts at capacity `cap` keeps its counter
/// (so `latest` and the next cursor are unchanged) and the newest
/// `min(len, max(cap, 1))` events, in order.
pub proof fn law_reload_keeps_latest_and_newest(capacity: nat, next: nat, events: Seq<Sequenced>, cap: nat)
    requires
        outbox_shape(capacity, next, events),
    ensures
        ({
            let k = clamp_capacity(cap);
            let kept = keep_last(events, k);
            let m = if events.len() <= k { events.len() } else { k };
            &&& outbox_shape(k, next, kept)
            &&& kept.len() == m
            &&& kept == events.subrange(events.len() - m, events.len() as int)
        }),
{
    let k = clamp_capacity(cap);
    law_set_capacity_keeps_newest(capacity, next, events, k);
    if events.len() <= k {
        assert(events.subrange(0, events.len() as int) =~= events);
    }
}

/// `2` to the power `j`.
pub open spec fn two_pow(j: nat) -> nat
    decreases j,
{
    if j == 0 { 1 } else { 2 * two_pow((j - 1) as nat) }
}

/// The backoff after `j` waits, starting from `initial`: each wait doubles
/// it up to `cap` (the step `after_attempt` takes).
pub open spec fn backoff_after(initial: nat, cap: nat, j: nat) -> nat
    decreases j,
{
    if j == 0 { initial } else { next_backoff(backoff_after(initial, cap, (j - 1) as nat), cap) }
}

/// The `j`-th wait after the start or after a successful connection (which
/// resets the backoff) is `min(initial * 2^j, cap)`, when the initial
/// backoff does not exceed the cap.
pub proof fn law_backoff_run(initial: nat, cap: nat, j: nat)
    requires
        initial <= cap,
    ensures
        backoff_after(initial, cap, j) == (if initial * two_pow(j) < cap { initial * two_pow(j) } else { cap }),
    decreases j,
{
    if j > 0 {
        let p = two_pow((j - 1) as nat);
        law_backoff_run(initial, cap, (j - 1) as nat);
        assert(two_pow(j) == 2 * p);
        assert(initial * two_pow(j) == 2 * (initial * p)) by (nonlinear_arith)
            requires
                two_pow(j) == 2 * p,
        ;
        let b = backoff_after(initial, cap, (j - 1) as nat);
        assert(backoff_after(initial, cap, j) == next_backoff(b, cap));
    } else {
        assert(two_pow(0) == 1);
        assert(initial * 1 == initial);
    }
}

/// The attempt count after `k` more attempts are counted from `a`
/// (saturating, as `next_subscription` counts).
pub open spec fn attempts_after(a: nat, k: nat) -> nat
    decreases k,
{
    if k == 0 {
        a
    } else {
        let b = attempts_after(a, (k - 1) as nat);
        if b < usize::MAX { b + 1 } else { usize::MAX as nat }
    }
}

/// The attempt count from a fresh state is the number of attempts, up to
/// the `usize` limit.
proof fn lemma_attempts_count(k: nat)
    ensures
        attempts_after(0, k) == (if k <= usize::MAX { k } else { usize::MAX as nat }),
    decreases k,
{
    if k > 0 {
        lemma_attempts_count((k - 1) as nat);
    }
}

/// Bounded retries end the loop: from a fresh state, after `k >= n`
/// attempts, however each ended, the count has reached `n`, so
/// `after_attempt` gives up under `max_retries == Some(n)`.
pub proof fn law_bounded_retries_give_up(n: nat, k: nat)
    requires
        n <= k,
        n <= usize::MAX,
    ensures
        attempts_after(0, k) >= n,
{
    lemma_attempts_count(k);
}

/// The loop's state after the steps `es`, in order, from `r`.
pub open spec fn reconnect_run(r: Reconnector, es: Seq<ReconnectEvent>) -> Reconnector
    decreases es.len(),
{
    if es.len() == 0 {
        r
    } else {
        reconnect_step(reconnect_run(r, es.drop_last()), es.last())
    }
}

/// The cursors of the events received during the steps `es`, in order.
pub open spec fn cursors_seen(es: Seq<ReconnectEvent>) -> Seq<Cursor>
    decreases es.len(),
{
    if es.len() == 0 {
        Seq::empty()
    } else {
        let prev = cursors_seen(es.drop_last());
        match es.last() {
            ReconnectEvent::Event(seq) => prev.push(seq),
            _ => prev,
        }
    }
}

/// The number of connection attempts among the steps `es`.
pub open spec fn dials(es: Seq<ReconnectEvent>) -> nat
    decreases es.len(),
{
    if es.len() == 0 {
        0
    } else {
        let prev = dials(es.drop_last());
        match es.last() {
            ReconnectEvent::Dial => prev + 1,
            _ => prev,
        }
    }
}

/// The waits made during the steps `es` from `r` since the start or the
/// last successful connection (an attempt that ends in giving up is no
/// wait).
pub open spec fn waits_since_reset(r: Reconnector, es: Seq<ReconnectEvent>) -> nat
    decreases es.len(),
{
    if es.len() == 0 {
        0
    } else {
        let prev = waits_since_reset(r, es.drop_last());
        match es.last() {
            ReconnectEvent::Connected => 0,
            ReconnectEvent::AttemptOver => if gives_up(reconnect_run(r, es.drop_last())) { prev } else { prev + 1 },
            _ => prev,
        }
    }
}

/// A backoff never exceeds the larger of its start and its cap.
proof fn lemma_backoff_after_bounded(initial: nat, cap: nat, j: nat)
    ensures
        backoff_after(initial, cap, j) <= (if initial < cap { cap } else { initial }),
    decreases j,
{
    if j > 0 {
        lemma_backoff_after_bounded(initial, cap, (j - 1) as nat);
    }
}

/// What a run of the reconnect loop keeps, step by step.
proof fn lemma_reconnect_run(since: Cursor, live: bool, policy: ReconnectPolicy, es: Seq<ReconnectEvent>)
    ensures
        ({
            let r0 = fresh_reconnector(since, live, policy);
            let r = reconnect_run(r0, es);
            &&& r.policy == policy
            &&& r.live == live
            &&& r.cursor == resume_after(since, cursors_seen(es))
            &&& r.first == (dials(es) == 0)
            &&& r.attempts == attempts_after(0, dials(es))
            &&& r.backoff_ms == backoff_after(
                policy.initial_backoff_ms as nat,
                policy.max_backoff_ms as nat,
                waits_since_reset(r0, es),
            )
        }),
    decreases es.len(),
{
    if es.len() > 0 {
        let prev = es.drop_last();
        lemma_reconnect_run(since, live, policy, prev);
        let r0 = fresh_reconnector(since, live, policy);
        let rp = reconnect_run(r0, prev);
        let initial = policy.initial_backoff_ms as nat;
        let cap = policy.max_backoff_ms as nat;
        let w = waits_since_reset(r0, prev);
        match es.last() {
            ReconnectEvent::AttemptOver => {
                if !gives_up(rp) {
                    assert(backoff_after(initial, cap, w + 1) == next_backoff(backoff_after(initial, cap, w), cap));
                    lemma_backoff_after_bounded(initial, cap, w + 1);
                }
            },
            ReconnectEvent::Connected => {
                assert(backoff_after(initial, cap, 0) == initial);
            },
            ReconnectEvent::Event(_) => {
                assert(cursors_seen(es).drop_last() =~= cursors_seen(prev));
            },
            _ => {},
        }
    }
}

/// The reconnect loop over any run of steps from a fresh state: each
/// resubscription asks from the highest cursor seen across all earlier
/// connections (never below the starting cursor), and only the first
/// attempt may skip the backlog, when `live` is set; the attempt count is
/// the number of dials made (so a bounded budget is spent after that many);
/// and, with the initial backoff not above the cap, the `j`-th wait since
/// the start or the last successful connection is `min(initial * 2^j, cap)`.
pub proof fn law_reconnect_run(since: Cursor, live: bool, policy: ReconnectPolicy, es: Seq<ReconnectEvent>)
    ensures
        ({
            let r0 = fresh_reconnector(since, live, policy);
            let r = reconnect_run(r0, es);
            let seen = cursors_seen(es);
            let initial = policy.initial_backoff_ms as nat;
            let cap = policy.max_backoff_ms as nat;
            let j = waits_since_reset(r0, es);
            &&& r.cursor == resume_after(since, seen)
            &&& r.cursor >= since
            &&& forall|i: int| 0 <= i < seen.len() ==> #[trigger] seen[i] <= r.cursor
            &&& (r.cursor == since || exists|i: int| 0 <= i < seen.len() && seen[i] == r.cursor)
            &&& subscription_for(r) == (if dials(es) == 0 && live {
                Subscription::Live
            } else {
                Subscription::Since(r.cursor)
            })
            &&& r.attempts == attempts_after(0, dials(es))
            &&& initial <= cap ==> r.backoff_ms == (if initial * two_pow(j) < cap { initial * two_pow(j) } else { cap })
        }),
{
    lemma_reconnect_run(since, live, policy, es);
    law_resume_after_highest_seen(since, cursors_seen(es));
    let r0 = fresh_reconnector(since, live, policy);
    if policy.initial_backoff_ms <= policy.max_backoff_ms {
        law_backoff_run(policy.initial_backoff_ms as nat, policy.max_backoff_ms as nat, waits_since_reset(r0, es));
    }
}

// ---------------------------------------------------------------------------
// Dedup over a history of calls
// ---------------------------------------------------------------------------

/// Run the dedup steps over `calls` (fingerprint and time, in order) from
/// the remembered sightings `shown`: the answers, and the sightings after.
pub open spec fn dedup_run(window: int, shown: Map<Fingerprint, i64>, calls: Seq<(Fingerprint, i64)>) -> (Seq<bool>, Map<Fingerprint, i64>)
    decreases calls.len(),
{
    if calls.len() == 0 {
        (Seq::empty(), shown)
    } else {
        let prev = dedup_run(window, shown, calls.drop_last());
        let st = dedup_step(window, prev.1, calls.last().0, calls.last().1);
        (prev.0.push(st.0), st.1)
    }
}

/// The time of the last call for `key` that was shown (answered `false`).
pub open spec fn last_shown_in(calls: Seq<(Fingerprint, i64)>, answers: Seq<bool>, key: Fingerprint) -> Option<i64>
    decreases calls.len(),
{
    if calls.len() == 0 {
        None
    } else if calls.last().0 == key && !answers[calls.len() - 1] {
        Some(calls.last().1)
    } else {
        last_shown_in(calls.drop_last(), answers, key)
    }
}

/// Call times never go backwards.
pub open spec fn times_ordered(calls: Seq<(Fingerprint, i64)>) -> bool {
    forall|i: int, j: int| 0 <= i <= j < calls.len() ==> #[trigger] calls[i].1 <= #[trigger] calls[j].1
}

proof fn lemma_last_shown_ext(calls: Seq<(Fingerprint, i64)>, a: Seq<bool>, b: Seq<bool>, key: Fingerprint)
    requires
        forall|i: int| 0 <= i < calls.len() ==> a[i] == b[i],
    ensures
        last_shown_in(calls, a, key) == last_shown_in(calls, b, key),
    decreases calls.len(),
{
    if calls.len() > 0 {
        lemma_last_shown_ext(calls.drop_last(), a, b, key);
    }
}

proof fn lemma_last_shown_props(calls: Seq<(Fingerprint, i64)>, answers: Seq<bool>, key: Fingerprint)
    requires
        times_ordered(calls),
    ensures
        last_shown_in(calls, answers, key) matches Some(t) ==> {
            &&& exists|j: int| 0 <= j < calls.len() && calls[j].0 == key && !answers[j] && calls[j].1 == t
            &&& forall|j: int| 0 <= j < calls.len() && calls[j].0 == key && !answers[j] ==> calls[j].1 <= t
            &&& t <= calls.last().1
        },
        last_shown_in(calls, answers, key) is None ==> forall|j: int|
            0 <= j < calls.len() ==> !(calls[j].0 == key && !answers[j]),
    decreases calls.len(),
{
    if calls.len() > 0 {
        let prev = calls.drop_last();
        assert(times_ordered(prev));
        lemma_last_shown_props(prev, answers, key);
        let n = calls.len() - 1;
        if calls.last().0 == key && !answers[n] {
            assert forall|j: int| 0 <= j < calls.len() && calls[j].0 == key && !answers[j] implies calls[j].1 <= calls.last().1 by {
                assert(calls[j].1 <= calls[n].1);
            }
        } else if prev.len() > 0 {
            assert(prev.last().1 <= calls.last().1) by {
                assert(calls[n - 1].1 <= calls[n].1);
            }
            if last_shown_in(prev, answers, key) is Some {
                let j0 = choose|j: int| 0 <= j < prev.len() && prev[j].0 == key && !answers[j] && prev[j].1 == last_shown_in(prev, answers, key)->0;
                assert(calls[j0] == prev[j0]);
            }
            assert forall|j: int| 0 <= j < calls.len() && calls[j].0 == key && !answers[j] implies
                (last_shown_in(calls, answers, key) matches Some(t) && calls[j].1 <= t) by {
                assert(j < n);
                assert(calls[j] == prev[j]);
            }
        }
    }
}

/// What the remembered sightings hold after a run from nothing: a
/// fingerprint is remembered exactly while its last shown time is within the
/// window of the latest call, with that time.
#[verifier::spinoff_prover]
proof fn lemma_dedup_run_memory(window: int, calls: Seq<(Fingerprint, i64)>)
    requires
        window > 0,
        times_ordered(calls),
    ensures
        dedup_run(window, Map::empty(), calls).0.len() == calls.len(),
        calls.len() == 0 ==> dedup_run(window, Map::empty(), calls).1 == Map::<Fingerprint, i64>::empty(),
        calls.len() > 0 ==> forall|key: Fingerprint|
            #![trigger dedup_run(window, Map::empty(), calls).1.contains_key(key)]
            {
                &&& dedup_run(window, Map::empty(), calls).1.contains_key(key) <==> (last_shown_in(
                    calls,
                    dedup_run(window, Map::empty(), calls).0,
                    key,
                ) matches Some(t) && calls.last().1 - t < window)
                &&& dedup_run(window, Map::empty(), calls).1.contains_key(key)
                    ==> dedup_run(window, Map::empty(), calls).1[key] == last_shown_in(
                    calls,
                    dedup_run(window, Map::empty(), calls).0,
                    key,
                )->0
            },
    decreases calls.len(),
{
    if calls.len() > 0 {
        let prev = calls.drop_last();
        assert(times_ordered(prev));
        lemma_dedup_run_memory(window, prev);
        let rp = dedup_run(window, Map::empty(), prev);
        let r = dedup_run(window, Map::empty(), calls);
        let (fp, now) = calls.last();
        let st = dedup_step(window, rp.1, fp, now);
        assert(r.0 == rp.0.push(st.0));
        assert forall|key: Fingerprint| #![trigger r.1.contains_key(key)] {
            &&& r.1.contains_key(key) <==> (last_shown_in(calls, r.0, key) matches Some(t)
                && calls.last().1 - t < window)
            &&& r.1.contains_key(key) ==> r.1[key] == last_shown_in(calls, r.0, key)->0
        } by {
            lemma_last_shown_ext(prev, rp.0, r.0, key);
            lemma_last_shown_props(prev, rp.0, key);
            if prev.len() > 0 {
                assert(prev.last().1 <= now) by {
                    assert(calls[prev.len() - 1].1 <= calls[calls.len() - 1].1);
                }
            }
            let m = if st.0 { rp.1 } else { rp.1.insert(fp, now) };
            assert(r.1 == fresh_entries(m, now as int, window));
            if key == fp && !st.0 {
                assert(last_shown_in(calls, r.0, key) == Some(now));
                assert(m.contains_key(key) && m[key] == now);
            } else {
                assert(last_shown_in(calls, r.0, key) == last_shown_in(prev, r.0, key));
                assert(m.contains_key(key) == rp.1.contains_key(key));
                assert(m.contains_key(key) ==> m[key] == rp.1[key]);
            }
        }
    }
}

/// Dedup over a history of calls, in time order, from a fresh deduper with
/// a positive window: a call is a duplicate exactly when an earlier call
/// with the same content was shown (not itself suppressed) less than the
/// window before it. The window runs from the time content was shown, and
/// suppressed repeats do not extend it.
pub proof fn law_dedup_history(window: int, calls: Seq<(Fingerprint, i64)>, fp: Fingerprint, now: i64)
    requires
        window > 0,
        times_ordered(calls),
        forall|j: int| 0 <= j < calls.len() ==> #[trigger] calls[j].1 <= now,
    ensures
        ({
            let r = dedup_run(window, Map::empty(), calls);
            dedup_step(window, r.1, fp, now).0 == exists|j: int|
                0 <= j < calls.len() && calls[j].0 == fp && !r.0[j] && now - calls[j].1 < window
        }),
{
    lemma_dedup_run_memory(window, calls);
    let r = dedup_run(window, Map::empty(), calls);
    lemma_last_shown_props(calls, r.0, fp);
    if calls.len() > 0 {
        assert(r.1.contains_key(fp) <==> (last_shown_in(calls, r.0, fp) matches Some(t) && calls.last().1 - t < window));
        assert(calls.last().1 <= now) by {
            assert(calls[calls.len() - 1].1 <= now);
        }
        if exists|j: int| 0 <= j < calls.len() && calls[j].0 == fp && !r.0[j] && now - calls[j].1 < window {
            let j = choose|j: int| 0 <= j < calls.len() && calls[j].0 == fp && !r.0[j] && now - calls[j].1 < window;
            assert(last_shown_in(calls, r.0, fp) is Some);
        }
    }
}

/// Different content is never a duplicate, whatever came before: a call
/// whose content no earlier shown call had is shown.
pub proof fn law_new_content_never_duplicate(window: int, calls: Seq<(Fingerprint, i64)>, fp: Fingerprint, now: i64)
    requires
        window > 0,
        times_ordered(calls),
        forall|j: int| 0 <= j < calls.len() ==> #[trigger] calls[j].1 <= now,
        forall|j: int| 0 <= j < calls.len() ==> #[trigger] calls[j].0 != fp,
    ensures
        !dedup_step(window, dedup_run(window, Map::empty(), calls).1, fp, now).0,
{
    law_dedup_history(window, calls, fp, now);
}

// ---------------------------------------------------------------------------
// What each operation is for, over all inputs
// ---------------------------------------------------------------------------

/// The app gate comes first: whatever the filters say, a notification is
/// shown only if its app's checkmark is set or, for an app without a
/// checkmark, the default mode is `Allow`. An unconfigured app under `Block`
/// is therefore always suppressed.
pub proof fn law_app_gate_comes_first(rules: &Rules, n: &Notification)
    ensures
        rules.decide(n) == Verdict::Show ==> (if rules.apps@.contains_key(n.app_name@) {
            rules.apps@[n.app_name@]
        } else {
            rules.default_mode == DefaultMode::Allow
        }),
        !rules.apps@.contains_key(n.app_name@) && rules.default_mode == DefaultMode::Block
            ==> rules.decide(n) == Verdict::Suppress,
{
}

/// A notification is shown exactly when it passes all three stages: the app
/// gate lets its app through, no block filter matches it, and, if there are
/// allow filters, one of them matches it.
pub proof fn law_shown_iff_every_stage_passes(rules: &Rules, n: &Notification)
    ensures
        rules.decide(n) == Verdict::Show <==> {
            &&& (if rules.apps@.contains_key(n.app_name@) {
                rules.apps@[n.app_name@]
            } else {
                rules.default_mode == DefaultMode::Allow
            })
            &&& forall|i: int| 0 <= i < rules.filters@.len() && rules.filters@[i].action == FilterAction::Block
                ==> !filter_matches(&rules.filters@[i], n)
            &&& (exists|i: int| 0 <= i < rules.filters@.len() && rules.filters@[i].action == FilterAction::Allow)
                ==> exists|i: int| 0 <= i < rules.filters@.len() && rules.filters@[i].action == FilterAction::Allow
                && filter_matches(&rules.filters@[i], n)
        },
{
}

/// A parseable `Last-Event-ID` header wins: a subscription carrying one
/// resumes after the cursor it names, whatever `?since=` says. Without a
/// parseable header, `?since=` is used, and without either the replay starts
/// from the beginning.
pub proof fn law_last_event_id_wins(h: Seq<char>, since: Option<Cursor>)
    ensures
        parse_cursor(h) matches Some(c) ==> resume_cursor(Some(h), since) == c,
        parse_cursor(h) is None ==> resume_cursor(Some(h), since) == resume_cursor(None, since),
        since matches Some(s) ==> resume_cursor(None, since) == s,
        since is None ==> resume_cursor(None, since) == 0,
{
}

/// A range that does not wrap midnight holds exactly the times from its
/// start (included) to its end (excluded), compared as whole `HHMM` values,
/// minutes included.
pub proof fn law_plain_range_is_half_open(hhmm: u16, range: TimeRange)
    requires
        range.start_hhmm <= range.end_hhmm,
    ensures
        in_range(hhmm, range) == (range.start_hhmm <= hhmm && hhmm < range.end_hhmm),
{
}

/// A sequence ending in a character that is not a dot has its last dot in
/// the part before it.
proof fn lemma_last_dot_of_dotless_tail(p: Seq<char>, t: Seq<char>)
    requires
        forall|i: int| 0 <= i < t.len() ==> t[i] != '.',
    ensures
        last_dot(p + t) == last_dot(p),
    decreases t.len(),
{
    if t.len() > 0 {
        assert((p + t).drop_last() =~= p + t.drop_last());
        lemma_last_dot_of_dotless_tail(p, t.drop_last());
    }
}

/// A hint is a domain when it is a name, a dot, and two or more ASCII letters
/// after its last dot, whatever dots the name itself holds: so prefixing a
/// domain with another `label.` keeps it a domain. (The name here holds no
/// space, slash, backslash or colon and does not start with `.`, `~` or
/// whitespace, so the hint is neither a URL nor a path.) Its favicon is then
/// the chain step it contributes.
pub proof fn law_dotted_hint_with_letter_suffix_is_domain(a: Seq<char>, t: Seq<char>)
    requires
        a.len() > 0,
        !is_white_space(a[0]),
        a[0] != '.',
        a[0] != '~',
        forall|i: int| 0 <= i < a.len() ==> a[i] != ' ' && a[i] != '/' && a[i] != '\\' && a[i] != ':',
        t.len() >= 2,
        forall|i: int| 0 <= i < t.len() ==> ('a' <= #[trigger] t[i] <= 'z' || 'A' <= t[i] <= 'Z'),
    ensures
        classify_spec(a + seq!['.'] + t) == IconRefSpec::Domain(a + seq!['.'] + t),
{
    let p = a + seq!['.'];
    let r = p + t;
    assert(r.len() > 0 && r[0] == a[0]);
    assert(r.last() == t.last());
    assert(trim_start(r) == r);
    assert(trim_end(r) == r);
    assert(trim(r) == r);
    lemma_last_dot_of_dotless_tail(p, t);
    assert(last_dot(p) == a.len()) by {
        assert(p.last() == '.');
    }
    assert(r.subrange(last_dot(r) + 1, r.len() as int) =~= t);
    assert(r[a.len() as int] == '.');
    assert(has_char(r, '.'));
    assert forall|i: int| 0 <= i < r.len() implies r[i] != ' ' && r[i] != '/' && r[i] != '\\' && r[i] != ':' by {
        if i < a.len() {
            assert(r[i] == a[i]);
        } else if i > a.len() {
            assert(r[i] == t[i - a.len() - 1]);
        }
    }
    assert(!is_prefix(http_prefix(), r)) by {
        if is_prefix(http_prefix(), r) {
            assert(r[4] == r.subrange(0, 7)[4]);
        }
    }
    assert(!is_prefix(https_prefix(), r)) by {
        if is_prefix(https_prefix(), r) {
            assert(r[5] == r.subrange(0, 8)[5]);
        }
    }
    assert(!is_prefix(file_prefix(), r)) by {
        if is_prefix(file_prefix(), r) {
            assert(r[4] == r.subrange(0, 7)[4]);
        }
    }
    assert(a + seq!['.'] + t == r);
}

/// The toast shows the title as its headline and the body under it: the
/// first `<text>` element holds exactly the escaped title (it runs from the
/// toast's head up to the next `<`, which escaped text never holds), and the
/// second holds exactly the escaped body, up to the toast's tail.
pub proof fn law_toast_title_first_body_second(n: &Notification)
    ensures
        ({
            let x = toast_xml(n);
            let et = xml_escaped(n.title@);
            let eb = xml_escaped(n.body@);
            let h: int = TOAST_HEAD@.len() as int;
            let m: int = h + et.len() + TOAST_MID@.len();
            &&& x.subrange(0, h) == TOAST_HEAD@
            &&& x.subrange(h, h + et.len()) == et
            &&& forall|i: int| h <= i < h + et.len() ==> x[i] != '<'
            &&& x[h + et.len()] == '<'
            &&& x.subrange(h + et.len(), m) == TOAST_MID@
            &&& x.subrange(m, m + eb.len()) == eb
            &&& forall|i: int| m <= i < m + eb.len() ==> x[i] != '<'
            &&& x.subrange(m + eb.len(), x.len() as int) == TOAST_TAIL@
        }),
{
    let x = toast_xml(n);
    let et = xml_escaped(n.title@);
    let eb = xml_escaped(n.body@);
    let h: int = TOAST_HEAD@.len() as int;
    let m: int = h + et.len() + TOAST_MID@.len();
    law_escaped_text_has_no_markup(n.title@);
    law_escaped_text_has_no_markup(n.body@);
    assert(x.subrange(0, h) =~= TOAST_HEAD@);
    assert(x.subrange(h, h + et.len()) =~= et);
    assert(x.subrange(h + et.len(), m) =~= TOAST_MID@);
    assert(x.subrange(m, m + eb.len()) =~= eb);
    assert(x.subrange(m + eb.len(), x.len() as int) =~= TOAST_TAIL@);
    assert forall|i: int| h <= i < h + et.len() implies x[i] != '<' by {
        assert(x[i] == et[i - h]);
    }
    assert forall|i: int| m <= i < m + eb.len() implies x[i] != '<' by {
        assert(x[i] == eb[i - m]);
    }
    assert(TOAST_MID@.len() == 13 && TOAST_MID@[0] == '<') by {
        reveal_strlit("</text><text>");
        assert(TOAST_MID@ == "</text><text>"@);
    }
    assert(x[h + et.len()] == x.subrange(h + et.len(), m)[0]);
}

} // verus!
