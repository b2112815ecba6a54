//! The consumer's decisions: rendering received notifications, the show-or-suppress
//! step of the pipeline (rules filter, then dedup), and the reconnect loop's
//! state machine (resume cursor, failure count, backoff, give-up).
//!
//! The loop itself (dialing, streaming, sleeping) is I/O and is driven from
//! outside; every decision it takes is a method here.

use vstd::prelude::*;
use crate::dedup::{dedup_step, fingerprint, Deduper, Fingerprint};
use crate::health::{ConnectionState, ProducerHealth, ProducerStatus};
use crate::notification::{Notification, Priority};
use crate::outbox::Cursor;
use crate::rules::{Rules, Verdict};
use crate::sink::{DisplayError, NotificationSink};
use crate::text::{dec_digits, push_char, push_dec, push_str};
use std::sync::Arc;
use vstd::rwlock::{RwLock, RwLockPredicate};

verus! {

// ---------------------------------------------------------------------------
// Rendering
// ---------------------------------------------------------------------------

/// The tag appended for an elevated priority.
pub open spec fn priority_suffix(p: Priority) -> Seq<char> {
    match p {
        Priority::High => seq![' ', '(', 'h', 'i', 'g', 'h', ')'],
        Priority::Urgent => seq![' ', '(', 'u', 'r', 'g', 'e', 'n', 't', ')'],
        _ => Seq::empty(),
    }
}

/// `app: title — body (priority)`; the dash part is omitted for an empty
/// body and the priority tag for `Low`/`Normal`.
pub open spec fn rendered(n: &Notification) -> Seq<char> {
    n.app_name@ + seq![':', ' '] + n.title@ + (if n.body@.len() > 0 {
        seq![' ', '—', ' '] + n.body@
    } else {
        Seq::empty()
    }) + priority_suffix(n.effective_priority())
}

/// `[seq] ` followed by the rendering of `n`.
pub open spec fn rendered_line(seq: Cursor, n: &Notification) -> Seq<char> {
    seq!['['] + dec_digits(seq as nat) + seq![']', ' '] + rendered(n)
}

/// Render a notification as `app: title — body (priority)`, without a cursor.
pub fn format_notification(n: &Notification) -> (line: String)
    ensures
        line@ == rendered(n),
{
    let mut line = String::new();
    push_str(&mut line, n.app_name.as_str());
    push_char(&mut line, ':');
    push_char(&mut line, ' ');
    push_str(&mut line, n.title.as_str());
    let ghost head = line@;
    if n.body.unicode_len() > 0 {
        push_char(&mut line, ' ');
        push_char(&mut line, '—');
        push_char(&mut line, ' ');
        push_str(&mut line, n.body.as_str());
    }
    let ghost mid = line@;
    match n.priority() {
        Priority::High => {
            push_char(&mut line, ' ');
            push_char(&mut line, '(');
            push_char(&mut line, 'h');
            push_char(&mut line, 'i');
            push_char(&mut line, 'g');
            push_char(&mut line, 'h');
            push_char(&mut line, ')');
        },
        Priority::Urgent => {
            push_char(&mut line, ' ');
            push_char(&mut line, '(');
            push_char(&mut line, 'u');
            push_char(&mut line, 'r');
            push_char(&mut line, 'g');
            push_char(&mut line, 'e');
            push_char(&mut line, 'n');
            push_char(&mut line, 't');
            push_char(&mut line, ')');
        },
        _ => {},
    }
    assert(line@ =~= rendered(n));
    line
}

/// Render a received notification as a single line, prefixed with its cursor.
pub fn format_line(seq: Cursor, n: &Notification) -> (line: String)
    ensures
        line@ == rendered_line(seq, n),
{
    let mut line = String::new();
    push_char(&mut line, '[');
    push_dec(&mut line, seq);
    push_char(&mut line, ']');
    push_char(&mut line, ' ');
    let body = format_notification(n);
    push_str(&mut line, body.as_str());
    assert(line@ =~= rendered_line(seq, n));
    line
}

// ---------------------------------------------------------------------------
// The pipeline's show-or-suppress step
// ---------------------------------------------------------------------------

/// Decide whether a received notification is shown: the rules must allow it
/// and it must not be a recent duplicate. The deduper is consulted (and
/// updated) only for notifications the rules allow.
pub fn should_show(rules: &Rules, deduper: &mut Deduper, n: &Notification, now_ms: i64) -> (shown: bool)
    ensures
        rules.decide(n) != Verdict::Show ==> !shown && final(deduper).shown() == old(deduper).shown(),
        rules.decide(n) == Verdict::Show ==> {
            let step = dedup_step(old(deduper).window(), old(deduper).shown(), fingerprint(n), now_ms);
            &&& shown == !step.0
            &&& final(deduper).shown() == step.1
        },
        final(deduper).window() == old(deduper).window(),
{
    if !rules.allows(n) {
        return false;
    }
    !deduper.is_duplicate(n, now_ms)
}

/// The display end of the consumer pipeline: the rules filter, then dedup,
/// then the sink. (Recording every received notification to history comes
/// before it and is storage I/O.)
pub struct DisplayStage<S: NotificationSink> {
    pub rules: Rules,
    pub deduper: Deduper,
    pub sink: S,
}

impl<S: NotificationSink> DisplayStage<S> {
    /// A stage with `rules`, a dedup window of `dedup_window_ms` (negative
    /// values count as 0) and nothing seen yet.
    pub fn new(rules: Rules, dedup_window_ms: i64, sink: S) -> (d: Self)
        ensures
            d.rules == rules,
            d.deduper.window() == if dedup_window_ms < 0 { 0 } else { dedup_window_ms as int },
            d.deduper.shown() == Map::<Fingerprint, i64>::empty(),
            d.sink == sink,
    {
        DisplayStage { rules, deduper: Deduper::new(dedup_window_ms), sink }
    }

    /// Show `n` unless the rules suppress it or it is a recent duplicate.
    /// Returns whether it was shown: when shown, the result is one outcome of
    /// the sink showing `n` (`Ok(true)` for its `Ok`, its error as is, the
    /// notification then still counting as seen for dedup).
    pub fn handle(&mut self, n: &Notification, now_ms: i64) -> (r: Result<bool, DisplayError>)
        requires
            old(self).sink.accepts(n),
        ensures
            final(self).rules == old(self).rules,
            final(self).sink == old(self).sink,
            final(self).deduper.window() == old(self).deduper.window(),
            old(self).rules.decide(n) != Verdict::Show ==> r == Ok::<bool, DisplayError>(false)
                && final(self).deduper.shown() == old(self).deduper.shown(),
            old(self).rules.decide(n) == Verdict::Show ==> {
                let step = dedup_step(old(self).deduper.window(), old(self).deduper.shown(), fingerprint(n), now_ms);
                &&& final(self).deduper.shown() == step.1
                &&& step.0 ==> r == Ok::<bool, DisplayError>(false)
                &&& !step.0 ==> exists|res: Result<(), DisplayError>| #[trigger] old(self).sink.outcome(n, res)
                    && r == (match res {
                        Ok(_) => Ok::<bool, DisplayError>(true),
                        Err(e) => Err::<bool, DisplayError>(e),
                    })
            },
    {
        if !should_show(&self.rules, &mut self.deduper, n, now_ms) {
            return Ok(false);
        }
        match self.sink.show(n) {
            Ok(()) => Ok(true),
            Err(e) => Err(e),
        }
    }
}

// ---------------------------------------------------------------------------
// The reconnect loop
// ---------------------------------------------------------------------------

/// Backoff/retry policy for the consumer's auto-reconnect loop (times in
/// milliseconds).
#[derive(Debug, Clone, Copy, PartialEq, Eq)]
pub struct ReconnectPolicy {
    /// Delay before the first retry; doubles each attempt up to `max_backoff_ms`.
    pub initial_backoff_ms: u64,
    /// Cap on the backoff delay.
    pub max_backoff_ms: u64,
    /// `None` retries forever; `Some(n)` bounds the number of connection
    /// attempts (the first dial included): once `n` have been made, the loop
    /// gives up, whether they failed or streamed and then ended.
    pub max_retries: Option<usize>,
}

impl Default for ReconnectPolicy {
    fn default() -> (p: Self)
        ensures
            p.initial_backoff_ms == 1000,
            p.max_backoff_ms == 30000,
            p.max_retries is None,
    {
        ReconnectPolicy { initial_backoff_ms: 1000, max_backoff_ms: 30000, max_retries: None }
    }
}

/// How the next connection attempt subscribes.
#[derive(Debug, Clone, Copy, PartialEq, Eq, Structural)]
pub enum Subscription {
    /// Skip the producer's backlog; stream only new notifications.
    Live,
    /// Replay everything after this cursor, then stream live.
    Since(Cursor),
}

/// What the loop does once an attempt (a dial, and the stream it opened if
/// any) is over.
#[derive(Debug, Clone, Copy, PartialEq, Eq, Structural)]
pub enum AfterAttempt {
    /// Retries are exhausted: stop.
    GiveUp,
    /// Sleep this many milliseconds, then dial again.
    RetryAfter(u64),
}

/// Consecutive dial failures after which a producer counts as unreachable.
pub const UNREACHABLE_AFTER: usize = 3;

/// The reconnect loop's own state.
#[derive(Debug)]
pub struct Reconnector {
    /// Highest cursor seen so far (where a reconnect resumes).
    pub cursor: Cursor,
    /// No attempt has been made yet.
    pub first: bool,
    /// Whether the first attempt skips the backlog.
    pub live: bool,
    /// Consecutive failed dials.
    pub failures: usize,
    /// Connection attempts made so far (saturating).
    pub attempts: usize,
    /// The delay before the next retry (ms).
    pub backoff_ms: u64,
    pub policy: ReconnectPolicy,
}

/// The resume cursor once an event with cursor `seq` arrives: the higher of
/// the two.
pub open spec fn advance_cursor(cursor: Cursor, seq: Cursor) -> Cursor {
    if seq > cursor { seq } else { cursor }
}

/// The resume cursor after events with cursors `seqs` arrive, in order,
/// starting from `since`.
pub open spec fn resume_after(since: Cursor, seqs: Seq<Cursor>) -> Cursor
    decreases seqs.len(),
{
    if seqs.len() == 0 {
        since
    } else {
        advance_cursor(resume_after(since, seqs.drop_last()), seqs.last())
    }
}

/// The next backoff: double, capped (computed without overflow).
pub open spec fn next_backoff(backoff: nat, cap: nat) -> nat {
    if 2 * backoff < cap { 2 * backoff } else { cap }
}

/// One step of the reconnect loop, as the loop reports it to its state.
pub enum ReconnectEvent {
    /// A connection attempt is made (`next_subscription`).
    Dial,
    /// The dial succeeded (`on_connected`).
    Connected,
    /// An event with this cursor arrived (`on_event`).
    Event(Cursor),
    /// The dial failed (`on_connect_failed`).
    ConnectFailed,
    /// The attempt is over (`after_attempt`).
    AttemptOver,
}

/// The loop's state before its first attempt.
pub open spec fn fresh_reconnector(since: Cursor, live: bool, policy: ReconnectPolicy) -> Reconnector {
    Reconnector {
        cursor: since,
        first: true,
        live,
        failures: 0,
        attempts: 0,
        backoff_ms: policy.initial_backoff_ms,
        policy,
    }
}

/// How the next attempt from state `r` subscribes: the first one honours
/// `live`; every later one resumes after the highest cursor seen.
pub open spec fn subscription_for(r: Reconnector) -> Subscription {
    if r.first && r.live {
        Subscription::Live
    } else {
        Subscription::Since(r.cursor)
    }
}

/// Whether the loop stops once the current attempt is over: a bounded
/// budget of attempts has been spent.
pub open spec fn gives_up(r: Reconnector) -> bool {
    r.policy.max_retries matches Some(max) && r.attempts >= max
}

/// The loop's state after step `e` from state `r`.
pub open spec fn reconnect_step(r: Reconnector, e: ReconnectEvent) -> Reconnector {
    match e {
        ReconnectEvent::Dial => Reconnector {
            first: false,
            attempts: if r.attempts < usize::MAX { (r.attempts + 1) as usize } else { r.attempts },
            ..r
        },
        ReconnectEvent::Connected => Reconnector { failures: 0, backoff_ms: r.policy.initial_backoff_ms, ..r },
        ReconnectEvent::Event(seq) => Reconnector { cursor: advance_cursor(r.cursor, seq), ..r },
        ReconnectEvent::ConnectFailed => Reconnector { failures: (r.failures + 1) as usize, ..r },
        ReconnectEvent::AttemptOver => if gives_up(r) {
            r
        } else {
            Reconnector {
                backoff_ms: next_backoff(r.backoff_ms as nat, r.policy.max_backoff_ms as nat) as u64,
                ..r
            }
        },
    }
}

impl Reconnector {
    /// The loop's state before its first attempt, resuming after `since`.
    pub fn new(since: Cursor, live: bool, policy: ReconnectPolicy) -> (r: Self)
        ensures
            r.cursor == since,
            r.first,
            r.live == live,
            r.failures == 0,
            r.attempts == 0,
            r.backoff_ms == policy.initial_backoff_ms,
            r.policy == policy,
            r == fresh_reconnector(since, live, policy),
    {
        Reconnector {
            cursor: since,
            first: true,
            live,
            failures: 0,
            attempts: 0,
            backoff_ms: policy.initial_backoff_ms,
            policy,
        }
    }

    /// How to subscribe on the next attempt (which is counted): the first one
    /// honours `live`; every later one resumes after the highest cursor seen.
    pub fn next_subscription(&mut self) -> (s: Subscription)
        ensures
            s == (if old(self).first && old(self).live {
                Subscription::Live
            } else {
                Subscription::Since(old(self).cursor)
            }),
            s == subscription_for(*old(self)),
            *final(self) == reconnect_step(*old(self), ReconnectEvent::Dial),
            !final(self).first,
            final(self).cursor == old(self).cursor,
            final(self).live == old(self).live,
            final(self).failures == old(self).failures,
            final(self).backoff_ms == old(self).backoff_ms,
            final(self).policy == old(self).policy,
            final(self).attempts == (if old(self).attempts < usize::MAX { old(self).attempts + 1 } else { usize::MAX as int }),
    {
        let s = if self.first && self.live { Subscription::Live } else { Subscription::Since(self.cursor) };
        self.first = false;
        if self.attempts < usize::MAX {
            self.attempts = self.attempts + 1;
        }
        s
    }

    /// The dial succeeded: failures and backoff reset, status `Connected`
    /// with its error cleared.
    pub fn on_connected(&mut self, status: &mut ProducerStatus)
        ensures
            final(self).failures == 0,
            final(self).backoff_ms == old(self).policy.initial_backoff_ms,
            final(self).cursor == old(self).cursor,
            final(self).first == old(self).first,
            final(self).live == old(self).live,
            final(self).policy == old(self).policy,
            final(self).attempts == old(self).attempts,
            *final(self) == reconnect_step(*old(self), ReconnectEvent::Connected),
            final(status).state == ConnectionState::Connected,
            final(status).last_error is None,
            final(status).url == old(status).url,
            final(status).last_event_unix_ms == old(status).last_event_unix_ms,
            final(status).health == old(status).health,
    {
        self.failures = 0;
        self.backoff_ms = self.policy.initial_backoff_ms;
        status.state = ConnectionState::Connected;
        status.last_error = None;
    }

    /// The producer's self-report arrived (best-effort, after connecting).
    pub fn on_health(status: &mut ProducerStatus, health: ProducerHealth)
        ensures
            final(status).health == Some(health),
            final(status).state == old(status).state,
            final(status).url == old(status).url,
            final(status).last_error == old(status).last_error,
            final(status).last_event_unix_ms == old(status).last_event_unix_ms,
    {
        status.health = Some(health);
    }

    /// An event with cursor `seq` arrived at `now_ms`: the resume cursor
    /// becomes the highest seen, and the event time is recorded.
    pub fn on_event(&mut self, seq: Cursor, now_ms: i64, status: &mut ProducerStatus)
        ensures
            final(self).cursor == advance_cursor(old(self).cursor, seq),
            final(self).failures == old(self).failures,
            final(self).backoff_ms == old(self).backoff_ms,
            final(self).first == old(self).first,
            final(self).live == old(self).live,
            final(self).policy == old(self).policy,
            final(self).attempts == old(self).attempts,
            *final(self) == reconnect_step(*old(self), ReconnectEvent::Event(seq)),
            final(status).last_event_unix_ms == Some(now_ms),
            final(status).state == old(status).state,
            final(status).url == old(status).url,
            final(status).last_error == old(status).last_error,
            final(status).health == old(status).health,
    {
        if seq > self.cursor {
            self.cursor = seq;
        }
        status.last_event_unix_ms = Some(now_ms);
    }

    /// The stream reported an error (it is then abandoned).
    pub fn on_stream_error(status: &mut ProducerStatus, error: String)
        ensures
            final(status).last_error == Some(error),
            final(status).state == old(status).state,
            final(status).url == old(status).url,
            final(status).last_event_unix_ms == old(status).last_event_unix_ms,
            final(status).health == old(status).health,
    {
        status.last_error = Some(error);
    }

    /// The stream ended (or was abandoned): status `Reconnecting`.
    pub fn on_stream_end(status: &mut ProducerStatus)
        ensures
            final(status).state == ConnectionState::Reconnecting,
            final(status).url == old(status).url,
            final(status).last_error == old(status).last_error,
            final(status).last_event_unix_ms == old(status).last_event_unix_ms,
            final(status).health == old(status).health,
    {
        status.state = ConnectionState::Reconnecting;
    }

    /// The dial failed with `error`: one more consecutive failure; after
    /// [`UNREACHABLE_AFTER`] of them the producer counts as unreachable.
    pub fn on_connect_failed(&mut self, status: &mut ProducerStatus, error: String)
        requires
            old(self).failures < usize::MAX,
        ensures
            final(self).failures == old(self).failures + 1,
            final(self).cursor == old(self).cursor,
            final(self).backoff_ms == old(self).backoff_ms,
            final(self).first == old(self).first,
            final(self).live == old(self).live,
            final(self).policy == old(self).policy,
            final(self).attempts == old(self).attempts,
            *final(self) == reconnect_step(*old(self), ReconnectEvent::ConnectFailed),
            final(status).state == (if final(self).failures >= UNREACHABLE_AFTER {
                ConnectionState::Unreachable
            } else {
                ConnectionState::Reconnecting
            }),
            final(status).last_error == Some(error),
            final(status).url == old(status).url,
            final(status).last_event_unix_ms == old(status).last_event_unix_ms,
            final(status).health == old(status).health,
    {
        self.failures = self.failures + 1;
        status.state = if self.failures >= UNREACHABLE_AFTER {
            ConnectionState::Unreachable
        } else {
            ConnectionState::Reconnecting
        };
        status.last_error = Some(error);
    }

    /// After an attempt: give up (status `Unreachable`) once a bounded
    /// budget of attempts is spent, however they ended; otherwise wait the
    /// current backoff and double it for next time, up to the cap.
    pub fn after_attempt(&mut self, status: &mut ProducerStatus) -> (a: AfterAttempt)
        ensures
            final(self).cursor == old(self).cursor,
            final(self).failures == old(self).failures,
            final(self).first == old(self).first,
            final(self).live == old(self).live,
            final(self).policy == old(self).policy,
            final(self).attempts == old(self).attempts,
            *final(self) == reconnect_step(*old(self), ReconnectEvent::AttemptOver),
            gives_up(*old(self)) ==> a == AfterAttempt::GiveUp,
            !gives_up(*old(self)) ==> a == AfterAttempt::RetryAfter(old(self).backoff_ms),
            final(status).url == old(status).url,
            final(status).last_error == old(status).last_error,
            final(status).last_event_unix_ms == old(status).last_event_unix_ms,
            final(status).health == old(status).health,
            (old(self).policy.max_retries matches Some(max) && old(self).attempts >= max) ==> {
                &&& a == AfterAttempt::GiveUp
                &&& final(status).state == ConnectionState::Unreachable
                &&& final(self).backoff_ms == old(self).backoff_ms
            },
            !(old(self).policy.max_retries matches Some(max) && old(self).attempts >= max) ==> {
                &&& a == AfterAttempt::RetryAfter(old(self).backoff_ms)
                &&& final(self).backoff_ms == next_backoff(
                    old(self).backoff_ms as nat,
                    old(self).policy.max_backoff_ms as nat,
                )
                &&& final(status).state == old(status).state
            },
    {
        if let Some(max) = self.policy.max_retries {
            if self.attempts >= max {
                status.state = ConnectionState::Unreachable;
                return AfterAttempt::GiveUp;
            }
        }
        let delay = self.backoff_ms;
        let cap = self.policy.max_backoff_ms;
        self.backoff_ms = if self.backoff_ms < cap / 2 || (self.backoff_ms == cap / 2 && cap % 2 == 1) {
            self.backoff_ms * 2
        } else {
            cap
        };
        AfterAttempt::RetryAfter(delay)
    }
}

// ---------------------------------------------------------------------------
// Shared connection status
// ---------------------------------------------------------------------------

/// What a status handle's lock may hold: a status for one fixed producer URL.
pub struct StatusOf {
    pub url: Ghost<Seq<char>>,
}

impl RwLockPredicate<ProducerStatus> for StatusOf {
    open spec fn inv(self, v: ProducerStatus) -> bool {
        v.url@ == self.url@
    }
}

/// A cloneable handle to the live status of one producer connection. The run
/// loop writes it; the UI reads it. Every clone shares one lock, and the
/// status behind it always belongs to the URL the handle was made for.
pub struct StatusHandle(Arc<RwLock<ProducerStatus, StatusOf>>);

impl StatusHandle {
    /// The producer URL this handle tracks.
    pub closed spec fn url(&self) -> Seq<char> {
        self.0.pred().url@
    }

    /// A fresh handle for `url`, starting in `Connecting`.
    pub fn new(url: &str) -> (h: Self)
        ensures
            h.url() == url@,
    {
        let s = ProducerStatus::new(url);
        let ghost u = url@;
        StatusHandle(Arc::new(RwLock::new(s, Ghost(StatusOf { url: Ghost(u) }))))
    }

    /// A snapshot of the current status. Other clones of the handle may write
    /// between two snapshots, so all that holds of every snapshot is that it
    /// is this handle's producer.
    pub fn get(&self) -> (s: ProducerStatus)
        ensures
            s.url@ == self.url(),
    {
        let r = self.0.acquire_read();
        let s = r.borrow().clone();
        r.release_read();
        s
    }

    /// Replace the status with `s`, a status of the same producer.
    pub fn set(&self, s: ProducerStatus)
        requires
            s.url@ == self.url(),
    {
        let (_previous, w) = self.0.acquire_write();
        w.release_write(s);
    }
}

impl Clone for StatusHandle {
    fn clone(&self) -> (h: Self)
        ensures
            h.url() == self.url(),
    {
        StatusHandle(Arc::clone(&self.0))
    }
}

} // verus!
