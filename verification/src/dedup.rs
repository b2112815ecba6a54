//! Dedup window for the consumer.
//!
//! The same logical notification can arrive more than once. The [`Deduper`]
//! suppresses an identical notification (same app name, title and body) seen
//! again within a time window measured from the time it was last shown. The
//! caller passes the current time in; the engine holds no clock.

use vstd::prelude::*;
use crate::notification::Notification;
use crate::text::str_eq;

verus! {

/// The content a notification is deduplicated on: app name, title and body.
pub type Fingerprint = (Seq<char>, Seq<char>, Seq<char>);

/// The fingerprint of `n`.
pub open spec fn fingerprint(n: &Notification) -> Fingerprint {
    (n.app_name@, n.title@, n.body@)
}

/// One remembered sighting: fingerprint strings and the time it was shown.
#[derive(Debug)]
struct Sighting {
    app_name: String,
    title: String,
    body: String,
    shown: i64,
}

impl Sighting {
    spec fn key(&self) -> Fingerprint {
        (self.app_name@, self.title@, self.body@)
    }
}

/// `m` without the entries older than `window` at time `now`.
pub open spec fn fresh_entries(m: Map<Fingerprint, i64>, now: int, window: int) -> Map<Fingerprint, i64> {
    Map::new(|k: Fingerprint| m.contains_key(k) && now - m[k] < window, |k: Fingerprint| m[k])
}

/// One dedup decision: whether a notification with fingerprint `fp` seen at
/// `now` is a duplicate, and the sightings remembered afterwards. With a zero
/// window nothing is a duplicate and nothing is remembered; otherwise it is a
/// duplicate when it was shown less than `window` ago, a non-duplicate is
/// recorded as shown at `now`, and sightings that have aged out are dropped.
pub open spec fn dedup_step(window: int, shown: Map<Fingerprint, i64>, fp: Fingerprint, now: i64) -> (bool, Map<Fingerprint, i64>) {
    if window <= 0 {
        (false, shown)
    } else {
        let dup = shown.contains_key(fp) && now - shown[fp] < window;
        (dup, fresh_entries(if dup { shown } else { shown.insert(fp, now) }, now as int, window))
    }
}

/// Suppresses identical notifications seen again within a fixed time window
/// (measured from the sighting that was shown, not sliding).
#[derive(Debug)]
pub struct Deduper {
    window_ms: i64,
    /// Fingerprint and the time it was last shown (caller's clock, ms).
    last_shown: Vec<Sighting>,
}

impl Deduper {
    #[verifier::type_invariant]
    spec fn inv(self) -> bool {
        &&& self.window_ms >= 0
        &&& forall|i: int, j: int|
            0 <= i < j < self.last_shown@.len() ==> #[trigger] self.last_shown@[i].key() != #[trigger] self.last_shown@[j].key()
    }

    spec fn has_key_at(self, k: Fingerprint, i: int) -> bool {
        0 <= i < self.last_shown@.len() && self.last_shown@[i].key() == k
    }

    /// The window in milliseconds.
    pub closed spec fn window(&self) -> int {
        self.window_ms as int
    }

    /// The window is never negative.
    pub fn window_ms(&self) -> (w: i64)
        ensures
            w == self.window(),
            w >= 0,
    {
        proof {
            use_type_invariant(self);
        }
        self.window_ms
    }

    /// Fingerprint to the time it was last shown, for the sightings remembered.
    pub closed spec fn shown(&self) -> Map<Fingerprint, i64> {
        Map::new(
            |k: Fingerprint| exists|i: int| self.has_key_at(k, i),
            |k: Fingerprint| self.last_shown@[choose|i: int| self.has_key_at(k, i)].shown,
        )
    }

    proof fn lemma_lookup(self, k: Fingerprint, i: int)
        requires
            self.inv(),
            self.has_key_at(k, i),
        ensures
            self.shown().contains_key(k),
            self.shown()[k] == self.last_shown@[i].shown,
    {
        let j = choose|j: int| self.has_key_at(k, j);
        if j < i {
            assert(self.last_shown@[j].key() != self.last_shown@[i].key());
        } else if i < j {
            assert(self.last_shown@[i].key() != self.last_shown@[j].key());
        }
    }

    /// Create a deduper with the given window in milliseconds (negative
    /// values are clamped to 0). A window of `0` dedups nothing.
    pub fn new(window_ms: i64) -> (d: Self)
        ensures
            d.window() == if window_ms < 0 { 0 } else { window_ms as int },
            d.shown() == Map::<Fingerprint, i64>::empty(),
            d.window() >= 0,
    {
        let d = Deduper { window_ms: if window_ms < 0 { 0 } else { window_ms }, last_shown: Vec::new() };
        assert(d.shown() =~= Map::<Fingerprint, i64>::empty());
        d
    }

    /// Decide whether `n` is a duplicate that should be suppressed, given the
    /// caller's current time `now_ms`. A non-duplicate is recorded as shown at
    /// `now_ms`; sightings older than the window are then forgotten.
    pub fn is_duplicate(&mut self, n: &Notification, now_ms: i64) -> (dup: bool)
        ensures
            final(self).window() == old(self).window(),
            (dup, final(self).shown()) == dedup_step(old(self).window(), old(self).shown(), fingerprint(n), now_ms),
    {
        proof {
            use_type_invariant(&*self);
        }
        if self.window_ms == 0 {
            return false;
        }
        let w = self.window_ms;
        let ghost fp = fingerprint(n);
        let ghost old_m = self.shown();
        // Look the fingerprint up.
        let mut found: Option<usize> = None;
        let mut i: usize = 0;
        while i < self.last_shown.len() && found.is_none()
            invariant
                i <= self.last_shown@.len(),
                found is None ==> forall|j: int| 0 <= j < i ==> self.last_shown@[j].key() != fp,
                found matches Some(f) ==> self.has_key_at(fp, f as int),
                fp == fingerprint(n),
            decreases self.last_shown@.len() - i + (if found is None { 1int } else { 0int }),
        {
            let s = &self.last_shown[i];
            if str_eq(s.app_name.as_str(), n.app_name.as_str()) && str_eq(s.title.as_str(), n.title.as_str())
                && str_eq(s.body.as_str(), n.body.as_str()) {
                found = Some(i);
                assert(self.has_key_at(fp, i as int));
            } else {
                i = i + 1;
            }
        }
        let duplicate = match found {
            Some(f) => (now_ms as i128) - (self.last_shown[f].shown as i128) < (w as i128),
            None => false,
        };
        proof {
            match found {
                Some(f) => { self.lemma_lookup(fp, f as int); },
                None => { assert(!old_m.contains_key(fp)); },
            }
        }
        let ghost target = if duplicate { old_m } else { old_m.insert(fp, now_ms) };
        // Rebuild the table: record the sighting, drop what has aged out.
        let mut kept: Vec<Sighting> = Vec::new();
        let ghost mut src: Seq<int> = Seq::empty();
        let mut j: usize = 0;
        while j < self.last_shown.len()
            invariant
                j <= self.last_shown@.len(),
                w == self.window_ms,
                w > 0,
                self.inv(),
                fp == fingerprint(n),
                old_m == self.shown(),
                found matches Some(f) ==> self.has_key_at(fp, f as int),
                found is None ==> forall|q: int| 0 <= q < self.last_shown@.len() ==> self.last_shown@[q].key() != fp,
                target == if duplicate { old_m } else { old_m.insert(fp, now_ms) },
                kept@.len() == src.len(),
                forall|a: int| 0 <= a < src.len() ==> 0 <= #[trigger] src[a] < j,
                forall|a: int, b: int| 0 <= a < b < src.len() ==> #[trigger] src[a] < #[trigger] src[b],
                forall|a: int| 0 <= a < kept@.len() ==> {
                    &&& (#[trigger] kept@[a]).key() == self.last_shown@[src[a]].key()
                    &&& kept@[a].shown == target[kept@[a].key()]
                    &&& now_ms - kept@[a].shown < w
                },
                forall|q: int| 0 <= q < j && now_ms - target[self.last_shown@[q].key()] < w
                    ==> exists|a: int| 0 <= a < src.len() && #[trigger] src[a] == q,
            decreases self.last_shown.len() - j,
        {
            let s = &self.last_shown[j];
            let is_fp = match found {
                Some(f) => f == j,
                None => false,
            };
            let shown = if is_fp && !duplicate { now_ms } else { s.shown };
            proof {
                self.lemma_lookup(s.key(), j as int);
                if is_fp {
                    assert(s.key() == fp);
                } else if found is Some {
                    let f = found->0;
                    if s.key() == fp {
                        if (f as int) < j { assert(self.last_shown@[f as int].key() != self.last_shown@[j as int].key()); }
                        else { assert(self.last_shown@[j as int].key() != self.last_shown@[f as int].key()); }
                    }
                }
                assert(shown == target[s.key()]);
            }
            let ghost old_src = src;
            if (now_ms as i128) - (shown as i128) < (w as i128) {
                kept.push(Sighting {
                    app_name: s.app_name.clone(),
                    title: s.title.clone(),
                    body: s.body.clone(),
                    shown,
                });
                proof {
                    src = src.push(j as int);
                    assert(src[src.len() - 1] == j);
                }
            }
            proof {
                assert forall|q: int| 0 <= q < j + 1 && now_ms - target[self.last_shown@[q].key()] < w
                    implies exists|a: int| 0 <= a < src.len() && #[trigger] src[a] == q by {
                    if q < j {
                        let a = choose|a: int| 0 <= a < old_src.len() && #[trigger] old_src[a] == q;
                        assert(src[a] == q);
                    } else {
                        assert(src[src.len() - 1] == j);
                    }
                }
            }
            j = j + 1;
        }
        let mut added = false;
        if found.is_none() && !duplicate {
            kept.push(Sighting {
                app_name: n.app_name.clone(),
                title: n.title.clone(),
                body: n.body.clone(),
                shown: now_ms,
            });
            added = true;
        }
        proof {
            let len0 = src.len();
            assert forall|a: int, b: int| 0 <= a < b < kept@.len() implies
                #[trigger] kept@[a].key() != #[trigger] kept@[b].key() by {
                if b < len0 {
                    assert(src[a] < src[b]);
                    assert(self.last_shown@[src[a]].key() != self.last_shown@[src[b]].key());
                } else {
                    assert(self.last_shown@[src[a]].key() != fp);
                }
            }
        }
        let ghost old_self = *self;
        self.last_shown = kept;
        proof {
            let m = self.shown();
            let goal = fresh_entries(target, now_ms as int, w as int);
            let len0 = src.len();
            assert forall|k: Fingerprint| #[trigger] m.contains_key(k) == goal.contains_key(k) by {
                if m.contains_key(k) {
                    let a = choose|a: int| self.has_key_at(k, a);
                    if a < len0 {
                        old_self.lemma_lookup(k, src[a]);
                    }
                }
                if goal.contains_key(k) {
                    if k == fp && found is None {
                        assert(self.has_key_at(k, len0 as int));
                    } else {
                        let q = choose|q: int| old_self.has_key_at(k, q);
                        old_self.lemma_lookup(k, q);
                        let a = choose|a: int| 0 <= a < src.len() && #[trigger] src[a] == q;
                        assert(self.has_key_at(k, a));
                    }
                }
            }
            assert forall|k: Fingerprint| m.contains_key(k) implies #[trigger] m[k] == goal[k] by {
                let a = choose|a: int| self.has_key_at(k, a);
                self.lemma_lookup(k, a);
            }
            assert(m =~= goal);
        }
        duplicate
    }
}

} // verus!
