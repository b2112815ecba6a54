//! The desktop app's `config.json` document and every edit the settings UI
//! makes to it. Each edit validates its input exactly as the app does and
//! leaves the document unchanged when it reports an error.

use vstd::prelude::*;
use crate::names::NameMap;
use crate::rules::{filter_matches, Filter, Rules};
use crate::settings::{
    default_mode_parse, filter_action_parse, id_of, id_from_counter, literal, match_field_parse, message,
    parse_default_mode, parse_filter_action, parse_match_field, parse_weekday, schedule_active,
    weekday_parse, active_scheduled_focus, Focus, FocusSchedule, ProducerEntry, RetentionConfig, TimeRange, Weekday,
};
use crate::text::{dec_digits, push_char, push_dec, push_str, str_eq, string_from_chars, trim, trim_str};

verus! {

/// Root of `config.json`.
#[derive(Debug)]
pub struct AppConfig {
    pub producers: Vec<ProducerEntry>,
    pub rules: Rules,
    pub retention: RetentionConfig,
    pub focuses: Vec<Focus>,
    /// `None` means the built-in "All" focus is active.
    pub active_focus_id: Option<String>,
    pub schedules: Vec<FocusSchedule>,
}

pub const EMPTY_URL: &'static str = "URL must not be empty";

pub const PRODUCER_HEAD: &'static str = "producer '";

pub const EXISTS_TAIL: &'static str = "' already exists";

pub const NOT_FOUND_TAIL: &'static str = "' not found";

pub const EMPTY_KEYWORD: &'static str = "filter keyword must not be empty";

pub const INDEX_HEAD: &'static str = "filter index ";

pub const INDEX_MID: &'static str = " out of range (len=";

pub const EMPTY_FOCUS_NAME: &'static str = "focus name must not be empty";

pub const FOCUS_HEAD: &'static str = "focus '";

pub const COPY_SUFFIX: &'static str = " (copy)";

pub const EMPTY_FOCUS_ID: &'static str = "focus_id must not be empty";

pub const EMPTY_DAYS: &'static str = "days must not be empty";

pub const SCHEDULE_HEAD: &'static str = "schedule '";

/// Whether some producer has URL `url`.
pub open spec fn has_producer(ps: Seq<ProducerEntry>, url: Seq<char>) -> bool {
    exists|i: int| 0 <= i < ps.len() && ps[i].url@ == url
}

/// Index of the first focus with id `id`, if any.
pub open spec fn first_focus(fs: Seq<Focus>, id: Seq<char>) -> Option<int> {
    if exists|i: int| 0 <= i < fs.len() && fs[i].id@ == id {
        Some(choose|i: int| 0 <= i < fs.len() && fs[i].id@ == id && forall|j: int| 0 <= j < i ==> fs[j].id@ != id)
    } else {
        None
    }
}

/// Two focuses agree on every field (rules by their views).
pub open spec fn same_focus(a: &Focus, b: &Focus) -> bool {
    &&& a.id == b.id
    &&& a.name == b.name
    &&& a.icon == b.icon
    &&& a.sort_order == b.sort_order
    &&& a.rules.default_mode == b.rules.default_mode
    &&& a.rules.apps@ == b.rules.apps@
    &&& a.rules.filters@ == b.rules.filters@
}

/// Whether some focus has id `id`.
pub open spec fn has_focus(fs: Seq<Focus>, id: Seq<char>) -> bool {
    exists|i: int| 0 <= i < fs.len() && fs[i].id@ == id
}

/// Parse every day name, in order; the first failure's message wins.
pub open spec fn days_parse(days: Seq<Seq<char>>) -> Result<Seq<Weekday>, Seq<char>>
    decreases days.len(),
{
    if days.len() == 0 {
        Ok(Seq::empty())
    } else {
        match days_parse(days.drop_last()) {
            Err(e) => Err(e),
            Ok(ds) => match weekday_parse(days.last()) {
                Ok(d) => Ok(ds.push(d)),
                Err(e) => Err(e),
            },
        }
    }
}

/// Parse every day name in order, stopping at the first unknown one.
pub fn parse_days(days: &[String]) -> (r: Result<Vec<Weekday>, String>)
    ensures
        match (r, days_parse(days@.map_values(|d: String| d@))) {
            (Ok(v), Ok(e)) => v@ == e,
            (Err(m), Err(e)) => m@ == e,
            _ => false,
        },
{
    let ghost names = days@.map_values(|d: String| d@);
    let mut out: Vec<Weekday> = Vec::new();
    let mut i: usize = 0;
    assert(names.take(0) =~= Seq::<Seq<char>>::empty());
    while i < days.len()
        invariant
            names == days@.map_values(|d: String| d@),
            i <= days@.len(),
            days_parse(names.take(i as int)) == Ok::<Seq<Weekday>, Seq<char>>(out@),
        decreases days.len() - i,
    {
        assert(names.take(i + 1).drop_last() =~= names.take(i as int));
        assert(names.take(i + 1).last() == days@[i as int]@);
        match parse_weekday(days[i].as_str()) {
            Ok(d) => {
                out.push(d);
            },
            Err(m) => {
                proof {
                    lemma_days_parse_err_prefix(names, i as int + 1, m@);
                }
                return Err(m);
            },
        }
        i = i + 1;
    }
    assert(names.take(days@.len() as int) =~= names);
    Ok(out)
}

proof fn lemma_days_parse_err_prefix(names: Seq<Seq<char>>, k: int, e: Seq<char>)
    requires
        0 <= k <= names.len(),
        days_parse(names.take(k)) == Err::<Seq<Weekday>, Seq<char>>(e),
    ensures
        days_parse(names) == Err::<Seq<Weekday>, Seq<char>>(e),
    decreases names.len() - k,
{
    if k < names.len() {
        assert(names.take(k + 1).drop_last() =~= names.take(k));
        lemma_days_parse_err_prefix(names, k + 1, e);
    } else {
        assert(names.take(k) =~= names);
    }
}


/// `fs` without the focuses whose id is `id`.
fn without_focus(fs: Vec<Focus>, id: &str) -> (kept: Vec<Focus>)
    ensures
        kept@ == fs@.filter(|f: Focus| f.id@ != id@),
{
    let mut fs = fs;
    let ghost all = fs@;
    let ghost pred = |f: Focus| f.id@ != id@;
    let mut kept: Vec<Focus> = Vec::new();
    assert(all.take(0).filter(pred) =~= Seq::<Focus>::empty()) by {
        reveal(Seq::filter);
    }
    while fs.len() > 0
        invariant
            pred == (|f: Focus| f.id@ != id@),
            fs@.len() <= all.len(),
            fs@ == all.subrange(all.len() - fs@.len(), all.len() as int),
            kept@ == all.take(all.len() - fs@.len()).filter(pred),
        decreases fs.len(),
    {
        let ghost k: int = all.len() - fs@.len();
        let f = fs.remove(0);
        proof {
            reveal(Seq::filter);
            assert(f == all[k]);
            assert(all.take(k + 1).drop_last() =~= all.take(k));
            assert(all.take(k + 1).last() == all[k]);
            assert(all.take(k + 1).filter(pred) == if pred(all[k]) {
                all.take(k).filter(pred).push(all[k])
            } else {
                all.take(k).filter(pred)
            });
            assert(fs@ =~= all.subrange(all.len() - fs@.len(), all.len() as int));
        }
        if !str_eq(f.id.as_str(), id) {
            kept.push(f);
        }
    }
    assert(all.take(all.len() as int) =~= all);
    kept
}


/// The focuses of `s` whose sort order is `k`, in order.
pub open spec fn with_order(s: Seq<Focus>, k: u32) -> Seq<Focus> {
    s.filter(|f: Focus| f.sort_order == k)
}

/// `s` is sorted by sort order.
pub open spec fn sorted_by_order(s: Seq<Focus>) -> bool {
    forall|a: int, b: int| 0 <= a <= b < s.len() ==> #[trigger] s[a].sort_order <= #[trigger] s[b].sort_order
}

/// `out` is a stable sort of `input` by sort order: sorted, and for every
/// order value the focuses carrying it appear in the order they had before.
pub open spec fn stable_sorted(input: Seq<Focus>, out: Seq<Focus>) -> bool {
    &&& sorted_by_order(out)
    &&& forall|k: u32| #[trigger] with_order(out, k) == with_order(input, k)
}

/// The sort orders after assigning position `p` to the first focus whose id
/// is `ids[p]`, for each `p` in turn (a later position wins).
pub open spec fn reassigned(orders: Seq<u32>, fids: Seq<Seq<char>>, ids: Seq<Seq<char>>) -> Seq<u32>
    decreases ids.len(),
{
    if ids.len() == 0 {
        orders
    } else {
        let prev = reassigned(orders, fids, ids.drop_last());
        let id = ids.last();
        if exists|i: int| 0 <= i < fids.len() && fids[i] == id {
            let i = choose|i: int| 0 <= i < fids.len() && fids[i] == id && forall|j: int| 0 <= j < i ==> fids[j] != id;
            prev.update(i, (ids.len() - 1) as u32)
        } else {
            prev
        }
    }
}

proof fn lemma_filter_none<A>(s: Seq<A>, p: spec_fn(A) -> bool)
    requires
        forall|i: int| 0 <= i < s.len() ==> !p(s[i]),
    ensures
        s.filter(p) == Seq::<A>::empty(),
    decreases s.len(),
{
    reveal(Seq::filter);
    if s.len() > 0 {
        lemma_filter_none(s.drop_last(), p);
    }
}

proof fn lemma_filter_single<A>(x: A, p: spec_fn(A) -> bool)
    ensures
        seq![x].filter(p) == (if p(x) { seq![x] } else { Seq::<A>::empty() }),
{
    reveal_with_fuel(Seq::filter, 2);
    assert(seq![x].drop_last() =~= Seq::<A>::empty());
}

/// Insert `x` after every element of sorted `out` whose order is at most
/// `x`'s, keeping `out` a stable sort.
fn insert_sorted(out: &mut Vec<Focus>, x: Focus)
    requires
        sorted_by_order(old(out)@),
    ensures
        sorted_by_order(final(out)@),
        forall|k: u32| #[trigger] with_order(final(out)@, k) == (if x.sort_order == k {
            with_order(old(out)@, k).push(x)
        } else {
            with_order(old(out)@, k)
        }),
{
    let mut p: usize = 0;
    while p < out.len() && out[p].sort_order <= x.sort_order
        invariant
            p <= out@.len(),
            forall|j: int| 0 <= j < p ==> out@[j].sort_order <= x.sort_order,
        decreases out.len() - p,
    {
        p = p + 1;
    }
    let ghost o = out@;
    proof {
        assert forall|j: int| p <= j < o.len() implies o[j].sort_order > x.sort_order by {
            assert(o[p as int].sort_order <= o[j].sort_order);
        }
    }
    let kx = x.sort_order;
    out.insert(p, x);
    proof {
        let pre = o.subrange(0, p as int);
        let post = o.subrange(p as int, o.len() as int);
        assert(o =~= pre + post);
        assert(out@ =~= pre + seq![x] + post);
        assert forall|k: u32| #[trigger] with_order(out@, k) == (if kx == k {
            with_order(o, k).push(x)
        } else {
            with_order(o, k)
        }) by {
            let p2 = |f: Focus| f.sort_order == k;
            Seq::filter_distributes_over_add(pre + seq![x], post, p2);
            Seq::filter_distributes_over_add(pre, seq![x], p2);
            Seq::filter_distributes_over_add(pre, post, p2);
            lemma_filter_single(x, p2);
            if kx == k {
                lemma_filter_none(post, p2);
                assert(pre.filter(p2) + Seq::<Focus>::empty() =~= pre.filter(p2));
                assert(pre.filter(p2) + seq![x] =~= pre.filter(p2).push(x));
            } else {
                assert(pre.filter(p2) + Seq::<Focus>::empty() =~= pre.filter(p2));
            }
        }
        assert forall|a: int, b: int| 0 <= a <= b < out@.len() implies #[trigger] out@[a].sort_order <= #[trigger] out@[b].sort_order by {
            if a < p && b > p {
                assert(out@[b] == o[b - 1]);
            } else if a < p && b < p {
            } else if a == p && b > p {
                assert(out@[b] == o[b - 1]);
            } else if a > p {
                assert(out@[a] == o[a - 1]);
                assert(out@[b] == o[b - 1]);
            }
        }
    }
}

/// Stable sort by sort order (insertion sort).
fn sort_by_order(input: Vec<Focus>) -> (out: Vec<Focus>)
    ensures
        stable_sorted(input@, out@),
{
    let ghost all = input@;
    let mut rest = input;
    let mut out: Vec<Focus> = Vec::new();
    proof {
        assert forall|k: u32| #[trigger] with_order(out@, k) == with_order(all.take(0), k) by {
            reveal(Seq::filter);
            assert(all.take(0) =~= Seq::<Focus>::empty());
        }
    }
    while rest.len() > 0
        invariant
            rest@.len() <= all.len(),
            rest@ == all.subrange(all.len() - rest@.len(), all.len() as int),
            sorted_by_order(out@),
            forall|k: u32| #[trigger] with_order(out@, k) == with_order(all.take(all.len() - rest@.len()), k),
        decreases rest.len(),
    {
        let ghost i: int = all.len() - rest@.len();
        let x = rest.remove(0);
        proof {
            assert(x == all[i]);
            assert(rest@ =~= all.subrange(all.len() - rest@.len(), all.len() as int));
        }
        let ghost before = out@;
        insert_sorted(&mut out, x);
        proof {
            assert forall|k: u32| #[trigger] with_order(out@, k) == with_order(all.take(i + 1), k) by {
                reveal(Seq::filter);
                assert(all.take(i + 1).drop_last() =~= all.take(i));
                assert(all.take(i + 1).last() == all[i]);
                assert(with_order(before, k) == with_order(all.take(i), k));
            }
        }
    }
    assert(all.take(all.len() as int) =~= all);
    out
}

impl Default for AppConfig {
    fn default() -> (c: Self)
        ensures
            c.producers@.len() == 0,
            c.focuses@.len() == 0,
            c.schedules@.len() == 0,
            c.active_focus_id is None,
            c.retention.default_days == 30,
    {
        AppConfig {
            producers: Vec::new(),
            rules: Rules::default(),
            retention: RetentionConfig::default(),
            focuses: Vec::new(),
            active_focus_id: None,
            schedules: Vec::new(),
        }
    }
}

impl AppConfig {
    fn find_producer(&self, url: &str) -> (r: Option<usize>)
        ensures
            match r {
                Some(i) => i < self.producers@.len() && self.producers@[i as int].url@ == url@
                    && forall|j: int| 0 <= j < i ==> self.producers@[j].url@ != url@,
                None => !has_producer(self.producers@, url@),
            },
    {
        let mut i: usize = 0;
        while i < self.producers.len()
            invariant
                i <= self.producers@.len(),
                forall|j: int| 0 <= j < i ==> self.producers@[j].url@ != url@,
            decreases self.producers.len() - i,
        {
            if str_eq(self.producers[i].url.as_str(), url) {
                return Some(i);
            }
            i = i + 1;
        }
        None
    }

    fn find_focus(&self, id: &str) -> (r: Option<usize>)
        ensures
            match r {
                Some(i) => first_focus(self.focuses@, id@) == Some(i as int) && i < self.focuses@.len(),
                None => first_focus(self.focuses@, id@) is None && !has_focus(self.focuses@, id@),
            },
    {
        let mut i: usize = 0;
        while i < self.focuses.len()
            invariant
                i <= self.focuses@.len(),
                forall|j: int| 0 <= j < i ==> self.focuses@[j].id@ != id@,
            decreases self.focuses.len() - i,
        {
            if str_eq(self.focuses[i].id.as_str(), id) {
                proof {
                    let fs = self.focuses@;
                    assert(fs[i as int].id@ == id@);
                    let c = choose|c: int| 0 <= c < fs.len() && fs[c].id@ == id@ && forall|j: int| 0 <= j < c ==> fs[j].id@ != id@;
                    if c < i {
                    } else if c > i {
                        assert(fs[i as int].id@ != id@);
                    }
                }
                return Some(i);
            }
            i = i + 1;
        }
        None
    }

    // -- producers ---------------------------------------------------------

    /// Append a producer (URL trimmed, enabled). Refuses an empty URL and a
    /// URL already configured. Returns the trimmed URL.
    pub fn add_producer(&mut self, url: &str, label: Option<String>) -> (r: Result<String, String>)
        ensures
            trim(url@).len() == 0 ==> (r matches Err(m) && m@ == EMPTY_URL@),
            trim(url@).len() > 0 && has_producer(old(self).producers@, trim(url@)) ==> (r matches Err(m)
                && m@ == PRODUCER_HEAD@ + trim(url@) + EXISTS_TAIL@),
            r is Err ==> final(self).producers@ == old(self).producers@,
            r matches Ok(u) ==> {
                &&& u@ == trim(url@)
                &&& trim(url@).len() > 0 && !has_producer(old(self).producers@, trim(url@))
                &&& final(self).producers@.len() == old(self).producers@.len() + 1
                &&& final(self).producers@.subrange(0, old(self).producers@.len() as int) == old(self).producers@
                &&& final(self).producers@.last().url@ == u@
                &&& final(self).producers@.last().label == label
                &&& final(self).producers@.last().enabled
            },
            final(self).rules == old(self).rules,
            final(self).retention == old(self).retention,
            final(self).focuses == old(self).focuses,
            final(self).active_focus_id == old(self).active_focus_id,
            final(self).schedules == old(self).schedules,
    {
        let t = trim_str(url);
        let u = string_from_chars(t.as_slice());
        if t.len() == 0 {
            return Err(literal(EMPTY_URL));
        }
        match self.find_producer(u.as_str()) {
            Some(_) => {
                return Err(message(PRODUCER_HEAD, u.as_str(), EXISTS_TAIL));
            },
            None => {},
        }
        let ghost old_ps = self.producers@;
        self.producers.push(ProducerEntry { url: u.clone(), label, enabled: true });
        assert(self.producers@.subrange(0, old_ps.len() as int) =~= old_ps);
        Ok(u)
    }

    /// Remove every producer with URL `url`.
    pub fn remove_producer(&mut self, url: &str)
        ensures
            final(self).producers@ == old(self).producers@.filter(|p: ProducerEntry| p.url@ != url@),
            final(self).rules == old(self).rules,
            final(self).retention == old(self).retention,
            final(self).focuses == old(self).focuses,
            final(self).active_focus_id == old(self).active_focus_id,
            final(self).schedules == old(self).schedules,
    {
        let mut ps: Vec<ProducerEntry> = Vec::new();
        std::mem::swap(&mut ps, &mut self.producers);
        let ghost all = ps@;
        let ghost pred = |p: ProducerEntry| p.url@ != url@;
        let mut kept: Vec<ProducerEntry> = Vec::new();
        let mut i: usize = 0;
        assert(all.take(0).filter(pred) =~= Seq::<ProducerEntry>::empty()) by {
            reveal(Seq::filter);
        }
        while i < ps.len()
            invariant
                all == ps@,
                pred == (|p: ProducerEntry| p.url@ != url@),
                i <= all.len(),
                kept@ == all.take(i as int).filter(pred),
            decreases ps.len() - i,
        {
            proof {
                reveal(Seq::filter);
                assert(all.take(i + 1).drop_last() =~= all.take(i as int));
                assert(all.take(i + 1).last() == all[i as int]);
                assert(all.take(i + 1).filter(pred) == if pred(all[i as int]) {
                    all.take(i as int).filter(pred).push(all[i as int])
                } else {
                    all.take(i as int).filter(pred)
                });
            }
            if !str_eq(ps[i].url.as_str(), url) {
                kept.push(ps[i].clone());
            }
            i = i + 1;
        }
        assert(all.take(all.len() as int) =~= all);
        self.producers = kept;
    }

    /// Enable or disable the first producer with URL `url`.
    pub fn set_producer_enabled(&mut self, url: &str, enabled: bool) -> (r: Result<(), String>)
        ensures
            !has_producer(old(self).producers@, url@) ==> (r matches Err(m) && m@ == PRODUCER_HEAD@ + url@
                + NOT_FOUND_TAIL@ && final(self).producers@ == old(self).producers@),
            has_producer(old(self).producers@, url@) ==> r is Ok && exists|i: int|
                0 <= i < old(self).producers@.len() && old(self).producers@[i].url@ == url@
                    && (forall|j: int| 0 <= j < i ==> old(self).producers@[j].url@ != url@)
                    && final(self).producers@ == old(self).producers@.update(i, ProducerEntry {
                        url: old(self).producers@[i].url,
                        label: old(self).producers@[i].label,
                        enabled,
                    }),
            final(self).rules == old(self).rules,
            final(self).retention == old(self).retention,
            final(self).focuses == old(self).focuses,
            final(self).active_focus_id == old(self).active_focus_id,
            final(self).schedules == old(self).schedules,
    {
        match self.find_producer(url) {
            None => Err(message(PRODUCER_HEAD, url, NOT_FOUND_TAIL)),
            Some(i) => {
                let mut ps: Vec<ProducerEntry> = Vec::new();
                std::mem::swap(&mut ps, &mut self.producers);
                let ghost old_ps = ps@;
                let mut p = ps.remove(i);
                p.enabled = enabled;
                ps.insert(i, p);
                assert(ps@ =~= old_ps.update(i as int, ProducerEntry {
                    url: old_ps[i as int].url,
                    label: old_ps[i as int].label,
                    enabled,
                }));
                self.producers = ps;
                Ok(())
            },
        }
    }

    // -- rules ---------------------------------------------------------------

    /// Set the default mode from its name (`allow` / `block`).
    pub fn set_default_mode(&mut self, mode: &str) -> (r: Result<(), String>)
        ensures
            match default_mode_parse(mode@) {
                Ok(m) => r is Ok && final(self).rules.default_mode == m,
                Err(e) => r matches Err(msg) && msg@ == e && final(self).rules.default_mode == old(self).rules.default_mode,
            },
            final(self).rules.apps@ == old(self).rules.apps@,
            final(self).rules.filters == old(self).rules.filters,
            final(self).producers == old(self).producers,
            final(self).focuses == old(self).focuses,
            final(self).schedules == old(self).schedules,
            final(self).retention == old(self).retention,
            final(self).active_focus_id == old(self).active_focus_id,
    {
        let m = parse_default_mode(mode)?;
        self.rules.default_mode = m;
        Ok(())
    }

    /// Set the per-app checkmark for `app_name`.
    pub fn set_app_rule(&mut self, app_name: String, enabled: bool)
        ensures
            final(self).rules.apps@ == old(self).rules.apps@.insert(app_name@, enabled),
            final(self).rules.default_mode == old(self).rules.default_mode,
            final(self).rules.filters == old(self).rules.filters,
            final(self).producers == old(self).producers,
            final(self).retention == old(self).retention,
            final(self).focuses == old(self).focuses,
            final(self).active_focus_id == old(self).active_focus_id,
            final(self).schedules == old(self).schedules,
    {
        let _ = self.rules.apps.insert(app_name, enabled);
    }

    /// Remove the explicit per-app rule (the app falls back to the default mode).
    pub fn remove_app_rule(&mut self, app_name: &str)
        ensures
            final(self).rules.apps@ == old(self).rules.apps@.remove(app_name@),
            final(self).rules.default_mode == old(self).rules.default_mode,
            final(self).rules.filters == old(self).rules.filters,
            final(self).producers == old(self).producers,
            final(self).retention == old(self).retention,
            final(self).focuses == old(self).focuses,
            final(self).active_focus_id == old(self).active_focus_id,
            final(self).schedules == old(self).schedules,
    {
        let _ = self.rules.apps.remove(app_name);
    }

    /// Append a keyword filter from its field and action names; the keyword
    /// is trimmed and must not be empty.
    pub fn add_filter(&mut self, field: &str, contains: &str, action: &str) -> (r: Result<(), String>)
        ensures
            match (match_field_parse(field@), filter_action_parse(action@)) {
                (Err(e), _) => r matches Err(m) && m@ == e,
                (Ok(_), Err(e)) => r matches Err(m) && m@ == e,
                (Ok(f), Ok(a)) => if trim(contains@).len() == 0 {
                    r matches Err(m) && m@ == EMPTY_KEYWORD@
                } else {
                    &&& r is Ok
                    &&& final(self).rules.filters@.len() == old(self).rules.filters@.len() + 1
                    &&& final(self).rules.filters@.drop_last() == old(self).rules.filters@
                    &&& final(self).rules.filters@.last().field == f
                    &&& final(self).rules.filters@.last().action == a
                    &&& final(self).rules.filters@.last().contains@ == trim(contains@)
                },
            },
            r is Err ==> final(self).rules.filters@ == old(self).rules.filters@,
            final(self).rules.apps@ == old(self).rules.apps@,
            final(self).rules.default_mode == old(self).rules.default_mode,
            final(self).producers == old(self).producers,
            final(self).retention == old(self).retention,
            final(self).focuses == old(self).focuses,
            final(self).active_focus_id == old(self).active_focus_id,
            final(self).schedules == old(self).schedules,
    {
        let f = parse_match_field(field)?;
        let a = parse_filter_action(action)?;
        let t = trim_str(contains);
        if t.len() == 0 {
            return Err(literal(EMPTY_KEYWORD));
        }
        let ghost old_fs = self.rules.filters@;
        self.rules.filters.push(Filter { field: f, contains: string_from_chars(t.as_slice()), action: a });
        assert(self.rules.filters@.drop_last() =~= old_fs);
        Ok(())
    }

    /// Remove the keyword filter at `index`.
    pub fn remove_filter(&mut self, index: usize) -> (r: Result<(), String>)
        ensures
            index >= old(self).rules.filters@.len() ==> (r matches Err(m) && m@ == INDEX_HEAD@ + dec_digits(
                index as nat,
            ) + INDEX_MID@ + dec_digits(old(self).rules.filters@.len()) + seq![')']
                && final(self).rules.filters@ == old(self).rules.filters@),
            index < old(self).rules.filters@.len() ==> r is Ok && final(self).rules.filters@
                == old(self).rules.filters@.remove(index as int),
            final(self).rules.apps@ == old(self).rules.apps@,
            final(self).rules.default_mode == old(self).rules.default_mode,
            final(self).producers == old(self).producers,
            final(self).retention == old(self).retention,
            final(self).focuses == old(self).focuses,
            final(self).active_focus_id == old(self).active_focus_id,
            final(self).schedules == old(self).schedules,
    {
        let n = self.rules.filters.len();
        if index >= n {
            let mut m = String::new();
            push_str(&mut m, INDEX_HEAD);
            push_dec(&mut m, index as u64);
            push_str(&mut m, INDEX_MID);
            push_dec(&mut m, n as u64);
            push_char(&mut m, ')');
            assert(m@ =~= INDEX_HEAD@ + dec_digits(index as nat) + INDEX_MID@ + dec_digits(n as nat) + seq![')']);
            return Err(m);
        }
        let _ = self.rules.filters.remove(index);
        Ok(())
    }

    // -- retention -----------------------------------------------------------

    /// Set the global default retention (days).
    pub fn set_retention_default(&mut self, days: u32)
        ensures
            final(self).retention.default_days == days,
            final(self).retention.max_count == old(self).retention.max_count,
            final(self).retention.per_producer@ == old(self).retention.per_producer@,
            final(self).producers == old(self).producers,
            final(self).rules == old(self).rules,
            final(self).focuses == old(self).focuses,
            final(self).active_focus_id == old(self).active_focus_id,
            final(self).schedules == old(self).schedules,
    {
        self.retention.default_days = days;
    }

    /// Set (or clear) the global cap on stored notifications.
    pub fn set_retention_max_count(&mut self, max_count: Option<u32>)
        ensures
            final(self).retention.max_count == max_count,
            final(self).retention.default_days == old(self).retention.default_days,
            final(self).retention.per_producer@ == old(self).retention.per_producer@,
            final(self).producers == old(self).producers,
            final(self).rules == old(self).rules,
            final(self).focuses == old(self).focuses,
            final(self).active_focus_id == old(self).active_focus_id,
            final(self).schedules == old(self).schedules,
    {
        self.retention.max_count = max_count;
    }

    /// Set a per-producer retention override (days).
    pub fn set_retention_producer(&mut self, producer_url: String, days: u32)
        ensures
            final(self).retention.per_producer@ == old(self).retention.per_producer@.insert(producer_url@, days),
            final(self).retention.default_days == old(self).retention.default_days,
            final(self).retention.max_count == old(self).retention.max_count,
            final(self).producers == old(self).producers,
            final(self).rules == old(self).rules,
            final(self).focuses == old(self).focuses,
            final(self).active_focus_id == old(self).active_focus_id,
            final(self).schedules == old(self).schedules,
    {
        let _ = self.retention.per_producer.insert(producer_url, days);
    }

    /// Remove a per-producer retention override.
    pub fn remove_retention_producer(&mut self, producer_url: &str)
        ensures
            final(self).retention.per_producer@ == old(self).retention.per_producer@.remove(producer_url@),
            final(self).retention.default_days == old(self).retention.default_days,
            final(self).retention.max_count == old(self).retention.max_count,
            final(self).producers == old(self).producers,
            final(self).rules == old(self).rules,
            final(self).focuses == old(self).focuses,
            final(self).active_focus_id == old(self).active_focus_id,
            final(self).schedules == old(self).schedules,
    {
        let _ = self.retention.per_producer.remove(producer_url);
    }

    // -- focuses ---------------------------------------------------------------

    /// Create a focus with empty rules at the end of the list, its id minted
    /// from `*counter` (which then advances). The name is trimmed and must not
    /// be empty.
    pub fn add_focus(&mut self, name: &str, icon: Option<String>, counter: &mut u64) -> (r: Result<Focus, String>)
        ensures
            trim(name@).len() == 0 ==> (r matches Err(m) && m@ == EMPTY_FOCUS_NAME@
                && final(self).focuses@ == old(self).focuses@ && *final(counter) == *old(counter)),
            trim(name@).len() > 0 ==> (r matches Ok(f) && {
                &&& f.id@ == id_of(*old(counter))
                &&& f.name@ == trim(name@)
                &&& f.icon == icon
                &&& f.rules.filters@.len() == 0
                &&& f.rules.apps@ == Map::<Seq<char>, bool>::empty()
                &&& f.rules.default_mode == crate::rules::DefaultMode::Allow
                &&& f.sort_order == old(self).focuses@.len() as u32
                &&& final(self).focuses@.len() == old(self).focuses@.len() + 1
                &&& final(self).focuses@.drop_last() == old(self).focuses@
                &&& same_focus(&final(self).focuses@.last(), &f)
                &&& *final(counter) == (if *old(counter) == u64::MAX { 0 } else { *old(counter) + 1 })
            }),
            final(self).producers == old(self).producers,
            final(self).schedules == old(self).schedules,
            final(self).active_focus_id == old(self).active_focus_id,
            final(self).rules == old(self).rules,
            final(self).retention == old(self).retention,
    {
        let t = trim_str(name);
        if t.len() == 0 {
            return Err(literal(EMPTY_FOCUS_NAME));
        }
        let id = id_from_counter(*counter);
        *counter = if *counter == u64::MAX { 0 } else { *counter + 1 };
        let sort_order = self.focuses.len() as u32;
        let focus = Focus { id, name: string_from_chars(t.as_slice()), icon, rules: Rules::default(), sort_order };
        let copy = focus.clone();
        let ghost old_fs = self.focuses@;
        self.focuses.push(focus);
        assert(self.focuses@.drop_last() =~= old_fs);
        Ok(copy)
    }

    /// Rename and/or re-icon the first focus with id `id`. A new name is
    /// trimmed and must not be empty; a blank icon clears it.
    #[verifier::rlimit(60)]
    pub fn update_focus(&mut self, id: &str, name: Option<String>, icon: Option<String>) -> (r: Result<(), String>)
        ensures
            first_focus(old(self).focuses@, id@) is None ==> (r matches Err(m) && m@ == FOCUS_HEAD@ + id@
                + NOT_FOUND_TAIL@),
            first_focus(old(self).focuses@, id@) is Some && (name matches Some(n) && trim(n@).len() == 0)
                ==> (r matches Err(m) && m@ == EMPTY_FOCUS_NAME@),
            r is Err ==> final(self).focuses@ == old(self).focuses@,
            r is Ok ==> (first_focus(old(self).focuses@, id@) matches Some(i) && {
                let f = old(self).focuses@[i];
                let g = final(self).focuses@[i];
                &&& final(self).focuses@.len() == old(self).focuses@.len()
                &&& forall|j: int| 0 <= j < final(self).focuses@.len() && j != i ==> final(self).focuses@[j]
                    == old(self).focuses@[j]
                &&& g.id == f.id
                &&& g.sort_order == f.sort_order
                &&& g.rules == f.rules
                &&& g.name@ == (match name { Some(n) => trim(n@), None => f.name@ })
                &&& g.icon == (match icon {
                    Some(ic) => if trim(ic@).len() == 0 { None } else { Some(ic) },
                    None => f.icon,
                })
            }),
            final(self).producers == old(self).producers,
            final(self).schedules == old(self).schedules,
            final(self).active_focus_id == old(self).active_focus_id,
            final(self).rules == old(self).rules,
            final(self).retention == old(self).retention,
    {
        let i = match self.find_focus(id) {
            None => {
                return Err(message(FOCUS_HEAD, id, NOT_FOUND_TAIL));
            },
            Some(i) => i,
        };
        let new_name: Option<String> = match &name {
            Some(n) => {
                let t = trim_str(n.as_str());
                if t.len() == 0 {
                    return Err(literal(EMPTY_FOCUS_NAME));
                }
                Some(string_from_chars(t.as_slice()))
            },
            None => None,
        };
        let mut fs: Vec<Focus> = Vec::new();
        std::mem::swap(&mut fs, &mut self.focuses);
        let ghost old_fs = fs@;
        let mut f = fs.remove(i);
        match new_name {
            Some(n) => {
                f.name = n;
            },
            None => {},
        }
        match icon {
            Some(ic) => {
                let t = trim_str(ic.as_str());
                f.icon = if t.len() == 0 { None } else { Some(ic) };
            },
            None => {},
        }
        fs.insert(i, f);
        assert forall|j: int| 0 <= j < fs@.len() && j != i implies fs@[j] == old_fs[j] by {}
        self.focuses = fs;
        Ok(())
    }

    /// Append a copy of the first focus with id `id`: a fresh id minted from
    /// `*counter` (which then advances), the name with " (copy)" appended, the
    /// same icon and rules, sorted last.
    pub fn clone_focus(&mut self, id: &str, counter: &mut u64) -> (r: Result<Focus, String>)
        ensures
            first_focus(old(self).focuses@, id@) is None ==> (r matches Err(m) && m@ == FOCUS_HEAD@ + id@
                + NOT_FOUND_TAIL@ && final(self).focuses@ == old(self).focuses@ && *final(counter) == *old(counter)),
            first_focus(old(self).focuses@, id@) matches Some(i) ==> (r matches Ok(c) && {
                let src = old(self).focuses@[i];
                &&& c.id@ == id_of(*old(counter))
                &&& c.name@ == src.name@ + COPY_SUFFIX@
                &&& c.icon == src.icon
                &&& c.rules.default_mode == src.rules.default_mode
                &&& c.rules.apps@ == src.rules.apps@
                &&& c.rules.filters@ == src.rules.filters@
                &&& c.sort_order == old(self).focuses@.len() as u32
                &&& final(self).focuses@.len() == old(self).focuses@.len() + 1
                &&& final(self).focuses@.drop_last() == old(self).focuses@
                &&& same_focus(&final(self).focuses@.last(), &c)
                &&& *final(counter) == (if *old(counter) == u64::MAX { 0 } else { *old(counter) + 1 })
            }),
            final(self).producers == old(self).producers,
            final(self).schedules == old(self).schedules,
            final(self).active_focus_id == old(self).active_focus_id,
            final(self).rules == old(self).rules,
            final(self).retention == old(self).retention,
    {
        let i = match self.find_focus(id) {
            None => {
                return Err(message(FOCUS_HEAD, id, NOT_FOUND_TAIL));
            },
            Some(i) => i,
        };
        let src = self.focuses[i].clone();
        let sort_order = self.focuses.len() as u32;
        let new_id = id_from_counter(*counter);
        *counter = if *counter == u64::MAX { 0 } else { *counter + 1 };
        let mut name = src.name.clone();
        push_str(&mut name, COPY_SUFFIX);
        let cloned = Focus { id: new_id, name, icon: src.icon, rules: src.rules, sort_order };
        let copy = cloned.clone();
        let ghost old_fs = self.focuses@;
        self.focuses.push(cloned);
        assert(self.focuses@.drop_last() =~= old_fs);
        Ok(copy)
    }

    /// Delete every focus with id `id` (an error if there is none); if it was
    /// active, the built-in "All" focus becomes active.
    #[verifier::rlimit(60)]
    pub fn remove_focus(&mut self, id: &str) -> (r: Result<(), String>)
        ensures
            !has_focus(old(self).focuses@, id@) ==> (r matches Err(m) && m@ == FOCUS_HEAD@ + id@ + NOT_FOUND_TAIL@
                && final(self).focuses@ == old(self).focuses@
                && final(self).active_focus_id == old(self).active_focus_id),
            has_focus(old(self).focuses@, id@) ==> r is Ok
                && final(self).focuses@ == old(self).focuses@.filter(|f: Focus| f.id@ != id@)
                && final(self).active_focus_id == (match old(self).active_focus_id {
                    Some(a) => if a@ == id@ { None } else { Some(a) },
                    None => None,
                }),
            final(self).producers == old(self).producers,
            final(self).schedules == old(self).schedules,
            final(self).rules == old(self).rules,
            final(self).retention == old(self).retention,
    {
        if self.find_focus(id).is_none() {
            return Err(message(FOCUS_HEAD, id, NOT_FOUND_TAIL));
        }
        let mut fs: Vec<Focus> = Vec::new();
        std::mem::swap(&mut fs, &mut self.focuses);
        let kept = without_focus(fs, id);
        self.focuses = kept;
        let clear = match &self.active_focus_id {
            Some(a) => str_eq(a.as_str(), id),
            None => false,
        };
        if clear {
            self.active_focus_id = None;
        }
        Ok(())
    }

    /// Replace the rules of the first focus with id `id`.
    pub fn set_focus_rules(&mut self, id: &str, rules: Rules) -> (r: Result<(), String>)
        ensures
            first_focus(old(self).focuses@, id@) is None ==> (r matches Err(m) && m@ == FOCUS_HEAD@ + id@
                + NOT_FOUND_TAIL@ && final(self).focuses@ == old(self).focuses@),
            first_focus(old(self).focuses@, id@) matches Some(i) ==> r is Ok && final(self).focuses@
                == old(self).focuses@.update(i, Focus {
                    id: old(self).focuses@[i].id,
                    name: old(self).focuses@[i].name,
                    icon: old(self).focuses@[i].icon,
                    rules,
                    sort_order: old(self).focuses@[i].sort_order,
                }),
            final(self).producers == old(self).producers,
            final(self).schedules == old(self).schedules,
            final(self).active_focus_id == old(self).active_focus_id,
            final(self).rules == old(self).rules,
            final(self).retention == old(self).retention,
    {
        let i = match self.find_focus(id) {
            None => {
                return Err(message(FOCUS_HEAD, id, NOT_FOUND_TAIL));
            },
            Some(i) => i,
        };
        let mut fs: Vec<Focus> = Vec::new();
        std::mem::swap(&mut fs, &mut self.focuses);
        let ghost old_fs = fs@;
        let mut f = fs.remove(i);
        f.rules = rules;
        fs.insert(i, f);
        assert(fs@ =~= old_fs.update(i as int, Focus {
            id: old_fs[i as int].id,
            name: old_fs[i as int].name,
            icon: old_fs[i as int].icon,
            rules,
            sort_order: old_fs[i as int].sort_order,
        }));
        self.focuses = fs;
        Ok(())
    }

    /// Make focus `id` active (`None`: the built-in "All" focus). The focus
    /// must exist.
    pub fn set_active_focus(&mut self, id: Option<String>) -> (r: Result<(), String>)
        ensures
            (id matches Some(f) && !has_focus(old(self).focuses@, f@)) ==> (r matches Err(m)
                && m@ == FOCUS_HEAD@ + id->0@ + NOT_FOUND_TAIL@
                && final(self).active_focus_id == old(self).active_focus_id),
            !(id matches Some(f) && !has_focus(old(self).focuses@, f@)) ==> r is Ok && final(self).active_focus_id == id,
            final(self).focuses == old(self).focuses,
            final(self).producers == old(self).producers,
            final(self).schedules == old(self).schedules,
            final(self).rules == old(self).rules,
            final(self).retention == old(self).retention,
    {
        match &id {
            Some(f) => {
                if self.find_focus(f.as_str()).is_none() {
                    return Err(message(FOCUS_HEAD, f.as_str(), NOT_FOUND_TAIL));
                }
            },
            None => {},
        }
        self.active_focus_id = id;
        Ok(())
    }

    /// Give each listed focus its position in `ids` as sort order (the
    /// first focus with that id; a later position wins), then stably re-sort
    /// the list by sort order.
    pub fn reorder_focuses(&mut self, ids: &[String])
        ensures
            ({
                let fs = old(self).focuses@;
                let orders = reassigned(
                    fs.map_values(|f: Focus| f.sort_order),
                    fs.map_values(|f: Focus| f.id@),
                    ids@.map_values(|s: String| s@),
                );
                let relabeled = Seq::new(fs.len(), |i: int| Focus {
                    id: fs[i].id,
                    name: fs[i].name,
                    icon: fs[i].icon,
                    rules: fs[i].rules,
                    sort_order: orders[i],
                });
                stable_sorted(relabeled, final(self).focuses@)
            }),
            final(self).producers == old(self).producers,
            final(self).schedules == old(self).schedules,
            final(self).active_focus_id == old(self).active_focus_id,
            final(self).rules == old(self).rules,
            final(self).retention == old(self).retention,
    {
        let mut fs: Vec<Focus> = Vec::new();
        std::mem::swap(&mut fs, &mut self.focuses);
        let ghost f0 = fs@;
        let ghost fids = f0.map_values(|f: Focus| f.id@);
        let ghost names = ids@.map_values(|s: String| s@);
        let mut pos: usize = 0;
        assert(names.take(0) =~= Seq::<Seq<char>>::empty());
        while pos < ids.len()
            invariant
                pos <= ids@.len(),
                names == ids@.map_values(|s: String| s@),
                fids == f0.map_values(|f: Focus| f.id@),
                fs@.len() == f0.len(),
                forall|i: int| 0 <= i < f0.len() ==> {
                    &&& (#[trigger] fs@[i]).id == f0[i].id
                    &&& fs@[i].name == f0[i].name
                    &&& fs@[i].icon == f0[i].icon
                    &&& fs@[i].rules == f0[i].rules
                    &&& fs@[i].sort_order == reassigned(f0.map_values(|f: Focus| f.sort_order), fids, names.take(pos as int))[i]
                },
                reassigned(f0.map_values(|f: Focus| f.sort_order), fids, names.take(pos as int)).len() == f0.len(),
            decreases ids.len() - pos,
        {
            let ghost prev = reassigned(f0.map_values(|f: Focus| f.sort_order), fids, names.take(pos as int));
            assert(names.take(pos + 1).drop_last() =~= names.take(pos as int));
            assert(names.take(pos + 1).last() == ids@[pos as int]@);
            let mut i: usize = 0;
            let mut found: Option<usize> = None;
            while i < fs.len() && found.is_none()
                invariant
                    pos < ids@.len(),
                    i <= fs@.len(),
                    fs@.len() == f0.len(),
                    fids == f0.map_values(|f: Focus| f.id@),
                    forall|j: int| 0 <= j < f0.len() ==> (#[trigger] fs@[j]).id == f0[j].id,
                    found is None ==> forall|j: int| 0 <= j < i ==> fids[j] != ids@[pos as int]@,
                    found matches Some(f) ==> f < fids.len() && fids[f as int] == ids@[pos as int]@
                        && forall|j: int| 0 <= j < f ==> fids[j] != ids@[pos as int]@,
                decreases fs@.len() - i + (if found is None { 1int } else { 0int }),
            {
                if str_eq(fs[i].id.as_str(), ids[pos].as_str()) {
                    found = Some(i);
                } else {
                    i = i + 1;
                }
            }
            match found {
                Some(k) => {
                    let ghost old_fs = fs@;
                    let mut f = fs.remove(k);
                    f.sort_order = pos as u32;
                    fs.insert(k, f);
                    proof {
                        let id = ids@[pos as int]@;
                        let c = choose|c: int| 0 <= c < fids.len() && fids[c] == id && forall|j: int| 0 <= j < c ==> fids[j] != id;
                        if c < k {
                        } else if c > k {
                            assert(fids[k as int] == id);
                        }
                        assert(c == k);
                        assert forall|j: int| 0 <= j < f0.len() && j != k implies fs@[j] == old_fs[j] by {}
                    }
                },
                None => {
                    proof {
                        let id = ids@[pos as int]@;
                        assert(!(exists|c: int| 0 <= c < fids.len() && fids[c] == id));
                    }
                },
            }
            pos = pos + 1;
        }
        proof {
            assert(names.take(ids@.len() as int) =~= names);
            let fs2 = f0;
            let orders = reassigned(f0.map_values(|f: Focus| f.sort_order), fids, names);
            let relabeled = Seq::new(f0.len(), |i: int| Focus {
                id: f0[i].id,
                name: f0[i].name,
                icon: f0[i].icon,
                rules: f0[i].rules,
                sort_order: orders[i],
            });
            assert(fs@ =~= relabeled);
        }
        self.focuses = sort_by_order(fs);
    }

    // -- schedules ---------------------------------------------------------------

    /// Create a schedule for focus `focus_id` on the named days, enabled, its
    /// id minted from `*counter` (which then advances). The focus id must not
    /// be empty, every day must parse, there must be at least one, and the
    /// focus must exist, checked in that order.
    pub fn add_schedule(
        &mut self,
        focus_id: &str,
        days: &[String],
        start_hhmm: u16,
        end_hhmm: u16,
        counter: &mut u64,
    ) -> (r: Result<FocusSchedule, String>)
        ensures
            focus_id@.len() == 0 ==> (r matches Err(m) && m@ == EMPTY_FOCUS_ID@),
            focus_id@.len() > 0 ==> match days_parse(days@.map_values(|d: String| d@)) {
                Err(e) => r matches Err(m) && m@ == e,
                Ok(ds) => if ds.len() == 0 {
                    r matches Err(m) && m@ == EMPTY_DAYS@
                } else if !has_focus(old(self).focuses@, focus_id@) {
                    r matches Err(m) && m@ == FOCUS_HEAD@ + focus_id@ + NOT_FOUND_TAIL@
                } else {
                    r matches Ok(s) && {
                        &&& s.id@ == id_of(*old(counter))
                        &&& s.focus_id@ == focus_id@
                        &&& s.days@ == ds
                        &&& s.time_range == (TimeRange { start_hhmm, end_hhmm })
                        &&& s.enabled
                        &&& final(self).schedules@.len() == old(self).schedules@.len() + 1
                        &&& final(self).schedules@.drop_last() == old(self).schedules@
                        &&& final(self).schedules@.last().id == s.id
                        &&& final(self).schedules@.last().focus_id == s.focus_id
                        &&& final(self).schedules@.last().days@ == s.days@
                        &&& final(self).schedules@.last().time_range == s.time_range
                        &&& final(self).schedules@.last().enabled
                        &&& *final(counter) == (if *old(counter) == u64::MAX { 0 } else { *old(counter) + 1 })
                    }
                },
            },
            r is Err ==> final(self).schedules@ == old(self).schedules@ && *final(counter) == *old(counter),
            final(self).focuses == old(self).focuses,
            final(self).producers == old(self).producers,
            final(self).active_focus_id == old(self).active_focus_id,
            final(self).rules == old(self).rules,
            final(self).retention == old(self).retention,
    {
        if focus_id.unicode_len() == 0 {
            return Err(literal(EMPTY_FOCUS_ID));
        }
        let parsed = parse_days(days)?;
        if parsed.len() == 0 {
            return Err(literal(EMPTY_DAYS));
        }
        if self.find_focus(focus_id).is_none() {
            return Err(message(FOCUS_HEAD, focus_id, NOT_FOUND_TAIL));
        }
        let id = id_from_counter(*counter);
        *counter = if *counter == u64::MAX { 0 } else { *counter + 1 };
        let schedule = FocusSchedule {
            id,
            focus_id: crate::text::copy_str(focus_id),
            days: parsed,
            time_range: TimeRange { start_hhmm, end_hhmm },
            enabled: true,
        };
        let copy = schedule.clone();
        let ghost old_s = self.schedules@;
        self.schedules.push(schedule);
        assert(self.schedules@.drop_last() =~= old_s);
        Ok(copy)
    }

    fn find_schedule(&self, id: &str) -> (r: Option<usize>)
        ensures
            match r {
                Some(i) => i < self.schedules@.len() && self.schedules@[i as int].id@ == id@
                    && forall|j: int| 0 <= j < i ==> self.schedules@[j].id@ != id@,
                None => forall|j: int| 0 <= j < self.schedules@.len() ==> self.schedules@[j].id@ != id@,
            },
    {
        let mut i: usize = 0;
        while i < self.schedules.len()
            invariant
                i <= self.schedules@.len(),
                forall|j: int| 0 <= j < i ==> self.schedules@[j].id@ != id@,
            decreases self.schedules.len() - i,
        {
            if str_eq(self.schedules[i].id.as_str(), id) {
                return Some(i);
            }
            i = i + 1;
        }
        None
    }

    /// Update every field of the first schedule with id `id`. Every day must
    /// parse and there must be at least one; a non-empty focus id must name an
    /// existing focus; the schedule must exist; checked in that order.
    #[verifier::rlimit(80)]
    pub fn update_schedule(
        &mut self,
        id: &str,
        focus_id: String,
        days: &[String],
        start_hhmm: u16,
        end_hhmm: u16,
        enabled: bool,
    ) -> (r: Result<(), String>)
        ensures
            match days_parse(days@.map_values(|d: String| d@)) {
                Err(e) => r matches Err(m) && m@ == e,
                Ok(ds) => if ds.len() == 0 {
                    r matches Err(m) && m@ == EMPTY_DAYS@
                } else if focus_id@.len() > 0 && !has_focus(old(self).focuses@, focus_id@) {
                    r matches Err(m) && m@ == FOCUS_HEAD@ + focus_id@ + NOT_FOUND_TAIL@
                } else if forall|j: int| 0 <= j < old(self).schedules@.len() ==> old(self).schedules@[j].id@ != id@ {
                    r matches Err(m) && m@ == SCHEDULE_HEAD@ + id@ + NOT_FOUND_TAIL@
                } else {
                    r is Ok && exists|i: int|
                        0 <= i < old(self).schedules@.len() && old(self).schedules@[i].id@ == id@
                            && (forall|j: int| 0 <= j < i ==> old(self).schedules@[j].id@ != id@)
                            && final(self).schedules@.len() == old(self).schedules@.len()
                            && (forall|j: int| 0 <= j < old(self).schedules@.len() && j != i ==> final(self).schedules@[j]
                                == old(self).schedules@[j])
                            && final(self).schedules@[i].id == old(self).schedules@[i].id
                            && final(self).schedules@[i].focus_id == focus_id
                            && final(self).schedules@[i].days@ == ds
                            && final(self).schedules@[i].time_range == (TimeRange { start_hhmm, end_hhmm })
                            && final(self).schedules@[i].enabled == enabled
                },
            },
            r is Err ==> final(self).schedules@ == old(self).schedules@,
            final(self).focuses == old(self).focuses,
            final(self).producers == old(self).producers,
            final(self).active_focus_id == old(self).active_focus_id,
            final(self).rules == old(self).rules,
            final(self).retention == old(self).retention,
    {
        let parsed = parse_days(days)?;
        if parsed.len() == 0 {
            return Err(literal(EMPTY_DAYS));
        }
        if focus_id.unicode_len() > 0 && self.find_focus(focus_id.as_str()).is_none() {
            return Err(message(FOCUS_HEAD, focus_id.as_str(), NOT_FOUND_TAIL));
        }
        let i = match self.find_schedule(id) {
            None => {
                return Err(message(SCHEDULE_HEAD, id, NOT_FOUND_TAIL));
            },
            Some(i) => i,
        };
        let mut ss: Vec<FocusSchedule> = Vec::new();
        std::mem::swap(&mut ss, &mut self.schedules);
        let ghost old_ss = ss@;
        let mut s = ss.remove(i);
        s.focus_id = focus_id;
        s.days = parsed;
        s.time_range = TimeRange { start_hhmm, end_hhmm };
        s.enabled = enabled;
        ss.insert(i, s);
        assert forall|j: int| 0 <= j < ss@.len() && j != i implies ss@[j] == old_ss[j] by {}
        self.schedules = ss;
        Ok(())
    }

    /// Delete every schedule with id `id` (an error if there is none).
    pub fn remove_schedule(&mut self, id: &str) -> (r: Result<(), String>)
        ensures
            (forall|j: int| 0 <= j < old(self).schedules@.len() ==> old(self).schedules@[j].id@ != id@) ==> (r matches Err(m)
                && m@ == SCHEDULE_HEAD@ + id@ + NOT_FOUND_TAIL@ && final(self).schedules@ == old(self).schedules@),
            (exists|j: int| 0 <= j < old(self).schedules@.len() && old(self).schedules@[j].id@ == id@) ==> r is Ok
                && final(self).schedules@ == old(self).schedules@.filter(|s: FocusSchedule| s.id@ != id@),
            final(self).focuses == old(self).focuses,
            final(self).producers == old(self).producers,
            final(self).active_focus_id == old(self).active_focus_id,
            final(self).rules == old(self).rules,
            final(self).retention == old(self).retention,
    {
        if self.find_schedule(id).is_none() {
            return Err(message(SCHEDULE_HEAD, id, NOT_FOUND_TAIL));
        }
        let mut ss: Vec<FocusSchedule> = Vec::new();
        std::mem::swap(&mut ss, &mut self.schedules);
        let ghost all = ss@;
        let ghost pred = |s: FocusSchedule| s.id@ != id@;
        let mut kept: Vec<FocusSchedule> = Vec::new();
        assert(all.take(0).filter(pred) =~= Seq::<FocusSchedule>::empty()) by {
            reveal(Seq::filter);
        }
        while ss.len() > 0
            invariant
                pred == (|s: FocusSchedule| s.id@ != id@),
                ss@.len() <= all.len(),
                ss@ == all.subrange(all.len() - ss@.len(), all.len() as int),
                kept@ == all.take(all.len() - ss@.len()).filter(pred),
            decreases ss.len(),
        {
            let ghost k: int = all.len() - ss@.len();
            let s = ss.remove(0);
            proof {
                reveal(Seq::filter);
                assert(s == all[k]);
                assert(all.take(k + 1).drop_last() =~= all.take(k));
                assert(all.take(k + 1).last() == all[k]);
                assert(all.take(k + 1).filter(pred) == if pred(all[k]) {
                    all.take(k).filter(pred).push(all[k])
                } else {
                    all.take(k).filter(pred)
                });
                assert(ss@ =~= all.subrange(all.len() - ss@.len(), all.len() as int));
            }
            if !str_eq(s.id.as_str(), id) {
                kept.push(s);
            }
        }
        assert(all.take(all.len() as int) =~= all);
        self.schedules = kept;
        Ok(())
    }

    /// The focus the schedules select for a weekday name and HHMM time:
    /// `None` for an unknown weekday or when no enabled schedule matches.
    pub fn scheduled_focus(&self, weekday: &str, hhmm: u16) -> (r: Option<String>)
        ensures
            weekday_parse(weekday@) is Err ==> r is None,
            weekday_parse(weekday@) matches Ok(d) ==> match r {
                Some(f) => exists|i: int|
                    0 <= i < self.schedules@.len() && schedule_active(&self.schedules@[i], d, hhmm)
                        && f == self.schedules@[i].focus_id
                        && forall|j: int| 0 <= j < i ==> !schedule_active(&self.schedules@[j], d, hhmm),
                None => forall|i: int| 0 <= i < self.schedules@.len() ==> !schedule_active(&self.schedules@[i], d, hhmm),
            },
    {
        let d = match parse_weekday(weekday) {
            Ok(d) => d,
            Err(_) => {
                return None;
            },
        };
        active_scheduled_focus(self.schedules.as_slice(), self.focuses.as_slice(), &d, hhmm)
    }
}

} // verus!
