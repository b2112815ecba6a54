//! The mesh transport's decisions, independent of sockets.
//!
//! The producer serves `GET /events?since=<cursor>` (or honours a
//! `Last-Event-ID` header): it first replays what the outbox holds after the
//! cursor, then streams new notifications, forwarding only those past the last
//! one sent so nothing is duplicated at the replay/live boundary. Each SSE
//! frame's `id:` is the notification's cursor and its `data:` the notification
//! JSON. The consumer side reassembles frames from the byte stream with
//! [`SseDecoder`].

use vstd::prelude::*;
use crate::notification::Notification;
use crate::outbox::{Cursor, Outbox, Sequenced};
use crate::text::{
    chars_of, dec_digits, push_char, push_chars, push_dec, push_str, slice_chars, string_from_chars,
    trim, trim_chars,
};

verus! {

/// Something went wrong moving notifications between a producer and a consumer.
#[derive(Debug, PartialEq, Eq)]
pub enum TransportError {
    /// Could not establish or hold the connection.
    Connect(String),
    /// The server answered, but not with success.
    Http(String),
    /// A frame arrived but could not be decoded into a notification.
    Decode(String),
}

pub const CONNECT_PREFIX: &'static str = "connection failed: ";

pub const HTTP_PREFIX: &'static str = "HTTP error: ";

pub const DECODE_PREFIX: &'static str = "decode error: ";

impl TransportError {
    /// The human-readable message: a prefix naming the kind, then the detail.
    pub open spec fn message_spec(&self) -> Seq<char> {
        match self {
            TransportError::Connect(d) => CONNECT_PREFIX@ + d@,
            TransportError::Http(d) => HTTP_PREFIX@ + d@,
            TransportError::Decode(d) => DECODE_PREFIX@ + d@,
        }
    }

    /// The error as text, e.g. `connection failed: refused`.
    pub fn message(&self) -> (m: String)
        ensures
            m@ == self.message_spec(),
    {
        let mut m = String::new();
        match self {
            TransportError::Connect(d) => {
                push_str(&mut m, CONNECT_PREFIX);
                push_str(&mut m, d.as_str());
            },
            TransportError::Http(d) => {
                push_str(&mut m, HTTP_PREFIX);
                push_str(&mut m, d.as_str());
            },
            TransportError::Decode(d) => {
                push_str(&mut m, DECODE_PREFIX);
                push_str(&mut m, d.as_str());
            },
        }
        m
    }
}

/// The producer side of the mesh: accepts notifications and assigns each a
/// cursor.
pub trait MeshProducer {
    /// Publish a notification to live subscribers and the catch-up buffer,
    /// returning the cursor it was assigned.
    fn publish(&self, notification: Notification) -> Cursor;
}

// ---------------------------------------------------------------------------
// Parsing cursors
// ---------------------------------------------------------------------------

/// The value of a sequence of decimal digits.
pub open spec fn digits_value(s: Seq<char>) -> nat
    decreases s.len(),
{
    if s.len() == 0 {
        0
    } else {
        digits_value(s.drop_last()) * 10 + ((s.last() as u32) - ('0' as u32)) as nat
    }
}

/// Every character is an ASCII digit.
pub open spec fn all_digits(s: Seq<char>) -> bool {
    forall|i: int| 0 <= i < s.len() ==> '0' <= #[trigger] s[i] <= '9'
}

/// What `str::parse::<u64>` yields: an optional `+`, then one or more ASCII
/// digits whose value fits in a `u64`.
pub open spec fn parse_cursor(s: Seq<char>) -> Option<Cursor> {
    let d = if s.len() > 0 && s[0] == '+' { s.drop_first() } else { s };
    if d.len() > 0 && all_digits(d) && digits_value(d) <= u64::MAX {
        Some(digits_value(d) as u64)
    } else {
        None
    }
}

proof fn lemma_digits_value_mono(s: Seq<char>, k: int)
    requires
        0 <= k <= s.len(),
        all_digits(s),
    ensures
        digits_value(s.take(k)) <= digits_value(s),
    decreases s.len() - k,
{
    if k < s.len() {
        lemma_digits_value_mono(s, k + 1);
        assert(s.take(k + 1).drop_last() =~= s.take(k));
    } else {
        assert(s.take(k) =~= s);
    }
}

/// Parse a cursor the way `str::parse::<u64>` does.
pub fn parse_cursor_chars(s: &[char]) -> (r: Option<Cursor>)
    ensures
        r == parse_cursor(s@),
{
    let start: usize = if s.len() > 0 && s[0] == '+' { 1 } else { 0 };
    let ghost d = if s@.len() > 0 && s@[0] == '+' { s@.drop_first() } else { s@ };
    assert(d =~= s@.subrange(start as int, s@.len() as int));
    if start >= s.len() {
        assert(d.len() == 0);
        return None;
    }
    let mut v: u64 = 0;
    let mut i: usize = start;
    assert(d.take(0) =~= Seq::<char>::empty());
    while i < s.len()
        invariant
            start <= i <= s@.len(),
            start <= 1,
            d == s@.subrange(start as int, s@.len() as int),
            d == (if s@.len() > 0 && s@[0] == '+' { s@.drop_first() } else { s@ }),
            all_digits(d.take(i - start)),
            v as nat == digits_value(d.take(i - start)),
        decreases s.len() - i,
    {
        let c = s[i];
        let ghost k = i - start;
        assert(d[k] == c);
        assert(d.take(k + 1).drop_last() =~= d.take(k));
        assert(d.take(k + 1).last() == c);
        if c < '0' || c > '9' {
            assert(!all_digits(d));
            return None;
        }
        let digit = (c as u32 - '0' as u32) as u64;
        assert(all_digits(d.take(k + 1))) by {
            assert forall|q: int| 0 <= q < k + 1 implies '0' <= #[trigger] d.take(k + 1)[q] <= '9' by {
                if q < k {
                    assert(d.take(k + 1)[q] == d.take(k)[q]);
                }
            }
        }
        assert(digits_value(d.take(k + 1)) == v * 10 + digit);
        if v > (u64::MAX - digit) / 10 {
            proof {
                assert(digits_value(d.take(k + 1)) > u64::MAX) by (nonlinear_arith)
                    requires
                        digits_value(d.take(k + 1)) == v * 10 + digit,
                        v > (u64::MAX - digit) / 10,
                        digit <= 9;
                if all_digits(d) {
                    lemma_digits_value_mono(d, k + 1);
                }
            }
            return None;
        }
        assert(v * 10 + digit <= u64::MAX) by (nonlinear_arith)
            requires v <= (u64::MAX - digit) / 10, digit <= 9;
        v = v * 10 + digit;
        i = i + 1;
    }
    assert(d.take(s@.len() - start) =~= d);
    Some(v)
}

/// The decimal rendering of a cursor.
pub fn cursor_string(c: Cursor) -> (s: String)
    ensures
        s@ == dec_digits(c as nat),
{
    let mut s = String::new();
    push_dec(&mut s, c);
    assert(s@ =~= dec_digits(c as nat));
    s
}

// ---------------------------------------------------------------------------
// Producer side: replay, then live
// ---------------------------------------------------------------------------

/// The cursor a subscription resumes after: a parseable `Last-Event-ID`
/// header wins over `?since=`, and neither means from the beginning.
pub open spec fn resume_cursor(last_event_id: Option<Seq<char>>, since: Option<Cursor>) -> Cursor {
    match last_event_id {
        Some(h) if parse_cursor(h) is Some => parse_cursor(h)->0,
        _ => match since {
            Some(c) => c,
            None => 0,
        },
    }
}

/// What a new subscription is sent first, and the cursor of the last event
/// sent (live events at or below it are not forwarded again).
#[derive(Debug)]
pub struct ReplayPlan {
    /// Events to replay, oldest first.
    pub replay: Vec<Sequenced>,
    /// Highest cursor already accounted for.
    pub last_sent: Cursor,
}

/// Plan a new subscription against the outbox. `live` skips the backlog;
/// otherwise everything after the resume cursor is replayed.
pub fn plan_replay(outbox: &Outbox, live: bool, last_event_id: Option<&str>, since: Option<Cursor>) -> (p: ReplayPlan)
    ensures
        live ==> p.replay@.len() == 0 && p.last_sent == outbox.next() - 1,
        !live ==> {
            let c = resume_cursor(
                match last_event_id { Some(h) => Some(h@), None => None::<Seq<char>> },
                since,
            );
            &&& p.replay@ == outbox.events().filter(|e: Sequenced| e.seq > c)
            &&& p.last_sent == (if p.replay@.len() > 0 { p.replay@.last().seq } else { c })
        },
        last_event_id matches Some(h) ==> (parse_cursor(h@) matches Some(c) ==> (!live ==> p.replay@
            == outbox.events().filter(|e: Sequenced| e.seq > c))),
{
    if live {
        return ReplayPlan { replay: Vec::new(), last_sent: outbox.latest() };
    }
    let header: Option<Cursor> = match last_event_id {
        Some(h) => {
            let v = chars_of(h);
            parse_cursor_chars(v.as_slice())
        },
        None => None,
    };
    let c = match header {
        Some(c) => c,
        None => match since {
            Some(c) => c,
            None => 0,
        },
    };
    let catch_up = outbox.since(c);
    let n = catch_up.events.len();
    let last = if n > 0 { catch_up.events[n - 1].seq } else { c };
    ReplayPlan { replay: catch_up.events, last_sent: last }
}

/// Whether a live event is forwarded: only if it is past the last one sent,
/// which then advances to it.
pub fn forward_live(last_sent: &mut Cursor, seq: Cursor) -> (forward: bool)
    ensures
        forward == (seq > *old(last_sent)),
        *final(last_sent) == (if forward { seq } else { *old(last_sent) }),
{
    if seq > *last_sent {
        *last_sent = seq;
        true
    } else {
        false
    }
}

// ---------------------------------------------------------------------------
// Consumer side: URLs and frame decoding
// ---------------------------------------------------------------------------

/// `s` without its trailing `c` characters (`str::trim_end_matches(c)`).
pub open spec fn trim_end_char(s: Seq<char>, c: char) -> Seq<char>
    decreases s.len(),
{
    if s.len() > 0 && s.last() == c {
        trim_end_char(s.drop_last(), c)
    } else {
        s
    }
}

/// `s` without its trailing `c` characters.
pub fn trim_end_char_exec(s: &[char], c: char) -> (r: Vec<char>)
    ensures
        r@ == trim_end_char(s@, c),
{
    let mut k: usize = s.len();
    assert(s@.subrange(0, k as int) =~= s@);
    while k > 0 && s[k - 1] == c
        invariant
            k <= s@.len(),
            trim_end_char(s@, c) == trim_end_char(s@.subrange(0, k as int), c),
        decreases k,
    {
        assert(s@.subrange(0, k as int).drop_last() =~= s@.subrange(0, k - 1));
        k = k - 1;
    }
    slice_chars(s, 0, k)
}

/// `base` without trailing slashes, then `path`.
pub open spec fn join_url(base: Seq<char>, path: Seq<char>) -> Seq<char> {
    trim_end_char(base, '/') + path
}

/// `base` without trailing slashes, then `path`.
pub fn join_url_exec(base: &str, path: &str) -> (u: String)
    ensures
        u@ == join_url(base@, path@),
{
    let b = chars_of(base);
    let t = trim_end_char_exec(b.as_slice(), '/');
    let mut u = string_from_chars(t.as_slice());
    push_str(&mut u, path);
    u
}

/// The query string a subscription is opened with.
pub open spec fn subscription_query(live: bool, since: Cursor) -> Seq<char> {
    if live {
        seq!['l', 'i', 'v', 'e', '=', 't', 'r', 'u', 'e']
    } else {
        seq!['s', 'i', 'n', 'c', 'e', '='] + dec_digits(since as nat)
    }
}

/// The path of the event stream, with its query.
pub open spec fn events_path(live: bool, since: Cursor) -> Seq<char> {
    seq!['/', 'e', 'v', 'e', 'n', 't', 's', '?'] + subscription_query(live, since)
}

/// An SSE consumer that dials a producer's `/events` endpoint.
#[derive(Debug, PartialEq, Eq)]
pub struct SseClient {
    base_url: String,
}

impl SseClient {
    /// `base_url` is the producer root, e.g. `http://mac.local:8787`.
    pub fn new(base_url: &str) -> (c: Self)
        ensures
            c.base()@ == base_url@,
    {
        SseClient { base_url: crate::text::copy_str(base_url) }
    }

    /// The producer root this client dials.
    pub closed spec fn base(&self) -> String {
        self.base_url
    }

    /// The producer root this client dials.
    pub fn base_url(&self) -> (s: &str)
        ensures
            s@ == self.base()@,
    {
        self.base_url.as_str()
    }

    /// The URL of the event stream: everything after `since`, or only new
    /// notifications when `live`.
    pub fn events_url(&self, live: bool, since: Cursor) -> (u: String)
        ensures
            u@ == join_url(self.base()@, events_path(live, since)),
    {
        let mut path = String::new();
        push_char(&mut path, '/');
        push_char(&mut path, 'e');
        push_char(&mut path, 'v');
        push_char(&mut path, 'e');
        push_char(&mut path, 'n');
        push_char(&mut path, 't');
        push_char(&mut path, 's');
        push_char(&mut path, '?');
        if live {
            push_char(&mut path, 'l');
            push_char(&mut path, 'i');
            push_char(&mut path, 'v');
            push_char(&mut path, 'e');
            push_char(&mut path, '=');
            push_char(&mut path, 't');
            push_char(&mut path, 'r');
            push_char(&mut path, 'u');
            push_char(&mut path, 'e');
        } else {
            push_char(&mut path, 's');
            push_char(&mut path, 'i');
            push_char(&mut path, 'n');
            push_char(&mut path, 'c');
            push_char(&mut path, 'e');
            push_char(&mut path, '=');
            push_dec(&mut path, since);
        }
        assert(path@ =~= events_path(live, since));
        join_url_exec(self.base_url.as_str(), path.as_str())
    }
}

/// One dispatched SSE event: its `id:` (if it parsed) and its `data:`.
#[derive(Debug, PartialEq, Eq)]
pub struct SseFrame {
    pub id: Option<Cursor>,
    pub data: String,
}

impl SseFrame {
    /// The cursor a frame carries; a missing or unparseable id counts as 0.
    pub fn cursor(&self) -> (c: Cursor)
        ensures
            c == (match self.id { Some(i) => i, None => 0 }),
    {
        match self.id {
            Some(i) => i,
            None => 0,
        }
    }
}

/// The decoder's pending state between lines.
pub struct DecoderState {
    pub id: Option<Cursor>,
    pub data: Seq<char>,
}

/// A line without its trailing carriage returns.
pub open spec fn strip_cr(line: Seq<char>) -> Seq<char> {
    trim_end_char(line, '\r')
}

/// `line` starts with `p`; the rest after it.
pub open spec fn after_prefix(line: Seq<char>, p: Seq<char>) -> Option<Seq<char>> {
    if p.len() <= line.len() && line.subrange(0, p.len() as int) == p {
        Some(line.subrange(p.len() as int, line.len() as int))
    } else {
        None
    }
}

/// How one line changes the pending event, and the frame it dispatches: a
/// blank line dispatches the pending data (if any) and resets; `id:` sets the
/// id (parsed after trimming); `data:` appends a data line (one leading space
/// dropped, lines joined with `\n`); anything else is ignored.
pub open spec fn line_step(id: Option<Cursor>, data: Seq<char>, raw: Seq<char>) -> (Option<Cursor>, Seq<char>, Option<(Option<Cursor>, Seq<char>)>) {
    let line = strip_cr(raw);
    if line.len() == 0 {
        (None, Seq::empty(), if data.len() > 0 { Some((id, data)) } else { None })
    } else if after_prefix(line, seq!['i', 'd', ':']) is Some {
        (parse_cursor(trim(after_prefix(line, seq!['i', 'd', ':'])->0)), data, None)
    } else if after_prefix(line, seq!['d', 'a', 't', 'a', ':']) is Some {
        let v = after_prefix(line, seq!['d', 'a', 't', 'a', ':'])->0;
        let v2 = if v.len() > 0 && v[0] == ' ' { v.drop_first() } else { v };
        (id, (if data.len() > 0 { data.push('\n') } else { data }) + v2, None)
    } else {
        (id, data, None)
    }
}

/// Feed the characters of `text` through the decoder from state (`id`,
/// `data`, unfinished `line`): the resulting state and the frames dispatched,
/// in order. Each newline completes a line, which [`line_step`] applies.
pub open spec fn decode(id: Option<Cursor>, data: Seq<char>, line: Seq<char>, text: Seq<char>) -> (Option<Cursor>, Seq<char>, Seq<char>, Seq<(Option<Cursor>, Seq<char>)>)
    decreases text.len(),
{
    if text.len() == 0 {
        (id, data, line, Seq::empty())
    } else {
        let prev = decode(id, data, line, text.drop_last());
        if text.last() == '\n' {
            let st = line_step(prev.0, prev.1, prev.2);
            (st.0, st.1, Seq::empty(), match st.2 {
                Some(f) => prev.3.push(f),
                None => prev.3,
            })
        } else {
            (prev.0, prev.1, prev.2.push(text.last()), prev.3)
        }
    }
}

/// Reassembles SSE frames from a stream of text chunks.
#[derive(Debug)]
pub struct SseDecoder {
    buf: Vec<char>,
    id: Option<Cursor>,
    data: Vec<char>,
}

impl SseDecoder {
    /// The unfinished line.
    pub closed spec fn pending_text(&self) -> Seq<char> {
        self.buf@
    }

    /// The id of the event being assembled.
    pub closed spec fn pending_id(&self) -> Option<Cursor> {
        self.id
    }

    /// The data of the event being assembled.
    pub closed spec fn pending_data(&self) -> Seq<char> {
        self.data@
    }

    /// A decoder with nothing pending.
    pub fn new() -> (d: Self)
        ensures
            d.pending_text() == Seq::<char>::empty(),
            d.pending_id() is None,
            d.pending_data() == Seq::<char>::empty(),
    {
        SseDecoder { buf: Vec::new(), id: None, data: Vec::new() }
    }

    fn starts_with_lit(line: &[char], p: &[char]) -> (r: Option<Vec<char>>)
        ensures
            match r {
                Some(v) => after_prefix(line@, p@) == Some(v@),
                None => after_prefix(line@, p@) is None,
            },
    {
        if p.len() <= line.len() && crate::text::starts_with_chars(line, p) {
            Some(slice_chars(line, p.len(), line.len()))
        } else {
            None
        }
    }

    /// Apply one complete line; returns the frame it dispatches, if any.
    fn step(&mut self, raw: &[char]) -> (f: Option<SseFrame>)
        ensures
            ({
                let s = line_step(old(self).id, old(self).data@, raw@);
                &&& final(self).id == s.0
                &&& final(self).data@ == s.1
                &&& final(self).buf@ == old(self).buf@
                &&& match f {
                    Some(fr) => s.2 == Some((fr.id, fr.data@)),
                    None => s.2 is None,
                }
            }),
    {
        let line = trim_end_char_exec(raw, '\r');
        if line.len() == 0 {
            let f = if self.data.len() > 0 {
                Some(SseFrame { id: self.id, data: string_from_chars(self.data.as_slice()) })
            } else {
                None
            };
            self.id = None;
            self.data = Vec::new();
            return f;
        }
        let id_lit: [char; 3] = ['i', 'd', ':'];
        let data_lit: [char; 5] = ['d', 'a', 't', 'a', ':'];
        assert(id_lit@ == seq!['i', 'd', ':']);
        assert(data_lit@ == seq!['d', 'a', 't', 'a', ':']);
        match Self::starts_with_lit(line.as_slice(), id_lit.as_slice()) {
            Some(v) => {
                let t = trim_chars(v.as_slice());
                self.id = parse_cursor_chars(t.as_slice());
                return None;
            },
            None => {},
        }
        match Self::starts_with_lit(line.as_slice(), data_lit.as_slice()) {
            Some(v) => {
                if self.data.len() > 0 {
                    self.data.push('\n');
                }
                let start: usize = if v.len() > 0 && v[0] == ' ' { 1 } else { 0 };
                let rest = slice_chars(v.as_slice(), start, v.len());
                assert(rest@ == (if v@.len() > 0 && v@[0] == ' ' { v@.drop_first() } else { v@ }));
                let mut j: usize = 0;
                let ghost before = self.data@;
                while j < rest.len()
                    invariant
                        j <= rest@.len(),
                        self.data@ == before + rest@.subrange(0, j as int),
                        self.buf@ == old(self).buf@,
                        self.id == old(self).id,
                    decreases rest.len() - j,
                {
                    self.data.push(rest[j]);
                    j = j + 1;
                    assert(self.data@ =~= before + rest@.subrange(0, j as int));
                }
                assert(rest@.subrange(0, rest@.len() as int) =~= rest@);
                None
            },
            None => None,
        }
    }

    /// Feed a chunk of text; returns the frames completed by it, in order.
    /// Text after the last newline stays pending for the next chunk.
    pub fn feed(&mut self, chunk: &str) -> (frames: Vec<SseFrame>)
        ensures
            ({
                let r = decode(old(self).pending_id(), old(self).pending_data(), old(self).pending_text(), chunk@);
                &&& final(self).pending_id() == r.0
                &&& final(self).pending_data() == r.1
                &&& final(self).pending_text() == r.2
                &&& frames@.len() == r.3.len()
                &&& forall|i: int| 0 <= i < frames@.len() ==> (#[trigger] frames@[i]).id == r.3[i].0
                    && frames@[i].data@ == r.3[i].1
            }),
    {
        let c = chars_of(chunk);
        let ghost id0 = self.id;
        let ghost data0 = self.data@;
        let ghost line0 = self.buf@;
        let mut frames: Vec<SseFrame> = Vec::new();
        let mut i: usize = 0;
        assert(c@.take(0) =~= Seq::<char>::empty());
        while i < c.len()
            invariant
                c@ == chunk@,
                i <= c@.len(),
                ({
                    let r = decode(id0, data0, line0, c@.take(i as int));
                    &&& self.id == r.0
                    &&& self.data@ == r.1
                    &&& self.buf@ == r.2
                    &&& frames@.len() == r.3.len()
                    &&& forall|q: int| 0 <= q < frames@.len() ==> (#[trigger] frames@[q]).id == r.3[q].0
                        && frames@[q].data@ == r.3[q].1
                }),
            decreases c.len() - i,
        {
            let ch = c[i];
            assert(c@.take(i + 1).drop_last() =~= c@.take(i as int));
            assert(c@.take(i + 1).last() == ch);
            if ch == '\n' {
                let mut line: Vec<char> = Vec::new();
                std::mem::swap(&mut line, &mut self.buf);
                let f = self.step(line.as_slice());
                match f {
                    Some(fr) => {
                        frames.push(fr);
                    },
                    None => {},
                }
            } else {
                self.buf.push(ch);
            }
            i = i + 1;
        }
        assert(c@.take(c@.len() as int) =~= c@);
        frames
    }
}

} // verus!
