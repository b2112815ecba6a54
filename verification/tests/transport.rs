use notifwire::notification::{Notification, SourcePlatform};
use notifwire::outbox::{Cursor, Outbox};
use notifwire::transport::{parse_cursor_chars, forward_live, plan_replay, SseClient, SseDecoder};

fn note(title: &str) -> Notification {
    Notification::new("id", "node", SourcePlatform::Plugin, "app", title, "body", "2026-05-31T00:00:00Z")
}

#[test]
fn append_assigns_monotonic_cursors_from_one() {
    let mut ob = Outbox::new(10);
    assert_eq!(ob.latest(), 0);
    assert_eq!(ob.append(note("a")), 1);
    assert_eq!(ob.append(note("b")), 2);
    assert_eq!(ob.append(note("c")), 3);
    assert_eq!(ob.latest(), 3);
    assert_eq!(ob.oldest_retained(), Some(1));
}

#[test]
fn since_returns_only_events_after_cursor() {
    let mut ob = Outbox::new(10);
    for t in ["a", "b", "c"] {
        ob.append(note(t));
    }
    let all = ob.since(0);
    assert!(!all.gap);
    assert_eq!(all.events.len(), 3);
    assert_eq!(all.events[0].seq, 1);

    let tail = ob.since(2);
    assert_eq!(tail.events.len(), 1);
    assert_eq!(tail.events[0].seq, 3);

    assert!(ob.since(3).events.is_empty());
}

#[test]
fn eviction_keeps_only_the_most_recent() {
    let mut ob = Outbox::new(3);
    for t in ["a", "b", "c", "d", "e"] {
        ob.append(note(t));
    }
    assert_eq!(ob.latest(), 5);
    assert_eq!(ob.oldest_retained(), Some(3));
    let kept: Vec<Cursor> = ob.since(0).events.iter().map(|s| s.seq).collect();
    assert_eq!(kept, vec![3, 4, 5]);
}

#[test]
fn gap_is_flagged_when_unseen_events_were_evicted() {
    let mut ob = Outbox::new(3);
    for t in ["a", "b", "c", "d", "e"] {
        ob.append(note(t));
    }
    assert!(ob.since(1).gap);
    assert!(ob.since(0).gap);
    assert!(!ob.since(2).gap);
    assert!(!ob.since(5).gap);
}

#[test]
fn empty_outbox_has_no_events_and_no_gap() {
    let ob = Outbox::new(5);
    let c = ob.since(0);
    assert!(c.events.is_empty());
    assert!(!c.gap);
}

#[test]
fn zero_capacity_is_clamped_to_one() {
    let mut ob = Outbox::new(0);
    assert_eq!(ob.capacity(), 1);
    ob.append(note("a"));
    ob.append(note("b"));
    assert_eq!(ob.len(), 1);
    assert_eq!(ob.oldest_retained(), Some(2));
}

#[test]
fn set_capacity_trims_oldest_and_keeps_counter() {
    let mut ob = Outbox::new(100);
    for t in ["a", "b", "c", "d", "e"] {
        ob.append(note(t));
    }
    ob.set_capacity(2);
    let kept: Vec<Cursor> = ob.since(0).events.iter().map(|s| s.seq).collect();
    assert_eq!(kept, vec![4, 5]);
    assert_eq!(ob.latest(), 5);
    assert_eq!(ob.append(note("f")), 6);
}

#[test]
fn parts_round_trip_and_reject_bad_snapshots() {
    let mut ob = Outbox::new(3);
    for t in ["a", "b", "c", "d"] {
        ob.append(note(t));
    }
    let (cap, next, events) = ob.to_parts();
    assert_eq!((cap, next), (3, 5));
    let back = Outbox::from_parts(cap, next, events).unwrap();
    assert_eq!(back.latest(), 4);
    assert_eq!(back.oldest_retained(), Some(2));
    // Cursors out of sequence, a zero capacity or a zero counter: rejected.
    let (_, _, mut events) = back.to_parts();
    events.swap(0, 1);
    assert!(Outbox::from_parts(3, 5, events).is_none());
    assert!(Outbox::from_parts(0, 1, Vec::new()).is_none());
    assert!(Outbox::from_parts(3, 0, Vec::new()).is_none());
    assert!(Outbox::from_parts(3, 1, Vec::new()).is_some());
    // An empty buffer at a saved counter is kept as it is.
    let empty = Outbox::from_parts(3, 5, Vec::new()).unwrap();
    assert_eq!(empty.latest(), 4);
}

#[test]
fn restore_keeps_a_good_snapshot_under_the_configured_capacity() {
    let mut ob = Outbox::new(5);
    for t in ["a", "b", "c", "d"] {
        ob.append(note(t));
    }
    let (_, next, events) = ob.to_parts();
    let back = Outbox::restore(2, next, events);
    assert_eq!(back.capacity(), 2);
    assert_eq!(back.latest(), 4);
    assert_eq!(back.oldest_retained(), Some(3));
}

#[test]
fn restore_keeps_the_counter_of_a_gapped_snapshot() {
    let mut ob = Outbox::new(5);
    for t in ["a", "b", "c", "d"] {
        ob.append(note(t));
    }
    let (_, _, mut events) = ob.to_parts();
    events.swap(0, 1);
    let mut back = Outbox::restore(5, 5, events);
    assert_eq!(back.latest(), 4);
    assert_eq!(back.len(), 0);
    // A consumer behind the restart learns its events are gone.
    let c = back.since(2);
    assert!(c.events.is_empty());
    assert!(c.gap);
    assert!(!back.since(4).gap);
    assert_eq!(back.append(note("e")), 5);
    // A saved counter below a saved cursor: the counter moves past it.
    let (_, _, events) = ob.to_parts();
    let back = Outbox::restore(5, 2, events);
    assert_eq!(back.latest(), 4);
}

#[test]
fn replay_plan_prefers_last_event_id_over_since() {
    let mut ob = Outbox::new(10);
    for t in ["a", "b", "c", "d"] {
        ob.append(note(t));
    }
    let p = plan_replay(&ob, false, Some("2"), Some(0));
    let seqs: Vec<Cursor> = p.replay.iter().map(|s| s.seq).collect();
    assert_eq!(seqs, vec![3, 4]);
    assert_eq!(p.last_sent, 4);
    // An unparseable header falls back to ?since=.
    let p = plan_replay(&ob, false, Some("x"), Some(3));
    assert_eq!(p.replay.len(), 1);
    // Nothing given: from the beginning.
    assert_eq!(plan_replay(&ob, false, None, None).replay.len(), 4);
    // Caught up: nothing replayed, last sent is the cursor itself.
    let p = plan_replay(&ob, false, None, Some(9));
    assert!(p.replay.is_empty());
    assert_eq!(p.last_sent, 9);
    // Live: skip the backlog.
    let p = plan_replay(&ob, true, Some("1"), Some(1));
    assert!(p.replay.is_empty());
    assert_eq!(p.last_sent, 4);
}

#[test]
fn live_events_forwarded_once() {
    let mut last: Cursor = 2;
    assert!(!forward_live(&mut last, 1));
    assert!(!forward_live(&mut last, 2));
    assert!(forward_live(&mut last, 3));
    assert_eq!(last, 3);
    assert!(!forward_live(&mut last, 3));
}

#[test]
fn events_url_trims_trailing_slashes() {
    let c = SseClient::new("http://mac.local:8787//");
    assert_eq!(c.events_url(false, 4), "http://mac.local:8787/events?since=4");
    assert_eq!(c.events_url(true, 4), "http://mac.local:8787/events?live=true");
    assert_eq!(c.base_url(), "http://mac.local:8787//");
}

#[test]
fn decoder_reassembles_frames_across_chunks() {
    let mut d = SseDecoder::new();
    let f = d.feed("id: 7\r\ndata: {\"a\"");
    assert!(f.is_empty());
    let f = d.feed(":1}\n\n: keep-alive\n\nid:8\ndata:x\ndata: y\nevent: z\n\n");
    assert_eq!(f.len(), 2);
    assert_eq!(f[0].id, Some(7));
    assert_eq!(f[0].data, "{\"a\":1}");
    assert_eq!(f[1].cursor(), 8);
    assert_eq!(f[1].data, "x\ny");
    // A frame without a parseable id counts as cursor 0.
    let f = d.feed("id: nope\ndata: z\n\n");
    assert_eq!(f[0].id, None);
    assert_eq!(f[0].cursor(), 0);
    // Data stays pending until its blank line.
    assert!(d.feed("data: w\n").is_empty());
    assert_eq!(d.feed("\n")[0].data, "w");
}

#[test]
fn cursor_parsing_matches_std() {
    for s in ["0", "42", "+7", "18446744073709551615", "18446744073709551616", "", "+", "-1", " 1", "1a"] {
        let v: Vec<char> = s.chars().collect();
        assert_eq!(parse_cursor_chars(&v), s.parse::<u64>().ok(), "input {s:?}");
    }
}

#[test]
fn version_is_set() {
    assert!(!notifwire::VERSION.is_empty());
}
