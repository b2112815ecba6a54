use notifwire::capture::{captured_toast, CaptureError, NotificationSource, SeenToasts};
use notifwire::consumer::{should_show, AfterAttempt, DisplayStage, Reconnector, StatusHandle, Subscription, UNREACHABLE_AFTER};
use std::sync::{Arc, Mutex};
use notifwire::sink::DisplayError;
use notifwire::transport::TransportError;
use notifwire::dedup::Deduper;
use notifwire::health::{ConnectionState, ProducerStatus};
use notifwire::notification::{Notification, Priority, SourcePlatform};
use notifwire::rules::Rules;
use notifwire::toast::{build_toast_xml, title_body_from_lines, xml_escape};
use notifwire::{format_line, format_notification, ReconnectPolicy, SyntheticSource};

fn note(app: &str, title: &str, body: &str) -> Notification {
    Notification::new("id", "node", SourcePlatform::Plugin, app, title, body, "2026-05-31T00:00:00Z")
}

#[test]
fn formats_app_title_and_body() {
    let line = format_line(4, &note("rsync", "Backup complete", "42GB synced"));
    assert_eq!(line, "[4] rsync: Backup complete — 42GB synced");
}

#[test]
fn omits_dash_when_body_empty() {
    assert_eq!(format_line(1, &note("weechat", "ping", "")), "[1] weechat: ping");
}

#[test]
fn tags_elevated_priority() {
    let mut n = note("alerts", "disk full", "");
    n.priority = Some(Priority::Urgent);
    assert!(format_line(2, &n).ends_with("(urgent)"));
}

#[test]
fn high_priority_tag_and_low_untagged() {
    let mut n = note("demo", "hello", "world");
    n.priority = Some(Priority::High);
    assert_eq!(format_line(1, &n), "[1] demo: hello — world (high)");
    n.priority = Some(Priority::Low);
    assert_eq!(format_notification(&n), "demo: hello — world");
}

#[test]
fn pipeline_filters_then_dedups() {
    let mut rules = Rules::default();
    rules.apps.insert("Spam".to_string(), false);
    let mut d = Deduper::new(60_000);
    assert!(should_show(&rules, &mut d, &note("Slack", "ping", ""), 0));
    assert!(!should_show(&rules, &mut d, &note("Spam", "ad", ""), 0));
    assert!(should_show(&rules, &mut d, &note("Slack", "other", ""), 1000));
    assert!(!should_show(&rules, &mut d, &note("Slack", "ping", ""), 2000));
    // A suppressed app never reaches the deduper: once allowed, it shows.
    rules.apps.insert("Spam".to_string(), true);
    assert!(should_show(&rules, &mut d, &note("Spam", "ad", ""), 3000));
}

#[test]
fn reconnect_resumes_from_highest_cursor() {
    let mut r = Reconnector::new(0, true, ReconnectPolicy::default());
    let mut status = ProducerStatus::new("http://127.0.0.1:1");
    assert_eq!(status.state, ConnectionState::Connecting);
    assert_eq!(r.next_subscription(), Subscription::Live);
    r.on_connected(&mut status);
    assert_eq!(status.state, ConnectionState::Connected);
    r.on_event(5, 100, &mut status);
    r.on_event(3, 101, &mut status);
    assert_eq!(r.cursor, 5);
    assert_eq!(status.last_event_unix_ms, Some(101));
    Reconnector::on_stream_end(&mut status);
    assert_eq!(status.state, ConnectionState::Reconnecting);
    assert_eq!(r.next_subscription(), Subscription::Since(5));
}

#[test]
fn reconnect_backoff_and_give_up() {
    let policy = ReconnectPolicy { initial_backoff_ms: 1000, max_backoff_ms: 3000, max_retries: Some(2) };
    let mut r = Reconnector::new(7, false, policy);
    let mut status = ProducerStatus::new("u");
    assert_eq!(r.next_subscription(), Subscription::Since(7));
    r.on_connect_failed(&mut status, "refused".to_string());
    assert_eq!(status.state, ConnectionState::Reconnecting);
    assert_eq!(status.last_error.as_deref(), Some("refused"));
    assert_eq!(r.after_attempt(&mut status), AfterAttempt::RetryAfter(1000));
    assert_eq!(r.backoff_ms, 2000);
    assert_eq!(r.next_subscription(), Subscription::Since(7));
    r.on_connect_failed(&mut status, "refused".to_string());
    assert_eq!(r.after_attempt(&mut status), AfterAttempt::GiveUp);
    assert_eq!(status.state, ConnectionState::Unreachable);
}

#[test]
fn three_failures_mean_unreachable_and_backoff_caps() {
    let mut r = Reconnector::new(0, false, ReconnectPolicy::default());
    let mut status = ProducerStatus::new("u");
    for i in 0..UNREACHABLE_AFTER {
        r.on_connect_failed(&mut status, format!("e{i}"));
        let _ = r.after_attempt(&mut status);
    }
    assert_eq!(status.state, ConnectionState::Unreachable);
    for _ in 0..10 {
        let _ = r.after_attempt(&mut status);
    }
    assert_eq!(r.backoff_ms, 30_000);
    r.on_connected(&mut status);
    assert_eq!(r.failures, 0);
    assert_eq!(r.backoff_ms, 1000);
    assert_eq!(status.last_error, None);
}

#[test]
fn synthetic_source_yields_in_order_then_ends() {
    let mut src = SyntheticSource::new(vec![note("app", "a", "body"), note("app", "b", "body")]);
    assert_eq!(src.name(), "synthetic");
    assert_eq!(src.pop_next().unwrap().title, "a");
    assert_eq!(src.pop_next().unwrap().title, "b");
    assert!(src.pop_next().is_none());
    src.push(note("app", "late", "body"));
    assert_eq!(src.pop_next().unwrap().title, "late");
}

#[test]
fn escapes_xml_metacharacters() {
    assert_eq!(xml_escape("a & b <x> \"q\""), "a &amp; b &lt;x&gt; &quot;q&quot;");
}

#[test]
fn escapes_apostrophes() {
    assert_eq!(xml_escape("it's"), "it&apos;s");
}

#[test]
fn toast_xml_is_well_formed_and_escaped() {
    let n = Notification::new("id", "node", SourcePlatform::Windows, "app", "Deploy <ok>", "build & ship", "2026-06-01T00:00:00Z");
    let xml = build_toast_xml(&n);
    assert!(xml.starts_with("<toast>") && xml.ends_with("</toast>"));
    assert!(xml.contains("Deploy &lt;ok&gt;"));
    assert!(xml.contains("build &amp; ship"));
    assert!(xml.contains(r#"template="ToastGeneric""#));
}

#[test]
fn captured_lines_map_to_title_and_body() {
    let lines = vec!["Title".to_string(), "one".to_string(), "two".to_string()];
    assert_eq!(title_body_from_lines(&lines), ("Title".to_string(), "one\ntwo".to_string()));
    assert_eq!(title_body_from_lines(&vec!["Only".to_string()]), ("Only".to_string(), String::new()));
    assert_eq!(title_body_from_lines(&Vec::new()), (String::new(), String::new()));
}

#[test]
fn status_handle_shares_one_status_between_clones() {
    let h = StatusHandle::new("http://mac:8787");
    let reader = h.clone();
    let s = reader.get();
    assert_eq!(s.url, "http://mac:8787");
    assert_eq!(s.state, ConnectionState::Connecting);
    let mut next = h.get();
    next.state = ConnectionState::Connected;
    next.last_event_unix_ms = Some(42);
    h.set(next);
    let seen = reader.get();
    assert_eq!(seen.state, ConnectionState::Connected);
    assert_eq!(seen.last_event_unix_ms, Some(42));
}

#[test]
fn errors_render_their_messages() {
    assert_eq!(TransportError::Connect("refused".into()).message(), "connection failed: refused");
    assert_eq!(TransportError::Http("500".into()).message(), "HTTP error: 500");
    assert_eq!(TransportError::Decode("eof".into()).message(), "decode error: eof");
    assert_eq!(DisplayError::Unsupported.message(), "native display not supported here");
    assert_eq!(DisplayError::Backend("x".into()).message(), "display backend error: x");
    assert_eq!(CaptureError::AccessDenied.message(), "notification access not granted");
    assert_eq!(CaptureError::Backend("y".into()).message(), "capture backend error: y");
}

#[test]
fn each_toast_is_captured_once() {
    let mut seen = SeenToasts::new();
    assert!(seen.first_sighting(7));
    assert!(seen.first_sighting(8));
    assert!(!seen.first_sighting(7));
    assert!(!seen.first_sighting(8));
}

#[test]
fn captured_toast_maps_lines_onto_title_and_body() {
    let lines = vec!["Deploy".to_string(), "step 1".to_string(), "step 2".to_string()];
    let n = captured_toast("win-box", "CI", &lines);
    assert_eq!(n.producer_node, "win-box");
    assert_eq!(n.source_platform, SourcePlatform::Windows);
    assert_eq!(n.app_name, "CI");
    assert_eq!(n.title, "Deploy");
    assert_eq!(n.body, "step 1\nstep 2");
    assert_eq!(n.id.len(), 36);
    assert!(n.timestamp.contains('T'));
    let empty = captured_toast("win-box", "CI", &Vec::new());
    assert_eq!(empty.title, "");
    assert_eq!(empty.body, "");
}

#[test]
fn synthetic_yields_in_order_then_ends() {
    let mut src = SyntheticSource::new(vec![note("app", "a", "body"), note("app", "b", "body")]);
    assert_eq!(src.name(), "synthetic");
    assert_eq!(src.next().unwrap().unwrap().title, "a");
    assert_eq!(src.next().unwrap().unwrap().title, "b");
    assert!(src.next().unwrap().is_none());
}

#[test]
fn push_appends_to_the_queue() {
    let mut src = SyntheticSource::default();
    assert!(src.next().unwrap().is_none());
    src.push(note("app", "late", "body"));
    assert_eq!(src.next().unwrap().unwrap().title, "late");
}

#[test]
fn pipeline_filters_dedups_and_shows() {
    let shown = Arc::new(Mutex::new(Vec::<String>::new()));
    let captured = shown.clone();
    let sink = move |n: &Notification| {
        captured.lock().unwrap().push(n.title.clone());
        Ok::<(), DisplayError>(())
    };

    let mut rules = Rules::default();
    rules.apps.insert("Spam".to_string(), false);

    let mut p = DisplayStage::new(rules, 60_000, sink);
    assert!(p.handle(&note("Slack", "ping", ""), 0).unwrap());
    assert!(!p.handle(&note("Spam", "ad", ""), 0).unwrap());
    assert!(p.handle(&note("Slack", "other", ""), 1000).unwrap());
    assert!(!p.handle(&note("Slack", "ping", ""), 2000).unwrap());

    assert_eq!(*shown.lock().unwrap(), vec!["ping", "other"]);
}

#[test]
fn display_stage_reports_sink_failure() {
    let sink = |_: &Notification| Err::<(), DisplayError>(DisplayError::Backend("no toaster".into()));
    let mut p = DisplayStage::new(Rules::default(), 0, sink);
    assert_eq!(
        p.handle(&note("App", "x", ""), 0),
        Err(DisplayError::Backend("no toaster".into()))
    );
}

#[test]
fn bounded_retries_stop_a_producer_that_keeps_ending_streams() {
    let policy = ReconnectPolicy { initial_backoff_ms: 10, max_backoff_ms: 100, max_retries: Some(3) };
    let mut r = Reconnector::new(0, true, policy);
    let mut status = ProducerStatus::new("u");
    let mut attempts = 0;
    loop {
        let _ = r.next_subscription();
        attempts += 1;
        r.on_connected(&mut status);
        Reconnector::on_stream_end(&mut status);
        if r.after_attempt(&mut status) == AfterAttempt::GiveUp {
            break;
        }
        assert!(attempts < 10, "the loop must give up");
    }
    assert_eq!(attempts, 3);
    assert_eq!(status.state, ConnectionState::Unreachable);
}

#[test]
fn reconnect_run_resumes_across_connections_and_resets_backoff() {
    let policy = ReconnectPolicy { initial_backoff_ms: 100, max_backoff_ms: 1000, max_retries: None };
    let mut r = Reconnector::new(5, false, policy);
    let mut status = ProducerStatus::new("u");
    // First connection: replays after 5, sees 7 then 6.
    assert_eq!(r.next_subscription(), Subscription::Since(5));
    r.on_connected(&mut status);
    r.on_event(7, 1, &mut status);
    r.on_event(6, 2, &mut status);
    Reconnector::on_stream_end(&mut status);
    assert_eq!(r.after_attempt(&mut status), AfterAttempt::RetryAfter(100));
    // Two failed dials: waits double, the resume cursor stays the highest seen.
    assert_eq!(r.next_subscription(), Subscription::Since(7));
    r.on_connect_failed(&mut status, "refused".to_string());
    assert_eq!(r.after_attempt(&mut status), AfterAttempt::RetryAfter(200));
    assert_eq!(r.next_subscription(), Subscription::Since(7));
    r.on_connect_failed(&mut status, "refused".to_string());
    assert_eq!(r.after_attempt(&mut status), AfterAttempt::RetryAfter(400));
    // A second connection sees 9; its success resets the backoff.
    assert_eq!(r.next_subscription(), Subscription::Since(7));
    r.on_connected(&mut status);
    r.on_event(9, 3, &mut status);
    Reconnector::on_stream_end(&mut status);
    assert_eq!(r.after_attempt(&mut status), AfterAttempt::RetryAfter(100));
    assert_eq!(r.next_subscription(), Subscription::Since(9));
    assert_eq!(r.attempts, 5);
}
