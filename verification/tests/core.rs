use notifwire::calendar::{jdn_to_ymd, ms_to_iso8601, JDN_MAX, JDN_MIN};
use notifwire::health::{CaptureHealth, HealthStatus};
use notifwire::icon::{classify, icon_chain, IconRef, IconStep};
use notifwire::notification::{Notification, Priority, SourcePlatform};
use notifwire::rules::{DefaultMode, Filter, FilterAction, MatchField, Rules, Verdict};
use notifwire::sink::{DisplayError, NotificationSink};
use notifwire::dedup::Deduper;
use notifwire::VERSION;
use std::sync::Mutex;

fn note(app: &str, title: &str, body: &str) -> Notification {
    Notification::new("id", "node", SourcePlatform::Windows, app, title, body, "2026-06-01T00:00:00Z")
}

fn filter(field: MatchField, contains: &str, action: FilterAction) -> Filter {
    Filter { field, contains: contains.into(), action }
}

#[test]
fn lib_version_is_set() {
    assert!(!VERSION.is_empty());
}

#[test]
fn default_priority_is_normal() {
    assert_eq!(Priority::default(), Priority::Normal);
}

#[test]
fn new_leaves_extended_fields_unset() {
    let n = note("rsync", "Backup complete", "42GB synced");
    assert_eq!(n.app_name, "rsync");
    assert_eq!(n.priority, None);
    assert_eq!(n.priority(), Priority::Normal);
    assert!(!n.is_synthetic);
    assert_eq!(n.subtitle, None);
    let mut m = n.clone();
    m.priority = Some(Priority::Urgent);
    assert_eq!(m.priority(), Priority::Urgent);
    assert_eq!(n.clone(), n);
}

// ---------------------------------------------------------------- rules

#[test]
fn default_allow_shows_unconfigured_apps() {
    let rules = Rules::default();
    assert_eq!(rules.evaluate(&note("Slack", "hi", "")), Verdict::Show);
}

#[test]
fn default_block_hides_unconfigured_apps() {
    let rules = Rules { default_mode: DefaultMode::Block, ..Default::default() };
    assert_eq!(rules.evaluate(&note("Slack", "hi", "")), Verdict::Suppress);
}

#[test]
fn app_checkmark_overrides_default() {
    let mut on_in_block = Rules { default_mode: DefaultMode::Block, ..Default::default() };
    on_in_block.apps.insert("Slack".into(), true);
    assert!(on_in_block.allows(&note("Slack", "hi", "")));
    assert!(!on_in_block.allows(&note("Spam", "hi", "")));

    let mut off_in_allow = Rules::default();
    off_in_allow.apps.insert("Spam".into(), false);
    assert!(!off_in_allow.allows(&note("Spam", "hi", "")));
    assert!(off_in_allow.allows(&note("Slack", "hi", "")));
}

#[test]
fn block_filter_suppresses_match() {
    let rules = Rules { filters: vec![filter(MatchField::Title, "OTP", FilterAction::Block)], ..Default::default() };
    assert_eq!(rules.evaluate(&note("Bank", "Your OTP is 123", "")), Verdict::Suppress);
    assert_eq!(rules.evaluate(&note("Bank", "Balance", "")), Verdict::Show);
}

#[test]
fn allow_filters_require_a_match() {
    let rules = Rules { filters: vec![filter(MatchField::Title, "deploy", FilterAction::Allow)], ..Default::default() };
    assert_eq!(rules.evaluate(&note("CI", "deploy ok", "")), Verdict::Show);
    assert_eq!(rules.evaluate(&note("CI", "test ok", "")), Verdict::Suppress);
}

#[test]
fn matching_is_case_insensitive_and_field_scoped() {
    let body_filter = Rules { filters: vec![filter(MatchField::Body, "urgent", FilterAction::Block)], ..Default::default() };
    assert_eq!(body_filter.evaluate(&note("X", "hi", "URGENT now")), Verdict::Suppress);
    assert_eq!(body_filter.evaluate(&note("X", "URGENT", "calm")), Verdict::Show);
}

#[test]
fn block_wins_over_allow() {
    let rules = Rules {
        filters: vec![
            filter(MatchField::Any, "ok", FilterAction::Allow),
            filter(MatchField::Title, "secret", FilterAction::Block),
        ],
        ..Default::default()
    };
    assert_eq!(rules.evaluate(&note("X", "secret ok", "")), Verdict::Suppress);
}

#[test]
fn empty_keyword_never_matches() {
    let f = filter(MatchField::Any, "", FilterAction::Allow);
    assert!(!f.matches(&note("X", "anything", "at all")));
    let rules = Rules { filters: vec![f], ..Default::default() };
    assert_eq!(rules.evaluate(&note("X", "anything", "")), Verdict::Suppress);
}

#[test]
fn app_name_filter_and_any_filter() {
    let f = filter(MatchField::AppName, "sla", FilterAction::Block);
    assert!(f.matches(&note("Slack", "t", "b")));
    assert!(!f.matches(&note("Teams", "Slack", "Slack")));
    let g = filter(MatchField::Any, "zoom", FilterAction::Block);
    assert!(g.matches(&note("a", "b", "ZOOM call")));
    assert!(!g.matches(&note("a", "b", "c")));
}

#[test]
fn app_map_insert_get_remove() {
    let mut rules = Rules::default();
    assert_eq!(rules.apps.insert("Slack".into(), true), None);
    assert_eq!(rules.apps.insert("Slack".into(), false), Some(true));
    assert_eq!(rules.apps.get("Slack"), Some(false));
    assert_eq!(rules.apps.len(), 1);
    assert_eq!(rules.apps.remove("Slack"), Some(false));
    assert_eq!(rules.apps.get("Slack"), None);
    assert!(rules.apps.is_empty());
}

// ---------------------------------------------------------------- dedup

#[test]
fn first_sighting_is_not_a_duplicate() {
    let mut d = Deduper::new(60_000);
    assert!(!d.is_duplicate(&note("Slack", "ping", ""), 0));
}

#[test]
fn immediate_repeat_is_a_duplicate() {
    let mut d = Deduper::new(60_000);
    let n = note("Slack", "ping", "");
    assert!(!d.is_duplicate(&n, 1000));
    assert!(d.is_duplicate(&n, 1000));
    assert!(d.is_duplicate(&n, 30_000));
}

#[test]
fn window_is_fixed_from_first_sighting() {
    let mut d = Deduper::new(60_000);
    let n = note("alerts", "battery low", "");
    assert!(!d.is_duplicate(&n, 0));
    assert!(d.is_duplicate(&n, 59_000));
    assert!(!d.is_duplicate(&n, 60_000));
}

#[test]
fn different_content_is_never_a_duplicate() {
    let mut d = Deduper::new(60_000);
    assert!(!d.is_duplicate(&note("Slack", "a", ""), 0));
    assert!(!d.is_duplicate(&note("Slack", "b", ""), 0));
    assert!(!d.is_duplicate(&note("Teams", "a", ""), 0));
}

#[test]
fn zero_window_dedups_nothing() {
    let mut d = Deduper::new(0);
    let n = note("Slack", "ping", "");
    assert!(!d.is_duplicate(&n, 0));
    assert!(!d.is_duplicate(&n, 0));
}

#[test]
fn negative_window_is_clamped_to_zero() {
    let mut d = Deduper::new(-5);
    assert_eq!(d.window_ms(), 0);
    let n = note("Slack", "ping", "");
    assert!(!d.is_duplicate(&n, 0));
    assert!(!d.is_duplicate(&n, 0));
}

#[test]
fn body_is_part_of_the_fingerprint() {
    let mut d = Deduper::new(60_000);
    assert!(!d.is_duplicate(&note("Slack", "a", "x"), 0));
    assert!(!d.is_duplicate(&note("Slack", "a", "y"), 1));
    assert!(d.is_duplicate(&note("Slack", "a", "x"), 2));
}

// ---------------------------------------------------------------- health

#[test]
fn disabled_capture_is_ok_not_degraded() {
    assert_eq!(CaptureHealth::disabled().status(), HealthStatus::Healthy);
}

#[test]
fn running_capture_is_ok() {
    assert_eq!(CaptureHealth::running().status(), HealthStatus::Healthy);
}

#[test]
fn enabled_but_stopped_capture_is_degraded() {
    let h = CaptureHealth::stopped(Some(false), "access not granted");
    assert_eq!(h.status(), HealthStatus::Degraded);
}

#[test]
fn running_but_denied_capture_is_degraded() {
    let mut h = CaptureHealth::running();
    h.access_granted = Some(false);
    assert_eq!(h.status(), HealthStatus::Degraded);
    h.access_granted = None;
    assert_eq!(h.status(), HealthStatus::Healthy);
    assert_eq!(CaptureHealth::stopped(None, "x").detail.as_deref(), Some("x"));
}

// ---------------------------------------------------------------- icons

#[test]
fn classify_routes_each_kind() {
    assert_eq!(classify("https://x.com/a.png"), IconRef::Url("https://x.com/a.png".into()));
    assert_eq!(classify("file:///c/icon.png"), IconRef::FilePath("/c/icon.png".into()));
    assert_eq!(classify("./icon.png"), IconRef::FilePath("./icon.png".into()));
    assert_eq!(classify(r"C:\icons\a.ico"), IconRef::FilePath(r"C:\icons\a.ico".into()));
    assert_eq!(classify("github.com"), IconRef::Domain("github.com".into()));
    assert_eq!(classify("Slack"), IconRef::Name("Slack".into()));
    assert_eq!(classify("HP System Event"), IconRef::Name("HP System Event".into()));
}

#[test]
fn classify_edge_cases() {
    assert_eq!(classify("  http://a.b  "), IconRef::Url("http://a.b".into()));
    assert_eq!(classify("~/icons/x.png"), IconRef::FilePath("~/icons/x.png".into()));
    assert_eq!(classify("example.c"), IconRef::Name("example.c".into()));
    assert_eq!(classify("example.c0m"), IconRef::Name("example.c0m".into()));
    assert_eq!(classify("d:"), IconRef::FilePath("d:".into()));
    assert_eq!(classify(""), IconRef::Name("".into()));
}

#[test]
fn chain_ends_in_fallback() {
    let chain = icon_chain(&note("Slack", "title", "body"));
    assert_eq!(chain.last(), Some(&IconStep::Fallback("Slack".into())));
}

#[test]
fn no_hint_chain_is_cache_brand_fallback() {
    assert_eq!(
        icon_chain(&note("Teams", "title", "body")),
        vec![
            IconStep::CachedApp("Teams".into()),
            IconStep::Brand("Teams".into()),
            IconStep::Fallback("Teams".into()),
        ]
    );
}

#[test]
fn explicit_hint_takes_priority() {
    let mut n = note("rsync", "title", "body");
    n.app_icon = Some("github.com".into());
    let chain = icon_chain(&n);
    assert_eq!(chain[0], IconStep::Favicon("github.com".into()));
    assert_eq!(chain.last(), Some(&IconStep::Fallback("rsync".into())));
}

#[test]
fn embedded_image_comes_first() {
    let mut n = note("Photos", "title", "body");
    n.image = Some("data:...".into());
    n.app_icon = Some("Photos".into());
    let chain = icon_chain(&n);
    assert_eq!(chain[0], IconStep::Embedded);
    assert_eq!(chain[1], IconStep::Brand("Photos".into()));
}

#[test]
fn blank_hint_is_ignored() {
    let mut n = note("App", "title", "body");
    n.app_icon = Some("   ".into());
    let chain = icon_chain(&n);
    assert_eq!(chain[0], IconStep::CachedApp("App".into()));
}

// ---------------------------------------------------------------- sink

#[test]
fn closure_is_a_sink() {
    let seen = Mutex::new(Vec::new());
    let sink = |n: &Notification| {
        seen.lock().unwrap().push(n.title.clone());
        Ok(())
    };
    sink.show(&note("app", "a", "body")).unwrap();
    sink.show(&note("app", "b", "body")).unwrap();
    assert_eq!(*seen.lock().unwrap(), vec!["a", "b"]);
}

#[test]
fn sink_can_report_failure() {
    let sink = |_: &Notification| Err(DisplayError::Unsupported);
    assert!(sink.show(&note("app", "x", "body")).is_err());
}

// ---------------------------------------------------------------- calendar

#[test]
fn ms_to_iso8601_known_timestamps() {
    assert_eq!(ms_to_iso8601(0), "1970-01-01T00:00:00Z");
    assert_eq!(ms_to_iso8601(1_780_272_000_000), "2026-06-01T00:00:00Z");
}

#[test]
fn ms_to_iso8601_floors_and_pads() {
    assert_eq!(ms_to_iso8601(-1), "1969-12-31T23:59:59Z");
    assert_eq!(ms_to_iso8601(951_782_400_000), "2000-02-29T00:00:00Z");
    assert_eq!(ms_to_iso8601(1_780_272_061_999), "2026-06-01T00:01:01Z");
}

#[test]
fn jdn_to_ymd_known_days() {
    assert_eq!(jdn_to_ymd(2_440_588), (1970, 1, 1));
    assert_eq!(jdn_to_ymd(2_451_545), (2000, 1, 1));
}

#[test]
fn jdn_to_ymd_at_the_ends_of_its_range() {
    assert_eq!(jdn_to_ymd(JDN_MAX), (6_313_054_097_774_049, 4, 5));
    assert_eq!(jdn_to_ymd(JDN_MIN), (-6_313_054_097_783_480, 2, -3));
}

#[test]
fn rendered_timestamps_sort_like_times() {
    let times: [i64; 8] = [
        -62_167_219_200_000,
        -1,
        0,
        951_782_400_000,
        951_868_799_999,
        4_107_456_000_000,
        4_107_542_400_000,
        253_402_300_799_999,
    ];
    for w in times.windows(2) {
        let (a, b) = (ms_to_iso8601(w[0]), ms_to_iso8601(w[1]));
        assert!(a < b, "{a} should sort before {b}");
    }
    assert_eq!(ms_to_iso8601(-62_167_219_200_000), "0000-01-01T00:00:00Z");
    assert_eq!(ms_to_iso8601(253_402_300_799_999), "9999-12-31T23:59:59Z");
    assert_eq!(ms_to_iso8601(4_107_542_400_000), "2100-03-01T00:00:00Z");
}

#[test]
fn whitespace_matches_std_for_every_char() {
    for u in 0u32..=0x10FFFF {
        if let Some(c) = char::from_u32(u) {
            assert_eq!(notifwire::text::char_is_whitespace(c), c.is_whitespace(), "U+{u:04X}");
        }
    }
}

#[test]
fn classify_ignores_surrounding_whitespace() {
    for s in ["github.com", "https://x.com/a.png", "/c/icon.png", "Slack", "file:///c/i.png"] {
        let padded = format!(" \t{s}\u{3000}\n");
        assert_eq!(classify(&padded), classify(s));
    }
}

#[test]
fn suppressed_repeats_do_not_extend_the_window() {
    let mut d = Deduper::new(10_000);
    let n = Notification::new("id", "node", SourcePlatform::Plugin, "App", "t", "b", "2026-06-01T00:00:00Z");
    assert!(!d.is_duplicate(&n, 0));
    assert!(d.is_duplicate(&n, 9_000));
    assert!(!d.is_duplicate(&n, 10_000));
    assert!(d.is_duplicate(&n, 19_999));
}

#[test]
fn rendered_timestamps_have_the_fixed_layout() {
    for ms in [-62_167_219_200_000i64, -1, 0, 86_399_999, 951_782_400_000, 253_402_300_799_999] {
        let s: Vec<char> = ms_to_iso8601(ms).chars().collect();
        assert_eq!(s.len(), 20);
        for (i, c) in s.iter().enumerate() {
            match i {
                4 | 7 => assert_eq!(*c, '-'),
                10 => assert_eq!(*c, 'T'),
                13 | 16 => assert_eq!(*c, ':'),
                19 => assert_eq!(*c, 'Z'),
                _ => assert!(c.is_ascii_digit()),
            }
        }
    }
}
