use notifwire::appconfig::AppConfig;
use notifwire::rules::{DefaultMode, FilterAction, MatchField, Rules};
use notifwire::settings::{
    active_scheduled_focus, hhmm_in_range, id_from_counter, parse_default_mode, parse_filter_action,
    excess_rows, parse_match_field, parse_weekday, retention_cutoff_ms, Focus, FocusSchedule, RetentionConfig,
    TimeRange, Weekday,
};

fn days(names: &[&str]) -> Vec<String> {
    names.iter().map(|s| s.to_string()).collect()
}

#[test]
fn weekdays_parse_and_unknown_is_reported() {
    assert_eq!(parse_weekday("mon"), Ok(Weekday::Mon));
    assert_eq!(parse_weekday("sun"), Ok(Weekday::Sun));
    assert_eq!(
        parse_weekday("Monday"),
        Err("unknown weekday 'Monday'; expected mon|tue|wed|thu|fri|sat|sun".to_string())
    );
}

#[test]
fn enum_names_parse_and_unknown_is_reported() {
    assert_eq!(parse_default_mode("block"), Ok(DefaultMode::Block));
    assert_eq!(
        parse_default_mode("deny"),
        Err("unknown default_mode 'deny'; expected allow|block".to_string())
    );
    assert_eq!(parse_match_field("appname"), Ok(MatchField::AppName));
    assert_eq!(
        parse_match_field("app"),
        Err("unknown field 'app'; expected title|body|appname|any".to_string())
    );
    assert_eq!(parse_filter_action("allow"), Ok(FilterAction::Allow));
    assert_eq!(
        parse_filter_action("drop"),
        Err("unknown action 'drop'; expected allow|block".to_string())
    );
}

#[test]
fn plain_range_is_half_open() {
    let r = TimeRange { start_hhmm: 900, end_hhmm: 1700 };
    assert!(hhmm_in_range(900, &r));
    assert!(hhmm_in_range(1659, &r));
    assert!(!hhmm_in_range(1700, &r));
    assert!(!hhmm_in_range(859, &r));
}

#[test]
fn wrapping_range_spans_midnight() {
    let r = TimeRange { start_hhmm: 2200, end_hhmm: 700 };
    assert!(hhmm_in_range(2230, &r));
    assert!(hhmm_in_range(0, &r));
    assert!(hhmm_in_range(659, &r));
    assert!(!hhmm_in_range(700, &r));
    assert!(!hhmm_in_range(1200, &r));
}

#[test]
fn empty_range_matches_nothing() {
    let r = TimeRange { start_hhmm: 800, end_hhmm: 800 };
    assert!(!hhmm_in_range(800, &r));
    assert!(!hhmm_in_range(0, &r));
}

fn sched(id: &str, focus: &str, d: Vec<Weekday>, s: u16, e: u16, enabled: bool) -> FocusSchedule {
    FocusSchedule {
        id: id.into(),
        focus_id: focus.into(),
        days: d,
        time_range: TimeRange { start_hhmm: s, end_hhmm: e },
        enabled,
    }
}

#[test]
fn first_matching_enabled_schedule_wins() {
    let schedules = vec![
        sched("s1", "off", vec![Weekday::Mon], 0, 2400, false),
        sched("s2", "work", vec![Weekday::Mon, Weekday::Tue], 900, 1700, true),
        sched("s3", "other", vec![Weekday::Mon], 0, 2400, true),
    ];
    let focuses: Vec<Focus> = Vec::new();
    assert_eq!(active_scheduled_focus(&schedules, &focuses, &Weekday::Mon, 1000), Some("work".to_string()));
    assert_eq!(active_scheduled_focus(&schedules, &focuses, &Weekday::Mon, 1800), Some("other".to_string()));
    assert_eq!(active_scheduled_focus(&schedules, &focuses, &Weekday::Wed, 1000), None);
}

#[test]
fn ids_are_f_and_sixteen_hex_digits() {
    assert_eq!(id_from_counter(0), "fdeadbeefcafe0000");
    assert_eq!(id_from_counter(1), format!("f{:016x}", 1u64.wrapping_mul(0x9e3779b97f4a7c15).wrapping_add(0xdead_beef_cafe_0000)));
    assert_ne!(id_from_counter(1), id_from_counter(2));
}

#[test]
fn retention_min_days_and_cutoff() {
    let mut r = RetentionConfig::default();
    assert_eq!(r.default_days, 30);
    assert_eq!(r.min_days(), 30);
    r.per_producer.insert("http://a".into(), 7);
    r.per_producer.insert("http://b".into(), 90);
    assert_eq!(r.min_days(), 7);
    assert_eq!(retention_cutoff_ms(10 * 86_400_000, 7), 3 * 86_400_000);
    assert_eq!(excess_rows(10, 4), 6);
    assert_eq!(excess_rows(3, 4), 0);
}

#[test]
fn producers_are_trimmed_and_unique() {
    let mut c = AppConfig::default();
    assert_eq!(c.add_producer("  http://mac:8787 ", None), Ok("http://mac:8787".to_string()));
    assert_eq!(c.producers.len(), 1);
    assert!(c.producers[0].enabled);
    assert_eq!(
        c.add_producer("http://mac:8787", Some("again".into())),
        Err("producer 'http://mac:8787' already exists".to_string())
    );
    assert_eq!(c.add_producer("   ", None), Err("URL must not be empty".to_string()));
    assert_eq!(c.producers.len(), 1);
    assert_eq!(
        c.set_producer_enabled("http://nope", false),
        Err("producer 'http://nope' not found".to_string())
    );
    assert_eq!(c.set_producer_enabled("http://mac:8787", false), Ok(()));
    assert!(!c.producers[0].enabled);
    c.remove_producer("http://mac:8787");
    assert!(c.producers.is_empty());
}

#[test]
fn rules_edits_validate_their_input() {
    let mut c = AppConfig::default();
    assert_eq!(c.set_default_mode("block"), Ok(()));
    assert_eq!(c.rules.default_mode, DefaultMode::Block);
    assert!(c.set_default_mode("maybe").is_err());
    c.set_app_rule("Slack".into(), true);
    assert_eq!(c.rules.apps.get("Slack"), Some(true));
    c.remove_app_rule("Slack");
    assert_eq!(c.rules.apps.get("Slack"), None);
    assert_eq!(c.add_filter("title", "  otp  ", "block"), Ok(()));
    assert_eq!(c.rules.filters.len(), 1);
    assert_eq!(c.rules.filters[0].contains, "otp");
    assert_eq!(c.add_filter("title", "   ", "block"), Err("filter keyword must not be empty".to_string()));
    assert!(c.add_filter("subject", "x", "block").is_err());
    assert_eq!(c.remove_filter(3), Err("filter index 3 out of range (len=1)".to_string()));
    assert_eq!(c.remove_filter(0), Ok(()));
    assert!(c.rules.filters.is_empty());
}

#[test]
fn focus_lifecycle() {
    let mut c = AppConfig::default();
    let mut counter: u64 = 0;
    assert_eq!(c.add_focus("  ", None, &mut counter), Err("focus name must not be empty".to_string()));
    let work = c.add_focus(" Work ", Some("W".into()), &mut counter).unwrap();
    assert_eq!(work.name, "Work");
    assert_eq!(work.sort_order, 0);
    assert_eq!(work.id, id_from_counter(0));
    assert_eq!(counter, 1);
    let copy = c.clone_focus(&work.id, &mut counter).unwrap();
    assert_eq!(copy.name, "Work (copy)");
    assert_eq!(copy.sort_order, 1);
    assert_ne!(copy.id, work.id);
    assert_eq!(c.focuses.len(), 2);

    assert_eq!(c.update_focus(&work.id, Some("Deep work".into()), Some("  ".into())), Ok(()));
    assert_eq!(c.focuses[0].name, "Deep work");
    assert_eq!(c.focuses[0].icon, None);
    assert_eq!(c.update_focus("nope", None, None), Err("focus 'nope' not found".to_string()));

    let mut rules = Rules::default();
    rules.default_mode = DefaultMode::Block;
    assert_eq!(c.set_focus_rules(&copy.id, rules), Ok(()));
    assert_eq!(c.focuses[1].rules.default_mode, DefaultMode::Block);

    assert_eq!(c.set_active_focus(Some(copy.id.clone())), Ok(()));
    assert_eq!(c.set_active_focus(Some("nope".into())), Err("focus 'nope' not found".to_string()));
    assert_eq!(c.active_focus_id, Some(copy.id.clone()));

    c.reorder_focuses(&[copy.id.clone(), work.id.clone()]);
    assert_eq!(c.focuses[0].id, copy.id);
    assert_eq!(c.focuses[1].id, work.id);

    assert_eq!(c.remove_focus(&copy.id), Ok(()));
    assert_eq!(c.active_focus_id, None);
    assert_eq!(c.remove_focus(&copy.id), Err(format!("focus '{}' not found", copy.id)));
}

#[test]
fn schedule_lifecycle() {
    let mut c = AppConfig::default();
    let mut counter: u64 = 0;
    let work = c.add_focus("Work", None, &mut counter).unwrap();
    assert_eq!(
        c.add_schedule("", &days(&["mon"]), 900, 1700, &mut counter),
        Err("focus_id must not be empty".to_string())
    );
    assert_eq!(
        c.add_schedule(&work.id, &days(&["mon", "funday"]), 900, 1700, &mut counter),
        Err("unknown weekday 'funday'; expected mon|tue|wed|thu|fri|sat|sun".to_string())
    );
    assert_eq!(
        c.add_schedule(&work.id, &days(&[]), 900, 1700, &mut counter),
        Err("days must not be empty".to_string())
    );
    assert_eq!(
        c.add_schedule("ghost", &days(&["mon"]), 900, 1700, &mut counter),
        Err("focus 'ghost' not found".to_string())
    );
    let s = c.add_schedule(&work.id, &days(&["mon", "fri"]), 900, 1700, &mut counter).unwrap();
    assert!(s.enabled);
    assert_eq!(s.days, vec![Weekday::Mon, Weekday::Fri]);
    assert_eq!(c.scheduled_focus("fri", 1000), Some(work.id.clone()));
    assert_eq!(c.scheduled_focus("sat", 1000), None);
    assert_eq!(c.scheduled_focus("friday", 1000), None);

    assert_eq!(
        c.update_schedule(&s.id, work.id.clone(), &days(&["sat"]), 2200, 700, true),
        Ok(())
    );
    assert_eq!(c.scheduled_focus("sat", 2300), Some(work.id.clone()));
    assert_eq!(
        c.update_schedule("nope", work.id.clone(), &days(&["sat"]), 0, 1, true),
        Err("schedule 'nope' not found".to_string())
    );
    assert_eq!(c.remove_schedule(&s.id), Ok(()));
    assert_eq!(c.remove_schedule(&s.id), Err(format!("schedule '{}' not found", s.id)));
}
