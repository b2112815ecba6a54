use notifwire::cli::{build_notification, build_notification_with, ingest_result, ingest_seq_from, ingest_url, IngestError, SendOpts};
use notifwire::config::Config;
use notifwire::notification::{Priority, SourcePlatform};

fn opts() -> SendOpts {
    SendOpts {
        title: "Backup complete".into(),
        body: "42GB synced".into(),
        app: "rsync".into(),
        priority: Some(Priority::High),
        icon: Some("rsync".into()),
        producer_node: "thinkpad".into(),
    }
}

#[test]
fn build_maps_inputs_onto_the_model() {
    let n = build_notification(&opts());
    assert_eq!(n.title, "Backup complete");
    assert_eq!(n.body, "42GB synced");
    assert_eq!(n.app_name, "rsync");
    assert_eq!(n.priority, Some(Priority::High));
    assert_eq!(n.app_icon.as_deref(), Some("rsync"));
    assert_eq!(n.source_platform, SourcePlatform::Plugin);
    assert_eq!(n.plugin_id.as_deref(), Some("notifwire-send"));
    assert_eq!(n.producer_node, "thinkpad");
    assert!(!n.id.is_empty(), "id should be a generated uuid");
    assert!(n.timestamp.contains('T'), "timestamp should be RFC 3339");
}

#[test]
fn absent_priority_resolves_to_normal() {
    let mut o = opts();
    o.priority = None;
    let n = build_notification(&o);
    assert_eq!(n.priority, None);
    assert_eq!(n.priority(), Priority::Normal);
}

#[test]
fn fresh_ids_each_call() {
    assert_ne!(
        build_notification(&opts()).id,
        build_notification(&opts()).id
    );
}

#[test]
fn generated_id_is_a_hyphenated_uuid() {
    let n = build_notification(&opts());
    assert_eq!(n.id.len(), 36);
    assert_eq!(n.id.chars().filter(|c| *c == '-').count(), 4);
    assert_eq!(n.id.chars().nth(14), Some('4'));
    assert!(n.id.chars().all(|c| c == '-' || c.is_ascii_digit() || ('a'..='f').contains(&c)));
    assert!(n.timestamp.ends_with("+00:00"));
}

#[test]
fn build_with_given_id_and_timestamp() {
    let n = build_notification_with(&opts(), "id-1", "2026-06-01T00:00:00Z");
    assert_eq!(n.id, "id-1");
    assert_eq!(n.timestamp, "2026-06-01T00:00:00Z");
    assert_eq!(n.subtitle, None);
    assert_eq!(n.image, None);
    assert!(!n.is_synthetic);
}

#[test]
fn ingest_url_appends_path_after_trimming_slashes() {
    assert_eq!(ingest_url("http://127.0.0.1:8787"), "http://127.0.0.1:8787/ingest");
    assert_eq!(ingest_url("http://127.0.0.1:8787//"), "http://127.0.0.1:8787/ingest");
    assert_eq!(ingest_url(""), "/ingest");
}

fn cfg(version: u64, updated_at: &str) -> Config {
    Config {
        config_version: version,
        updated_at: updated_at.into(),
        updated_by: "node-a".into(),
        producers: Vec::new(),
        focuses: Vec::new(),
    }
}

#[test]
fn higher_version_is_newer() {
    let current = cfg(47, "2026-05-31T18:04:00Z");
    let incoming = cfg(48, "2026-05-31T18:00:00Z");
    assert!(incoming.is_newer_than(&current));
}

#[test]
fn lower_version_is_stale() {
    let current = cfg(48, "2026-05-31T18:00:00Z");
    let incoming = cfg(47, "2026-05-31T23:59:59Z");
    assert!(!incoming.is_newer_than(&current));
}

#[test]
fn equal_version_breaks_tie_on_timestamp() {
    let current = cfg(47, "2026-05-31T18:04:00Z");
    let later = cfg(47, "2026-05-31T18:05:00Z");
    let same = cfg(47, "2026-05-31T18:04:00Z");
    assert!(later.is_newer_than(&current));
    assert!(!same.is_newer_than(&current));
}

#[test]
fn apply_if_newer_applies_and_reports() {
    let mut current = cfg(47, "2026-05-31T18:04:00Z");
    let applied = current.apply_if_newer(cfg(48, "2026-05-31T18:10:00Z"));
    assert!(applied);
    assert_eq!(current.config_version, 48);

    let ignored = !current.apply_if_newer(cfg(10, "2020-01-01T00:00:00Z"));
    assert!(ignored);
    assert_eq!(current.config_version, 48);
}

#[test]
fn applied_config_carries_payloads() {
    let mut current = cfg(1, "2026-01-01T00:00:00Z");
    let mut incoming = cfg(2, "2026-01-01T00:00:00Z");
    incoming.producers.push(serde_json::Value::String("mac1".into()));
    assert!(current.apply_if_newer(incoming));
    assert_eq!(current.producers.len(), 1);
    assert_eq!(current.producers[0], serde_json::Value::String("mac1".into()));
}

#[test]
fn ingest_outcome_for_each_status_and_parse() {
    assert_eq!(ingest_seq_from(false, Some(Some(3))), Err(IngestError::Rejected));
    assert_eq!(ingest_seq_from(true, None), Err(IngestError::Unparsable));
    assert_eq!(ingest_seq_from(true, Some(None)), Err(IngestError::MissingSeq));
    assert_eq!(ingest_seq_from(true, Some(Some(42))), Ok(42));
}

#[test]
fn ingest_answer_yields_its_seq() {
    assert_eq!(ingest_result(true, "{\"seq\":7}"), Ok(7));
    assert_eq!(ingest_result(true, "{\"ok\":true,\"seq\":18446744073709551615}"), Ok(u64::MAX));
}

#[test]
fn ingest_answer_errors() {
    assert_eq!(ingest_result(false, "{\"seq\":7}"), Err(IngestError::Rejected));
    assert_eq!(ingest_result(true, "not json"), Err(IngestError::Unparsable));
    assert_eq!(ingest_result(true, ""), Err(IngestError::Unparsable));
    assert_eq!(ingest_result(true, "{}"), Err(IngestError::MissingSeq));
    assert_eq!(ingest_result(true, "{\"seq\":-1}"), Err(IngestError::MissingSeq));
    assert_eq!(ingest_result(true, "{\"seq\":\"7\"}"), Err(IngestError::MissingSeq));
    assert_eq!(ingest_result(true, "[7]"), Err(IngestError::MissingSeq));
}
