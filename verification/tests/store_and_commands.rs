use std::path::PathBuf;

use chrono::{DateTime, Utc};

use templify::cli::{
    find_template, plan_new_template, project_dir_depth, CommandError, NewTemplateCommand,
};
use templify::store::{TemplateRecord, TemplateStore};
use templify::timestamp::{
    now_timestamp, timestamp_from, timestamp_seconds, UTC_MAX_TIMESTAMP, UTC_MIN_TIMESTAMP,
};
use templify::template_service::{
    build_prompt_messages, TemplateBuildInput, TemplateGenerationPayload, TemplateService,
    PROMPT_INSTRUCTIONS, SYSTEM_PROMPT,
};

fn record(key: &str, template: &str) -> TemplateRecord {
    TemplateRecord {
        key: key.to_string(),
        description: format!("about {key}"),
        template: template.to_string(),
        created_at: 7,
    }
}

fn new_cmd(key: &str, force: bool) -> NewTemplateCommand {
    NewTemplateCommand { key: key.to_string(), prompt: None, device_index: None, force }
}

#[test]
fn store_upsert_then_get() {
    let mut store = TemplateStore::open(PathBuf::from("data/templates.json"), vec![]);
    assert!(!store.contains("a"));
    assert!(store.get("a").is_none());
    store.upsert(record("a", "one"));
    store.upsert(record("b", "two"));
    assert!(store.contains("a"));
    assert_eq!(store.get("a").unwrap().template, "one");
    store.upsert(record("a", "three"));
    assert_eq!(store.get("a").unwrap().template, "three");
    assert_eq!(store.get("b").unwrap().template, "two");
    assert_eq!(store.entries().len(), 2);
    assert_eq!(store.path(), &PathBuf::from("data/templates.json"));
}

#[test]
fn store_open_later_entry_wins() {
    let store = TemplateStore::open(
        PathBuf::from("t.json"),
        vec![
            ("k".to_string(), record("k", "first")),
            ("m".to_string(), record("m", "other")),
            ("k".to_string(), record("k", "second")),
        ],
    );
    assert_eq!(store.get("k").unwrap().template, "second");
    assert_eq!(store.entries().len(), 2);
}

#[test]
fn store_map_key_may_differ_from_record_key() {
    let store = TemplateStore::open(PathBuf::from("t.json"), vec![("alias".to_string(), record("real", "x"))]);
    assert_eq!(store.get("alias").unwrap().key, "real");
    assert!(!store.contains("real"));
}

#[test]
fn plan_new_template_trims_inputs() {
    let store = TemplateStore::open(PathBuf::from("t.json"), vec![]);
    let input = plan_new_template(&store, &new_cmd("k", false), "  make it  ", "\n data \n").unwrap();
    assert_eq!(input.user_request, "make it");
    assert_eq!(input.source_data, "data");
}

#[test]
fn plan_new_template_refuses_empty_input() {
    let store = TemplateStore::open(PathBuf::from("t.json"), vec![]);
    let e = plan_new_template(&store, &new_cmd("k", false), "  ", "").unwrap_err();
    assert!(matches!(e, CommandError::EmptyInput));
    assert_eq!(
        e.message(),
        "Template input is empty. Voice transcription returned no text and clipboard is empty."
    );
}

#[test]
fn plan_new_template_refuses_existing_key_without_force() {
    let mut store = TemplateStore::open(PathBuf::from("t.json"), vec![]);
    store.upsert(record("k", "x"));
    let e = plan_new_template(&store, &new_cmd("k", false), "desc", "").unwrap_err();
    assert_eq!(e.message(), "Template key 'k' already exists. Use --force to overwrite.");
    let ok = plan_new_template(&store, &new_cmd("k", true), "desc", "").unwrap();
    assert_eq!(ok.user_request, "desc");
    assert_eq!(ok.source_data, "");
}

#[test]
fn find_template_reports_missing_key() {
    let mut store = TemplateStore::open(PathBuf::from("t.json"), vec![]);
    store.upsert(record("k", "x"));
    assert_eq!(find_template(&store, "k").unwrap().template, "x");
    let e = find_template(&store, "nope").unwrap_err();
    assert_eq!(e.message(), "Template key 'nope' not found");
}

#[test]
fn project_dir_depth_cases() {
    let n = |v: &[Option<&str>]| -> Vec<Option<String>> { v.iter().map(|o| o.map(|s| s.to_string())).collect() };
    assert_eq!(project_dir_depth(&n(&[Some("bin"), Some("proj"), None])), Some(1));
    assert_eq!(project_dir_depth(&n(&[Some("bin")])), None);
    assert_eq!(project_dir_depth(&n(&[Some("release"), Some("target"), Some("proj"), None])), Some(2));
    assert_eq!(project_dir_depth(&n(&[Some("release"), Some("target")])), None);
    assert_eq!(project_dir_depth(&n(&[Some("debug"), Some("target"), None])), None);
    assert_eq!(project_dir_depth(&n(&[])), None);
}

#[test]
fn build_record_trims_answer() {
    let service = TemplateService::new();
    let payload = TemplateGenerationPayload {
        description: "  A greeting \n".to_string(),
        template: "\nHello $1\n".to_string(),
    };
    let rec = service.build_record("greet", &payload, 1_700_000_000);
    assert_eq!(rec.key, "greet");
    assert_eq!(rec.description, "A greeting");
    assert_eq!(rec.template, "Hello $1");
    assert_eq!(rec.created_at, 1_700_000_000);
}

#[test]
fn prompt_messages_shape() {
    let input = TemplateBuildInput { user_request: "  mail to $1 ".to_string(), source_data: " ".to_string() };
    let messages = build_prompt_messages(&input);
    assert_eq!(messages.len(), 2);
    assert_eq!(messages[0].role, "system");
    assert_eq!(messages[0].content, SYSTEM_PROMPT);
    assert_eq!(messages[1].role, "user");
    assert_eq!(
        messages[1].content,
        format!("Input:\nuser_request: mail to $1\ndata: <empty>\n\n{PROMPT_INSTRUCTIONS}")
    );
    assert!(messages[1].content.ends_with("{\"description\":\"...\",\"template\":\"...\"}"));
}

#[test]
fn prompt_messages_with_data_and_empty_request() {
    let input = TemplateBuildInput { user_request: "".to_string(), source_data: " row 1 ".to_string() };
    let messages = build_prompt_messages(&input);
    assert!(messages[1].content.starts_with(
        "Input:\nuser_request: <empty>\ndata (for understanding only; never copy literally):\nrow 1\n\nInterpret `user_request`"
    ));
}

#[test]
fn store_entries_reopened_in_other_order_hold_the_same() {
    let mut store = TemplateStore::open(PathBuf::from("t.json"), vec![]);
    store.upsert(record("a", "1"));
    store.upsert(record("b", "2"));
    store.upsert(record("c", "3"));
    let mut entries: Vec<(String, TemplateRecord)> =
        store.entries().iter().map(|(k, r)| (k.clone(), r.clone())).collect();
    entries.reverse();
    let reopened = TemplateStore::open(PathBuf::from("t.json"), entries);
    for key in ["a", "b", "c"] {
        assert_eq!(reopened.get(key).unwrap().template, store.get(key).unwrap().template);
    }
    assert!(!reopened.contains("d"));
}

#[test]
fn timestamp_from_elapsed_seconds() {
    assert_eq!(timestamp_from(Some(42)), 42);
    assert_eq!(timestamp_from(None), 0);
    assert!(now_timestamp() > 1_600_000_000);
}

#[test]
fn timestamp_seconds_validity() {
    assert_eq!(timestamp_seconds(1_700_000_000), Some(1_700_000_000));
    assert_eq!(timestamp_seconds(0), Some(0));
    assert_eq!(timestamp_seconds(u64::MAX), None);
    assert_eq!(timestamp_seconds(i64::MAX as u64), None);
}

#[test]
fn timestamp_bounds_match_chrono() {
    assert!(DateTime::<Utc>::from_timestamp(UTC_MIN_TIMESTAMP, 0).is_some());
    assert!(DateTime::<Utc>::from_timestamp(UTC_MIN_TIMESTAMP - 1, 0).is_none());
    assert!(DateTime::<Utc>::from_timestamp(UTC_MAX_TIMESTAMP, 0).is_some());
    assert!(DateTime::<Utc>::from_timestamp(UTC_MAX_TIMESTAMP + 1, 0).is_none());
    assert_eq!(timestamp_seconds(UTC_MAX_TIMESTAMP as u64), Some(UTC_MAX_TIMESTAMP));
    assert_eq!(timestamp_seconds(UTC_MAX_TIMESTAMP as u64 + 1), None);
}
