use notification_settings::error::ApiError;
use notification_settings::notifications::{
    notifications_setting, channel_settings_text, checked_channel_settings_text, checked_server_settings_text,
    notification_preferences_setting, preferences_text, server_settings_text,
};
use notification_settings::tasks::NotificationMode;

fn as_json(text: &str) -> serde_json::Value {
    serde_json::from_str(text).unwrap()
}

#[test]
fn nothing_stored_gives_default_with_server_marked() {
    let text = server_settings_text(None, "s1").unwrap();
    assert_eq!(as_json(&text), as_json(r#"{"server":{"s1":"all"},"channel":{}}"#));
}

#[test]
fn unparseable_text_starts_from_default() {
    let text = channel_settings_text(Some("{not json"), "c1").unwrap();
    assert_eq!(as_json(&text), as_json(r#"{"server":{},"channel":{"c1":"all"}}"#));
}

#[test]
fn stored_text_keeps_its_other_settings() {
    let stored = r#"{"server":{"s0":"mention"},"channel":{"c1":"none"},"extra":[1,2.5,true,null]}"#;
    let text = server_settings_text(Some(stored), "s1").unwrap();
    assert_eq!(
        as_json(&text),
        as_json(r#"{"server":{"s0":"mention","s1":"all"},"channel":{"c1":"none"},"extra":[1,2.5,true,null]}"#)
    );
    let text = channel_settings_text(Some(stored), "c1").unwrap();
    assert_eq!(
        as_json(&text),
        as_json(r#"{"server":{"s0":"mention"},"channel":{"c1":"all"},"extra":[1,2.5,true,null]}"#)
    );
}

#[test]
fn stored_null_becomes_object() {
    let text = server_settings_text(Some("null"), "s1").unwrap();
    assert_eq!(as_json(&text), as_json(r#"{"server":{"s1":"all"}}"#));
}

#[test]
fn stored_section_that_is_not_an_object_fails() {
    assert_eq!(server_settings_text(Some(r#"{"server":"x"}"#), "s1"), Err(ApiError::InvalidOperation));
    assert_eq!(channel_settings_text(Some(r#"{"channel":[]}"#), "c1"), Err(ApiError::InvalidOperation));
}

#[test]
fn checked_text_refuses_documents_that_are_not_objects() {
    assert_eq!(checked_server_settings_text(Some("[1,2]"), "s1"), None);
    assert_eq!(checked_channel_settings_text(Some("\"text\""), "c1"), None);
    assert_eq!(checked_server_settings_text(Some("{bad"), "s1").map(|r| r.is_ok()), Some(true));
    let text = checked_channel_settings_text(None, "c1").unwrap().unwrap();
    assert_eq!(as_json(&text), as_json(r#"{"server":{},"channel":{"c1":"all"}}"#));
    assert_eq!(
        checked_server_settings_text(Some(r#"{"server":1}"#), "s1"),
        Some(Err(ApiError::InvalidOperation))
    );
}

#[test]
fn preferences_text_lists_every_id() {
    let servers = vec!["s2".to_string(), "s1".to_string(), "s2".to_string()];
    let channels = vec!["c1".to_string()];
    let text = preferences_text(&servers, &channels, NotificationMode::All).unwrap();
    assert_eq!(as_json(&text), as_json(r#"{"server":{"s1":"all","s2":"all"},"channel":{"c1":"all"}}"#));
}

#[test]
fn preferences_setting_uses_its_key_and_time() {
    let (key, (time, text)) =
        notification_preferences_setting(&vec![], &vec!["d".to_string()], NotificationMode::Mute, 1234).unwrap();
    assert_eq!(key, "notification_preferences");
    assert_eq!(time, 1234);
    assert_eq!(as_json(&text), as_json(r#"{"server":{},"channel":{"d":"mention"}}"#));
}

#[test]
fn marking_twice_saves_the_same_text() {
    let stored = r#"{"server":{"s0":"none"},"channel":{}}"#;
    let once = server_settings_text(Some(stored), "s1").unwrap();
    let twice = server_settings_text(Some(&once), "s1").unwrap();
    assert_eq!(once, twice);
}

#[test]
fn channel_update_keeps_the_marked_server() {
    let first = server_settings_text(None, "s1").unwrap();
    let second = channel_settings_text(Some(&first), "c1").unwrap();
    let doc = as_json(&second);
    assert_eq!(doc["server"]["s1"], "all");
    assert_eq!(doc["channel"]["c1"], "all");
}

#[test]
fn saved_text_reads_back_in_order() {
    let text = server_settings_text(Some(r#"{"b":{"x":"y"},"server":{"z":"none"},"a":true}"#), "s1").unwrap();
    assert_eq!(text, r#"{"b":{"x":"y"},"server":{"z":"none","s1":"all"},"a":true}"#);
}

#[test]
fn notifications_entry_has_key_time_and_text() {
    let (key, (time, text)) = notifications_setting(99, "{}".to_string());
    assert_eq!((key.as_str(), time, text.as_str()), ("notifications", 99, "{}"));
}
