use notification_settings::error::ApiError;
use notification_settings::json::{find_key, object_insert, JsonValue};
use notification_settings::notifications::{
    default_notifications, notification_preferences, notifications_or_default,
    set_channel_notification_to_all, set_section_to_all, set_server_notification_to_all,
};
use notification_settings::tasks::NotificationMode;

fn text(s: &str) -> JsonValue {
    JsonValue::Str(s.to_string())
}

fn object(entries: Vec<(&str, JsonValue)>) -> JsonValue {
    JsonValue::Object(entries.into_iter().map(|(k, v)| (k.to_string(), v)).collect())
}

fn get<'a>(v: &'a JsonValue, key: &str) -> Option<&'a JsonValue> {
    match v {
        JsonValue::Object(entries) => entries.iter().find(|(k, _)| k == key).map(|(_, v)| v),
        _ => None,
    }
}

#[test]
fn default_document_has_two_empty_sections() {
    let doc = default_notifications();
    assert_eq!(doc, object(vec![("server", object(vec![])), ("channel", object(vec![]))]));
}

#[test]
fn nothing_stored_starts_from_default() {
    let doc = notifications_or_default(None);
    assert_eq!(doc, default_notifications());
    let kept = notifications_or_default(Some(text("x")));
    assert_eq!(kept, text("x"));
}

#[test]
fn server_marked_all_from_nothing_stored() {
    let doc = set_server_notification_to_all(None, "s1").unwrap();
    assert_eq!(
        doc,
        object(vec![("server", object(vec![("s1", text("all"))])), ("channel", object(vec![]))])
    );
}

#[test]
fn channel_marked_all_from_nothing_stored() {
    let doc = set_channel_notification_to_all(None, "c1").unwrap();
    assert_eq!(
        doc,
        object(vec![("server", object(vec![])), ("channel", object(vec![("c1", text("all"))]))])
    );
}

#[test]
fn null_document_becomes_object_with_section() {
    let doc = set_server_notification_to_all(Some(JsonValue::Null), "s1").unwrap();
    assert_eq!(doc, object(vec![("server", object(vec![("s1", text("all"))]))]));
}

#[test]
fn missing_section_is_created_and_other_keys_kept() {
    let stored = object(vec![("other", JsonValue::Bool(true)), ("channel", object(vec![("c9", text("muted"))]))]);
    let doc = set_server_notification_to_all(Some(stored), "s1").unwrap();
    assert_eq!(
        doc,
        object(vec![
            ("other", JsonValue::Bool(true)),
            ("channel", object(vec![("c9", text("muted"))])),
            ("server", object(vec![("s1", text("all"))])),
        ])
    );
}

#[test]
fn existing_id_is_overwritten_in_place() {
    let stored = object(vec![(
        "channel",
        object(vec![("c1", text("muted")), ("c2", text("none")), ("c3", text("mention"))]),
    )]);
    let doc = set_channel_notification_to_all(Some(stored), "c2").unwrap();
    assert_eq!(
        doc,
        object(vec![(
            "channel",
            object(vec![("c1", text("muted")), ("c2", text("all")), ("c3", text("mention"))]),
        )])
    );
}

#[test]
fn section_that_is_not_an_object_is_invalid_operation() {
    let stored = object(vec![("server", text("oops"))]);
    assert_eq!(set_server_notification_to_all(Some(stored), "s1"), Err(ApiError::InvalidOperation));
    let stored = object(vec![("channel", JsonValue::Null)]);
    assert_eq!(set_channel_notification_to_all(Some(stored), "c1"), Err(ApiError::InvalidOperation));
    let stored = object(vec![("channel", JsonValue::Array(vec![]))]);
    assert_eq!(set_channel_notification_to_all(Some(stored), "c1"), Err(ApiError::InvalidOperation));
}

#[test]
fn marking_twice_is_marking_once() {
    let once = set_server_notification_to_all(None, "s1").unwrap();
    let twice = set_section_to_all(set_server_notification_to_all(None, "s1").unwrap(), "server", "s1").unwrap();
    assert_eq!(once, twice);
}

#[test]
fn marking_a_server_leaves_channels_alone() {
    let stored = object(vec![("server", object(vec![])), ("channel", object(vec![("c1", text("muted"))]))]);
    let doc = set_server_notification_to_all(Some(stored), "s7").unwrap();
    assert_eq!(get(&doc, "channel"), Some(&object(vec![("c1", text("muted"))])));
    assert_eq!(get(get(&doc, "server").unwrap(), "s7"), Some(&text("all")));
}

#[test]
fn numbers_are_carried_through() {
    let n = serde_json::Number::from(42u64);
    let stored = object(vec![("version", JsonValue::Number(n.clone())), ("server", object(vec![]))]);
    let doc = set_server_notification_to_all(Some(stored), "s1").unwrap();
    assert_eq!(get(&doc, "version"), Some(&JsonValue::Number(n)));
}

#[test]
fn object_insert_replaces_or_appends() {
    let mut entries = vec![("a".to_string(), text("1"))];
    object_insert(&mut entries, "b".to_string(), text("2"));
    object_insert(&mut entries, "a".to_string(), text("3"));
    assert_eq!(entries, vec![("a".to_string(), text("3")), ("b".to_string(), text("2"))]);
    assert_eq!(find_key(&entries, &"b".to_string()), Some(1));
    assert_eq!(find_key(&entries, &"z".to_string()), None);
}

#[test]
fn preferences_mark_every_listed_id_once() {
    let servers = vec!["s1".to_string(), "s2".to_string(), "s1".to_string()];
    let channels = vec!["c1".to_string()];
    let doc = notification_preferences(&servers, &channels, NotificationMode::All);
    assert_eq!(
        doc,
        object(vec![
            ("server", object(vec![("s1", text("all")), ("s2", text("all"))])),
            ("channel", object(vec![("c1", text("all"))])),
        ])
    );
}

#[test]
fn mute_preferences_notify_on_mentions_only() {
    let doc = notification_preferences(&vec![], &vec!["d1".to_string()], NotificationMode::Mute);
    assert_eq!(
        doc,
        object(vec![("server", object(vec![])), ("channel", object(vec![("d1", text("mention"))]))])
    );
}
