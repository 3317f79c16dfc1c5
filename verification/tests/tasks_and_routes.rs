use notification_settings::error::ApiError;
use notification_settings::invites::{check_joining_user, join_notification_targets, JoinedInvite, NotificationTarget};
use notification_settings::push::{subscribe, PushSubscription, SessionRecord, SubscribeOutcome};
use notification_settings::tasks::{
    check_task_status, mode_text, queued_task_response, set_all_notifications, task_status_response,
    NotificationMode, NotificationModeRequest,
};

const QUEUED: &str = "Notification update job queued successfully. Changes will be applied in the background.";
const PROCESSING: &str = "Task is being processed. Check your notification settings in a few minutes.";

#[test]
fn mode_texts() {
    assert_eq!(mode_text(NotificationMode::All), "all");
    assert_eq!(mode_text(NotificationMode::Mute), "mention");
}

#[test]
fn queued_response_sets_resync_only_when_asked() {
    let r = queued_task_response("t".to_string(), true);
    assert_eq!(r.task_id, "t");
    assert_eq!(r.message, QUEUED);
    assert_eq!(r.skip_resync, Some(true));
    let r = queued_task_response("t".to_string(), false);
    assert_eq!(r.skip_resync, None);
}

#[test]
fn issued_task_id_is_accepted_by_status_check() {
    let (resp, mode) = set_all_notifications(NotificationModeRequest { mode_type: NotificationMode::Mute, skip_resync: false });
    assert_eq!(mode, NotificationMode::Mute);
    assert_eq!(resp.task_id.len(), 36);
    assert_eq!(resp.message, QUEUED);
    assert_eq!(resp.skip_resync, None);
    let status = check_task_status(resp.task_id.clone()).unwrap();
    assert_eq!(status.task_id, resp.task_id);
    assert_eq!(status.message, PROCESSING);
    assert_eq!(status.skip_resync, None);
}

#[test]
fn two_issued_ids_differ() {
    let (a, _) = set_all_notifications(NotificationModeRequest { mode_type: NotificationMode::All, skip_resync: true });
    let (b, _) = set_all_notifications(NotificationModeRequest { mode_type: NotificationMode::All, skip_resync: true });
    assert_ne!(a.task_id, b.task_id);
    assert_eq!(a.skip_resync, Some(true));
}

#[test]
fn status_accepts_every_uuid_form() {
    for id in [
        "550e8400-e29b-41d4-a716-446655440000",
        "550e8400e29b41d4a716446655440000",
        "{550e8400-e29b-41d4-a716-446655440000}",
        "urn:uuid:550e8400-e29b-41d4-a716-446655440000",
        "URN:UUID:550E8400-E29B-41D4-A716-446655440000",
    ] {
        assert!(check_task_status(id.to_string()).is_ok(), "{}", id);
    }
}

#[test]
fn status_rejects_malformed_ids() {
    for id in [
        "",
        "not-a-uuid",
        "550e8400-e29b-41d4-a716-44665544000g",
        "550e8400-e29b-41d4-a716",
        "(550e8400-e29b-41d4-a716-446655440000)",
        "urx:uuid:550e8400-e29b-41d4-a716-446655440000",
        "550e8400e29b-41d4-a716-4466554400000",
    ] {
        assert_eq!(check_task_status(id.to_string()), Err(ApiError::InvalidProperty), "{}", id);
    }
}

#[test]
fn status_response_follows_the_parse_outcome() {
    assert_eq!(task_status_response("x".to_string(), false), Err(ApiError::InvalidProperty));
    let ok = task_status_response("x".to_string(), true).unwrap();
    assert_eq!(ok.message, PROCESSING);
}

fn sub(endpoint: &str, auth: &str) -> PushSubscription {
    PushSubscription { endpoint: endpoint.to_string(), p256dh: "key".to_string(), auth: auth.to_string() }
}

fn session(id: &str, subscription: Option<PushSubscription>) -> SessionRecord {
    SessionRecord { id: id.to_string(), subscription }
}

#[test]
fn apn_token_held_by_another_session_is_not_stored_again() {
    let sessions = vec![session("a", None), session("b", Some(sub("apn", "tok")))];
    assert_eq!(subscribe(Some(sessions), &"me".to_string(), sub("apn", "tok")), SubscribeOutcome::AlreadyRegistered);
}

#[test]
fn own_session_or_other_token_is_saved() {
    let sessions = vec![session("me", Some(sub("apn", "tok"))), session("b", Some(sub("apn", "other")))];
    assert_eq!(subscribe(Some(sessions), &"me".to_string(), sub("apn", "tok")), SubscribeOutcome::Save(sub("apn", "tok")));
}

#[test]
fn web_endpoints_are_always_saved() {
    let sessions = vec![session("b", Some(sub("https://push.example", "tok")))];
    assert_eq!(
        subscribe(Some(sessions), &"me".to_string(), sub("https://push.example", "tok")),
        SubscribeOutcome::Save(sub("https://push.example", "tok"))
    );
    assert_eq!(subscribe(None, &"me".to_string(), sub("apn", "tok")), SubscribeOutcome::Save(sub("apn", "tok")));
}

#[test]
fn bots_cannot_join() {
    assert_eq!(check_joining_user(true), Err(ApiError::IsBot));
    assert_eq!(check_joining_user(false), Ok(()));
}

#[test]
fn server_join_marks_server_then_channels() {
    let joined = JoinedInvite::Server { server_id: "s".to_string(), channel_ids: vec!["c1".to_string(), "c2".to_string()] };
    assert_eq!(
        join_notification_targets(&joined),
        vec![
            NotificationTarget::Server("s".to_string()),
            NotificationTarget::Channel("c1".to_string()),
            NotificationTarget::Channel("c2".to_string()),
        ]
    );
}

#[test]
fn group_join_marks_the_group_channel() {
    let joined = JoinedInvite::Group { channel_id: "g".to_string() };
    assert_eq!(join_notification_targets(&joined), vec![NotificationTarget::Channel("g".to_string())]);
}
