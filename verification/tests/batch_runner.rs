use notification_settings::batching::{batch_failure_warning, count_failures, describe_batch, UserBatcher, BATCH_SIZE};
use notification_settings::members::{found_ids, member_server_id, membership_server_ids, MemberRecord};
use notification_settings::stats::Statistics;
use notification_settings::text::{decimal_string, join_strings};
use std::time::Duration;

fn ids(names: &[&str]) -> Vec<String> {
    names.iter().map(|s| s.to_string()).collect()
}

#[test]
fn decimal_matches_to_string() {
    for n in [0u64, 7, 10, 99, 100, 1234567890, u64::MAX] {
        assert_eq!(decimal_string(n), n.to_string());
    }
}

#[test]
fn join_matches_std_join() {
    assert_eq!(join_strings(&ids(&[]), ", "), "");
    assert_eq!(join_strings(&ids(&["a"]), ", "), "a");
    assert_eq!(join_strings(&ids(&["a", "b", "c"]), ", "), "a, b, c");
}

#[test]
fn statistics_start_with_skipped_users_processed() {
    let s = Statistics::new(50, 7);
    assert_eq!((s.total_users, s.processed_users, s.skipped_users, s.successful_users, s.failed_users), (50, 7, 7, 0, 0));
    assert!(s.last_processed_users.is_empty());
    assert_eq!(s.last_batch_duration, Duration::from_secs(0));
    assert_eq!(s.start_time, s.last_log_time);
    assert_eq!(s.start_time, s.batch_start_time);
    assert_eq!(s.recent_users_text(), "None");
}

#[test]
fn statistics_count_and_keep_last_ten_successes() {
    let mut s = Statistics::new(100, 0);
    for i in 0..12 {
        s.user_processed(&format!("u{}", i), true);
    }
    s.user_processed("bad", false);
    assert_eq!((s.processed_users, s.successful_users, s.failed_users), (13, 12, 1));
    assert_eq!(s.last_processed_users, (2..12).map(|i| format!("u{}", i)).collect::<Vec<_>>());
    assert_eq!(s.recent_users_text(), "u2, u3, u4, u5, u6, u7, u8, u9, u10, u11");
}

#[test]
fn counters_add_up_over_a_run() {
    let mut s = Statistics::new(20, 4);
    for i in 0..9 {
        s.user_processed(&format!("u{}", i), i % 3 != 0);
        s.last_log_time = std::time::Instant::now();
        if i % 4 == 0 {
            s.batch_completed(Duration::from_millis(i));
        }
    }
    assert_eq!(s.processed_users, s.skipped_users + s.successful_users + s.failed_users);
    assert_eq!((s.total_users, s.skipped_users, s.successful_users, s.failed_users), (20, 4, 6, 3));
    assert!(s.last_processed_users.len() <= 10);
}

#[test]
fn batch_duration_is_recorded() {
    let mut s = Statistics::new(1, 0);
    s.batch_completed(Duration::from_millis(1500));
    assert_eq!(s.last_batch_duration, Duration::from_millis(1500));
}

#[test]
fn batcher_hands_out_full_batches_and_skips_processed_users() {
    let mut b = UserBatcher::new();
    let mut batches = Vec::new();
    for i in 0..260 {
        let processed = i % 5 == 0;
        if let Some(batch) = b.offer(format!("u{}", i), processed) {
            batches.push(batch);
        }
    }
    let rest = b.finish().unwrap();
    assert_eq!(batches.len(), 2);
    assert!(batches.iter().all(|x| x.len() == BATCH_SIZE));
    let expected: Vec<String> = (0..260).filter(|i| i % 5 != 0).map(|i| format!("u{}", i)).collect();
    let mut all: Vec<String> = batches.concat();
    all.extend(rest.clone());
    assert_eq!(all, expected);
    assert_eq!(rest.len(), 8);
}

#[test]
fn batcher_with_nothing_pending_finishes_empty() {
    let mut b = UserBatcher::new();
    assert_eq!(b.offer("x".to_string(), true), None);
    assert_eq!(b.finish(), None);
}

#[test]
fn batch_descriptions() {
    assert_eq!(describe_batch(&ids(&["a", "b", "c", "d", "e"])), "a, b, c, d, e");
    assert_eq!(describe_batch(&ids(&["a", "b", "c", "d", "e", "f"])), "a, b and 4 others");
    assert_eq!(describe_batch(&ids(&[])), "");
}

fn member(id_server: Option<&str>, server: Option<&str>) -> Option<MemberRecord> {
    Some(MemberRecord { id_server: id_server.map(|s| s.to_string()), server: server.map(|s| s.to_string()) })
}

#[test]
fn membership_prefers_the_id_object() {
    let m = member(Some("inner"), Some("outer")).unwrap();
    assert_eq!(member_server_id(&m), Some("inner".to_string()));
    let m = member(None, Some("outer")).unwrap();
    assert_eq!(member_server_id(&m), Some("outer".to_string()));
    let m = member(None, None).unwrap();
    assert_eq!(member_server_id(&m), None);
}

#[test]
fn membership_servers_are_distinct_and_skip_failures() {
    let records = vec![member(Some("s1"), None), None, member(None, Some("s2")), member(None, Some("s1")), member(None, None)];
    assert_eq!(membership_server_ids(&records), ids(&["s1", "s2"]));
}

#[test]
fn found_channel_ids_are_distinct() {
    let found = vec![Some("c1".to_string()), None, Some("c2".to_string()), Some("c1".to_string())];
    assert_eq!(found_ids(&found), ids(&["c1", "c2"]));
}

#[test]
fn status_log_is_due_after_five_seconds() {
    let mut s = Statistics::new(10, 0);
    let before = s.last_log_time;
    let later = before + Duration::from_secs(7);
    assert!(!s.begin_status_log(later, 4));
    assert_eq!(s.last_log_time, before);
    assert!(s.begin_status_log(later, 5));
    assert_eq!(s.last_log_time, later);
}

#[test]
fn remaining_users_is_the_difference() {
    let mut s = Statistics::new(10, 3);
    s.user_processed("a", true);
    assert_eq!(s.remaining_users(), 6);
}

#[test]
fn failures_are_counted_and_warned() {
    assert_eq!(count_failures(&vec![true, false, false, true]), 2);
    assert_eq!(batch_failure_warning(&vec![true, true]), None);
    assert_eq!(batch_failure_warning(&vec![]), None);
    assert_eq!(
        batch_failure_warning(&vec![false, true, false, false]),
        Some("WARNING: 3 users in this batch failed to process".to_string())
    );
}

#[test]
fn overfull_pending_batch_is_handed_out() {
    let mut b = UserBatcher::new();
    b.pending = (0..120).map(|i| format!("p{}", i)).collect();
    let out = b.offer("x".to_string(), false).unwrap();
    assert_eq!(out.len(), 121);
    assert!(b.pending.is_empty());
}
