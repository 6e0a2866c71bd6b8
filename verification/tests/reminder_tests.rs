use aoe4_ladder::clock::elapsed_days;
use aoe4_ladder::messages::{
    bind_message, bind_required_message, clear_reminder_message, decide_remind, reminder_notice,
    reminder_notice_at, set_reminder_message, RemindAction,
};
use aoe4_ladder::reminder::{is_eligible, ReminderRecord, ReminderStore};

const NOW: i64 = 1_700_000_000;
const DAY: i64 = 86400;

fn store_with(records: Vec<ReminderRecord>) -> ReminderStore {
    let mut store = ReminderStore::new();
    for rec in records {
        store.set_threshold(rec.user_id, rec.threshold_days, rec.last_played);
        store.touch_last_played(rec.user_id, rec.last_played);
        if let Some(t) = rec.last_reminded {
            store.touch_last_reminded(rec.user_id, t);
        }
    }
    store
}

fn record(user_id: i64, threshold_days: i32, last_played: i64, last_reminded: Option<i64>) -> ReminderRecord {
    ReminderRecord { user_id, threshold_days, last_played, last_reminded }
}

#[test]
fn set_and_clear_threshold() {
    let mut store = ReminderStore::new();
    store.set_threshold(1, 7, NOW);
    assert_eq!(store.records.len(), 1);
    assert_eq!(store.records[0].threshold_days, 7);
    assert_eq!(store.records[0].last_played, NOW);
    assert!(store.records[0].last_reminded.is_none());
    store.set_threshold(1, 3, NOW + DAY);
    assert_eq!(store.records.len(), 1);
    assert_eq!(store.records[0].threshold_days, 3);
    assert_eq!(store.records[0].last_played, NOW);
    store.clear_threshold(1);
    assert!(store.records.is_empty());
    store.clear_threshold(1);
    assert!(store.records.is_empty());
}

#[test]
fn last_played_never_regresses() {
    let mut store = ReminderStore::new();
    store.set_threshold(9, 7, NOW);
    store.touch_last_played(9, NOW - 100 * DAY);
    assert_eq!(store.records[0].last_played, NOW);
    store.touch_last_played(9, NOW + DAY);
    assert_eq!(store.records[0].last_played, NOW + DAY);
    store.touch_last_played(9, NOW + DAY);
    assert_eq!(store.records[0].last_played, NOW + DAY);
    store.touch_last_played(555, NOW + 50 * DAY);
    assert_eq!(store.records.len(), 1);
    assert_eq!(store.records[0].last_played, NOW + DAY);
}

#[test]
fn eligibility_needs_threshold_exceeded() {
    let idle = record(1, 7, NOW - 8 * DAY, None);
    assert!(is_eligible(idle, NOW));
    let active = record(2, 7, NOW - 6 * DAY, None);
    assert!(!is_eligible(active, NOW));
    let boundary = record(3, 7, NOW - 7 * DAY, None);
    assert!(!is_eligible(boundary, NOW));
}

#[test]
fn cooldown_blocks_until_it_lapses() {
    let reminded_now = record(1, 7, NOW - 30 * DAY, Some(NOW));
    assert!(!is_eligible(reminded_now, NOW));
    let inside_window = record(1, 7, NOW - 30 * DAY, Some(NOW - 5 * DAY));
    assert!(!is_eligible(inside_window, NOW));
    let just_past = record(1, 7, NOW - 30 * DAY, Some(NOW - 5 * DAY - 1));
    assert!(is_eligible(just_past, NOW));
    let never_reminded = record(1, 7, NOW - 30 * DAY, None);
    assert!(is_eligible(never_reminded, NOW));
}

#[test]
fn list_due_keeps_only_eligible_in_order() {
    let store = store_with(vec![
        record(1, 7, NOW - 8 * DAY, None),
        record(2, 7, NOW - 6 * DAY, None),
        record(3, 2, NOW - 10 * DAY, Some(NOW - 6 * DAY)),
        record(4, 2, NOW - 10 * DAY, Some(NOW - 2 * DAY)),
    ]);
    let due = store.list_due(NOW);
    let users: Vec<i64> = due.iter().map(|r| r.user_id).collect();
    assert_eq!(users, vec![1, 3]);
}

#[test]
fn reminded_member_becomes_eligible_again() {
    let mut store = store_with(vec![record(8, 3, NOW - 20 * DAY, None)]);
    let due = store.list_due(NOW);
    assert_eq!(due.len(), 1);
    store.touch_last_reminded(8, NOW);
    assert!(store.list_due(NOW + DAY).is_empty());
    assert!(store.list_due(NOW + 5 * DAY).is_empty());
    let again = store.list_due(NOW + 5 * DAY + 1);
    assert_eq!(again.len(), 1);
    assert_eq!(again[0].user_id, 8);
}

#[test]
fn remind_decision_variants() {
    assert_eq!(decide_remind(false, 7), RemindAction::Reject);
    assert_eq!(decide_remind(true, 7), RemindAction::Enable(7));
    assert_eq!(decide_remind(true, 0), RemindAction::Disable);
    assert_eq!(decide_remind(true, -3), RemindAction::Disable);
}

#[test]
fn reply_messages_bytes() {
    assert_eq!(
        bind_message(720955323183267840, 13753974),
        "綁定discord帳號 `720955323183267840` 與世紀帝國四帳號 `13753974` "
    );
    assert_eq!(
        set_reminder_message(7),
        "新增天梯提醒 如果7天沒打單挑積分將會有溫馨提示 敬請期待"
    );
    assert_eq!(clear_reminder_message(), "已解除天梯提醒");
    assert_eq!(bind_required_message(), "需要先綁定天梯榜才能夠使用提醒功能！");
}

#[test]
fn notice_carries_idle_days() {
    assert_eq!(reminder_notice(9), "溫馨提醒：已經耍廢9天囉 該爬天梯了！");
    assert_eq!(
        reminder_notice_at(NOW - 9 * DAY - 30, NOW),
        "溫馨提醒：已經耍廢9天囉 該爬天梯了！"
    );
}

#[test]
fn elapsed_days_truncates_toward_zero() {
    assert_eq!(elapsed_days(NOW - 86399, NOW), 0);
    assert_eq!(elapsed_days(NOW - 86400, NOW), 1);
    assert_eq!(elapsed_days(NOW + 3 * DAY, NOW), -3);
}
