use dc_bot::models::Notice;
use dc_bot::models::NoticeType;
use dc_bot::queue::merge_store_records;
use dc_bot::queue::MessageItem;
use dc_bot::queue::MessageQueue;
use dc_bot::queue::RetryStatus;
use dc_bot::queue::MAX_RETRIES;

fn notice(id: u64, notice_type: &str, time: u64) -> Notice {
    Notice { id, notice_type: notice_type.to_string(), values: Vec::new(), time }
}

fn item_for(id_text: &str, notice_id: u64, time: u64, now: u64) -> MessageItem {
    MessageItem::new(
        id_text.to_string(),
        notice(notice_id, "Normal", time),
        NoticeType::Normal,
        None,
        1,
        "https://ctf.example".to_string(),
        now,
    )
}

#[test]
fn fresh_item_is_due_two_seconds_after_enqueue() {
    let item = item_for("1:2:200", 2, 200, 1000);
    assert_eq!(item.retry_count, 0);
    assert_eq!(item.next_retry_at, 1002);
    assert!(!item.can_retry(1001));
    assert!(item.can_retry(1002));
    assert!(!item.should_persist());
}

#[test]
fn calc_delay_doubles_with_each_failure() {
    // Delay after the n-th failure (0-indexed) is 2^(n+1) seconds.
    let mut item = item_for("1:2:200", 2, 200, 0);
    let mut expected: Vec<u64> = Vec::new();
    for rc in 0u8..5 {
        item.retry_count = rc;
        expected.push(item.calc_delay());
    }
    assert_eq!(expected, vec![2, 4, 8, 16, 32]);
}

#[test]
fn increment_retry_schedules_the_next_delay() {
    let mut item = item_for("1:2:200", 2, 200, 1000);
    item.increment_retry(5000);
    assert_eq!(item.retry_count, 1);
    assert_eq!(item.next_retry_at, 5004);
    item.increment_retry(6000);
    assert_eq!(item.retry_count, 2);
    assert_eq!(item.next_retry_at, 6008);
}

#[test]
fn due_items_snapshots_only_what_is_due() {
    let mut q = MessageQueue::new();
    q.enqueue(item_for("1:1:100", 1, 100, 1000)); // due at 1002
    q.enqueue(item_for("1:2:200", 2, 200, 2000)); // due at 2002
    assert_eq!(q.due_items(1001).len(), 0);
    let due = q.due_items(1002);
    assert_eq!(due.len(), 1);
    assert_eq!(due[0].id, "1:1:100");
    let all_due = q.due_items(2002);
    assert_eq!(all_due.len(), 2);
    assert_eq!(all_due[0].id, "1:1:100");
    assert_eq!(all_due[1].id, "1:2:200");
    // The snapshot does not drain the queue.
    assert_eq!(q.len(), 2);
}

#[test]
fn retry_succeeds_on_fourth_attempt_and_is_never_persisted() {
    // The item fails its first three retries (delays 2s, 4s, 8s after the
    // previous attempt) and succeeds on the fourth scheduled attempt: it
    // leaves the queue and nothing ever goes to the store.
    let mut q = MessageQueue::new();
    let id = "1:2:200".to_string();
    q.enqueue(item_for(&id, 2, 200, 1000));
    assert_eq!(q.due_items(1002).len(), 1);

    assert_eq!(q.mark_failed(&id, 1002), RetryStatus::Rescheduled);
    assert_eq!(q.due_items(1005).len(), 0);
    assert_eq!(q.due_items(1006).len(), 1); // 2^2 = 4s later

    assert_eq!(q.mark_failed(&id, 1006), RetryStatus::Rescheduled);
    assert_eq!(q.due_items(1013).len(), 0);
    assert_eq!(q.due_items(1014).len(), 1); // 2^3 = 8s later

    assert_eq!(q.mark_failed(&id, 1014), RetryStatus::Rescheduled);
    assert_eq!(q.due_items(1029).len(), 0);
    assert_eq!(q.due_items(1030).len(), 1); // 2^4 = 16s later

    assert_eq!(q.pending_persist().len(), 0);
    q.mark_delivered(&id);
    assert_eq!(q.len(), 0);
    assert_eq!(q.pending_persist().len(), 0);
}

#[test]
fn item_fails_exactly_four_retries_before_persistence() {
    // Never three: after three failed retries the item is still queued and
    // nothing awaits the store. Never five: the fourth failure promotes it.
    let mut q = MessageQueue::new();
    let id = "1:3:300".to_string();
    q.enqueue(item_for(&id, 3, 300, 1000));
    for _ in 0..3 {
        assert_eq!(q.mark_failed(&id, 2000), RetryStatus::Rescheduled);
        assert_eq!(q.pending_persist().len(), 0);
    }
    assert_eq!(q.mark_failed(&id, 2000), RetryStatus::AwaitingPersist);
    let pending = q.pending_persist();
    assert_eq!(pending.len(), 1);
    assert_eq!(pending[0].id, id);
    assert_eq!(pending[0].retry_count, MAX_RETRIES);
    // Still in memory until the durable write is confirmed.
    assert_eq!(q.len(), 1);

    let store = merge_store_records(Vec::new(), pending);
    assert_eq!(store.len(), 1);
    assert_eq!(store[0].id, id);

    q.confirm_persisted();
    assert_eq!(q.len(), 0);
    assert_eq!(q.pending_persist().len(), 0);
}

#[test]
fn failed_store_write_keeps_the_item_in_memory() {
    // If the durable write fails, the application simply does not confirm:
    // the item stays queued, and a later failure reports it again without
    // driving the count past the budget.
    let mut q = MessageQueue::new();
    let id = "1:3:300".to_string();
    q.enqueue(item_for(&id, 3, 300, 1000));
    for _ in 0..4 {
        q.mark_failed(&id, 2000);
    }
    assert_eq!(q.len(), 1);
    assert_eq!(q.mark_failed(&id, 9000), RetryStatus::AwaitingPersist);
    let pending = q.pending_persist();
    assert_eq!(pending.len(), 1);
    assert_eq!(pending[0].retry_count, MAX_RETRIES);
}

#[test]
fn mark_failed_reports_unknown_ids() {
    let mut q = MessageQueue::new();
    assert_eq!(q.mark_failed(&"1:9:900".to_string(), 1000), RetryStatus::NotFound);
    q.enqueue(item_for("1:1:100", 1, 100, 1000));
    assert_eq!(q.mark_failed(&"1:9:900".to_string(), 1000), RetryStatus::NotFound);
    assert_eq!(q.len(), 1);
}

#[test]
fn mark_delivered_removes_only_the_matching_item() {
    let mut q = MessageQueue::new();
    q.enqueue(item_for("1:1:100", 1, 100, 1000));
    q.enqueue(item_for("1:2:200", 2, 200, 1000));
    q.mark_delivered(&"1:1:100".to_string());
    assert_eq!(q.len(), 1);
    let rest = q.snapshot_items();
    assert_eq!(rest[0].id, "1:2:200");
}

#[test]
fn reload_restores_items_with_their_stored_retry_state() {
    // A restart finds one stored record for id 3: after loading, the item is
    // queued with its prior retry count and the (consumed) store no longer
    // holds it.
    let mut stored = item_for("1:3:300", 3, 300, 1000);
    stored.retry_count = 2;
    stored.next_retry_at = 500;
    let mut q = MessageQueue::new();
    q.load_persisted(vec![stored]);
    assert_eq!(q.len(), 1);
    let loaded = q.snapshot_items();
    assert_eq!(loaded[0].id, "1:3:300");
    assert_eq!(loaded[0].retry_count, 2);
    assert_eq!(loaded[0].next_retry_at, 500);
    assert_eq!(q.due_items(500).len(), 1);
}

#[test]
fn load_appends_behind_current_items() {
    let mut q = MessageQueue::new();
    q.enqueue(item_for("1:1:100", 1, 100, 1000));
    q.load_persisted(vec![item_for("1:2:200", 2, 200, 1000), item_for("1:3:300", 3, 300, 1000)]);
    let all = q.snapshot_items();
    let ids: Vec<String> = all.iter().map(|m| m.id.clone()).collect();
    assert_eq!(ids, vec!["1:1:100", "1:2:200", "1:3:300"]);
}

#[test]
fn shutdown_flush_preserves_every_queued_item_exactly_once() {
    // Everything still in memory at shutdown is appended behind the store's
    // existing records, with no loss and no duplicates.
    let mut q = MessageQueue::new();
    q.enqueue(item_for("1:1:100", 1, 100, 1000));
    let mut second = item_for("1:2:200", 2, 200, 1000);
    second.retry_count = 2;
    q.enqueue(second);

    let existing = vec![item_for("1:9:900", 9, 900, 50)];
    let store = merge_store_records(existing, q.snapshot_items());
    let ids: Vec<String> = store.iter().map(|m| m.id.clone()).collect();
    assert_eq!(ids, vec!["1:9:900", "1:1:100", "1:2:200"]);
    assert_eq!(store.iter().filter(|m| m.id == "1:1:100").count(), 1);
    assert_eq!(store.iter().filter(|m| m.id == "1:2:200").count(), 1);
    assert_eq!(store[2].retry_count, 2);
}

#[test]
fn enqueue_keeps_arrival_order() {
    let mut q = MessageQueue::new();
    q.enqueue(item_for("1:1:100", 1, 100, 1000));
    q.enqueue(item_for("1:2:200", 2, 200, 1000));
    q.enqueue(item_for("1:3:300", 3, 300, 1000));
    let ids: Vec<String> = q.snapshot_items().iter().map(|m| m.id.clone()).collect();
    assert_eq!(ids, vec!["1:1:100", "1:2:200", "1:3:300"]);
}
