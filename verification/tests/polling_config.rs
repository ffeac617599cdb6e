use dc_bot::config::Config;
use dc_bot::config::DiscordConfig;
use dc_bot::config::GzctfConfig;
use dc_bot::config::MatchConfig;
use dc_bot::models::Notice;
use dc_bot::models::NoticeType;
use dc_bot::polling::filter_by_type;
use dc_bot::polling::record_outcome;
use dc_bot::queue::MessageQueue;
use dc_bot::tracker::NoticeTracker;

fn notice(id: u64, notice_type: &str, time: u64) -> Notice {
    Notice { id, notice_type: notice_type.to_string(), values: Vec::new(), time }
}

fn config_with(matches: Vec<MatchConfig>, match_id: Option<u32>) -> Config {
    Config {
        discord: DiscordConfig { token: "example-token".to_string(), channel_id: 42 },
        gzctf: GzctfConfig {
            url: "https://ctf.example".to_string(),
            poll_interval: 30,
            matches,
            match_id,
        },
    }
}

#[test]
fn notice_type_parsing_covers_every_category() {
    assert_eq!(NoticeType::from_str("Normal"), Some(NoticeType::Normal));
    assert_eq!(NoticeType::from_str("NewChallenge"), Some(NoticeType::NewChallenge));
    assert_eq!(NoticeType::from_str("NewHint"), Some(NoticeType::NewHint));
    assert_eq!(NoticeType::from_str("FirstBlood"), Some(NoticeType::FirstBlood));
    assert_eq!(NoticeType::from_str("SecondBlood"), Some(NoticeType::SecondBlood));
    assert_eq!(NoticeType::from_str("ThirdBlood"), Some(NoticeType::ThirdBlood));
    assert_eq!(NoticeType::from_str("normal"), None);
    assert_eq!(NoticeType::from_str(""), None);
    assert_eq!(NoticeType::from_str("Announcement"), None);
}

#[test]
fn all_lists_the_six_categories_in_order() {
    let kinds = NoticeType::all();
    assert_eq!(
        kinds,
        vec![
            NoticeType::Normal,
            NoticeType::NewChallenge,
            NoticeType::NewHint,
            NoticeType::FirstBlood,
            NoticeType::SecondBlood,
            NoticeType::ThirdBlood
        ]
    );
}

#[test]
fn filter_by_type_keeps_order_within_the_category() {
    let fetch = vec![
        notice(1, "Normal", 100),
        notice(2, "NewHint", 150),
        notice(3, "Normal", 90),
        notice(4, "Bogus", 10),
    ];
    let normals = filter_by_type(&fetch, NoticeType::Normal);
    let ids: Vec<u64> = normals.iter().map(|n| n.id).collect();
    assert_eq!(ids, vec![1, 3]);
    assert_eq!(filter_by_type(&fetch, NoticeType::NewHint).len(), 1);
    assert_eq!(filter_by_type(&fetch, NoticeType::FirstBlood).len(), 0);
}

#[test]
fn successful_delivery_marks_seen_and_queues_nothing() {
    let mut t = NoticeTracker::new();
    let mut q = MessageQueue::new();
    let n = notice(2, "Normal", 200);
    record_outcome(
        &mut t,
        &mut q,
        1,
        &None,
        &"https://ctf.example".to_string(),
        NoticeType::Normal,
        &n,
        true,
        1000,
    );
    assert!(t.is_seen(1, NoticeType::Normal, 2));
    assert_eq!(q.len(), 0);
}

#[test]
fn failed_delivery_marks_seen_and_queues_the_item() {
    // A failed immediate send still marks the announcement as handled — it
    // must not be re-detected as new — and hands it to the retry queue.
    let mut t = NoticeTracker::new();
    let mut q = MessageQueue::new();
    let n = notice(2, "Normal", 200);
    record_outcome(
        &mut t,
        &mut q,
        1,
        &Some("Test Cup".to_string()),
        &"https://ctf.example".to_string(),
        NoticeType::Normal,
        &n,
        false,
        1000,
    );
    assert!(t.is_seen(1, NoticeType::Normal, 2));
    assert_eq!(q.len(), 1);
    let queued = q.snapshot_items();
    assert_eq!(queued[0].id, "1:2:200");
    assert_eq!(queued[0].match_id, 1);
    assert_eq!(queued[0].match_name.as_deref(), Some("Test Cup"));
    assert_eq!(queued[0].base_url, "https://ctf.example");
    assert_eq!(queued[0].retry_count, 0);
    assert_eq!(queued[0].next_retry_at, 1002);
    assert_eq!(queued[0].notice.id, 2);
}

#[test]
fn get_matches_prefers_the_configured_list() {
    let c = config_with(
        vec![
            MatchConfig { id: 1, name: Some("Alpha".to_string()) },
            MatchConfig { id: 2, name: None },
        ],
        Some(9),
    );
    let matches = c.get_matches();
    assert_eq!(matches.len(), 2);
    assert_eq!(matches[0].id, 1);
    assert_eq!(matches[0].name.as_deref(), Some("Alpha"));
    assert_eq!(matches[1].id, 2);
    assert!(matches[1].name.is_none());
}

#[test]
fn get_matches_falls_back_to_the_single_id() {
    let c = config_with(Vec::new(), Some(9));
    let matches = c.get_matches();
    assert_eq!(matches.len(), 1);
    assert_eq!(matches[0].id, 9);
    assert!(matches[0].name.is_none());
}

#[test]
fn get_matches_is_empty_when_nothing_is_configured() {
    let c = config_with(Vec::new(), None);
    assert_eq!(c.get_matches().len(), 0);
}
