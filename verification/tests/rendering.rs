use dc_bot::models::Notice;
use dc_bot::models::NoticeType;
use dc_bot::render::create_embed;
use dc_bot::render::format_time;
use dc_bot::text::message_id;
use dc_bot::text::truncate_text;
use dc_bot::text::u64_to_string;

fn notice_with(id: u64, notice_type: &str, values: Vec<&str>, time: u64) -> Notice {
    Notice {
        id,
        notice_type: notice_type.to_string(),
        values: values.into_iter().map(|v| v.to_string()).collect(),
        time,
    }
}

#[test]
fn decimal_rendering_is_exact() {
    assert_eq!(u64_to_string(0), "0");
    assert_eq!(u64_to_string(7), "7");
    assert_eq!(u64_to_string(10), "10");
    assert_eq!(u64_to_string(1234567890), "1234567890");
    assert_eq!(u64_to_string(u64::MAX), "18446744073709551615");
}

#[test]
fn message_id_joins_the_three_numbers() {
    assert_eq!(message_id(1, 2, 100), "1:2:100");
    assert_eq!(message_id(12, 34, 5600), "12:34:5600");
    assert_eq!(message_id(0, 0, 0), "0:0:0");
}

#[test]
fn truncation_leaves_short_text_alone() {
    assert_eq!(truncate_text("abc", 3), "abc");
    assert_eq!(truncate_text("abc", 30), "abc");
    assert_eq!(truncate_text("", 1), "");
}

#[test]
fn truncation_cuts_long_text_with_an_ellipsis() {
    assert_eq!(truncate_text("abcd", 3), "ab…");
    assert_eq!(truncate_text("一二三四五", 3), "一二…");
    assert_eq!(truncate_text("ab", 1), "…");
    let team: String = "a".repeat(31);
    let shown = truncate_text(&team, 30);
    assert_eq!(shown.chars().count(), 30);
    assert_eq!(shown, format!("{}…", "a".repeat(29)));
}

#[test]
fn timestamps_render_in_utc_plus_eight() {
    assert_eq!(format_time(0), "1970-01-01 08:00:00");
    assert_eq!(format_time(1431648000000), "2015-05-15 08:00:00");
    assert_eq!(format_time(1700000000000), "2023-11-15 06:13:20");
    // Sub-second precision is dropped, not rounded.
    assert_eq!(format_time(1700000000999), "2023-11-15 06:13:20");
}

#[test]
fn normal_announcement_renders_title_color_and_body() {
    let n = notice_with(1, "Normal", vec!["welcome"], 1700000000000);
    let e = create_embed(&n, NoticeType::Normal, &None, 1, &"https://x".to_string());
    assert_eq!(e.title, "【比赛公告】");
    assert_eq!(e.color.red, 59);
    assert_eq!(e.color.green, 130);
    assert_eq!(e.color.blue, 246);
    assert!(e.description.is_none());
    assert_eq!(e.fields.len(), 1);
    assert_eq!(e.fields[0].name, "公告内容");
    assert_eq!(e.fields[0].value, "welcome");
    assert!(!e.fields[0].inline);
    assert_eq!(e.footer, "2023-11-15 06:13:20");
}

#[test]
fn named_competition_gets_a_linked_description() {
    let n = notice_with(1, "NewChallenge", vec!["pwn1"], 0);
    let e = create_embed(
        &n,
        NoticeType::NewChallenge,
        &Some("Test Cup".to_string()),
        7,
        &"https://ctf.example".to_string(),
    );
    assert_eq!(e.title, "【新增题目】");
    assert_eq!(e.description.as_deref(), Some("**赛事:** [Test Cup](https://ctf.example/games/7)"));
    assert_eq!(e.fields.len(), 1);
    assert_eq!(e.fields[0].name, "题目");
    assert_eq!(e.fields[0].value, "pwn1");
}

#[test]
fn solve_events_show_team_and_challenge() {
    let long_team: String = "队".repeat(31);
    let n = Notice {
        id: 9,
        notice_type: "FirstBlood".to_string(),
        values: vec![long_team.clone(), "crypto1".to_string()],
        time: 0,
    };
    let e = create_embed(&n, NoticeType::FirstBlood, &None, 1, &"https://x".to_string());
    assert_eq!(e.title, "【一血播报】");
    assert_eq!(e.color.red, 239);
    assert_eq!(e.fields.len(), 2);
    assert_eq!(e.fields[0].name, "队伍");
    assert_eq!(e.fields[0].value, format!("{}…", "队".repeat(29)));
    assert_eq!(e.fields[1].name, "题目");
    assert_eq!(e.fields[1].value, "crypto1");
}

#[test]
fn solve_event_without_payload_renders_no_fields() {
    let n = notice_with(9, "SecondBlood", vec!["only-team"], 0);
    let e = create_embed(&n, NoticeType::SecondBlood, &None, 1, &"https://x".to_string());
    assert_eq!(e.fields.len(), 0);
    assert_eq!(e.color.red, 249);
}

#[test]
fn missing_payload_renders_an_empty_body_value() {
    let n = notice_with(1, "Normal", vec![], 0);
    let e = create_embed(&n, NoticeType::Normal, &None, 1, &"https://x".to_string());
    assert_eq!(e.fields.len(), 1);
    assert_eq!(e.fields[0].value, "");
}

#[test]
fn each_kind_has_its_own_title_and_color() {
    let titles: Vec<&str> = NoticeType::all().iter().map(|k| k.get_title()).collect();
    assert_eq!(
        titles,
        vec![
            "【比赛公告】",
            "【新增题目】",
            "【题目提示】",
            "【一血播报】",
            "【二血播报】",
            "【三血播报】"
        ]
    );
    let n = notice_with(1, "ThirdBlood", vec!["t", "c"], 0);
    let e = create_embed(&n, NoticeType::ThirdBlood, &None, 1, &"https://x".to_string());
    assert_eq!((e.color.red, e.color.green, e.color.blue), (168, 85, 247));
}
