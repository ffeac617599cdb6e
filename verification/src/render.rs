//! What a rendered announcement message holds: title, color, body fields
//! and footer, computed here from plain values. The surrounding
//! application only copies the result into its chat library's builder.

use vstd::prelude::*;
use crate::models::Notice;
use crate::models::NoticeView;
use crate::models::NoticeType;
use crate::models::opt_string_view;
use crate::models::title_label;
use crate::text::dec_digits;
use crate::text::truncated_label;
use crate::text::truncate_text;
use crate::text::u64_to_string;

verus! {

/// An RGB color.
#[derive(Clone, Copy, PartialEq, Eq, Structural, Debug)]
pub struct EmbedColor {
    pub red: u8,
    pub green: u8,
    pub blue: u8,
}

/// The accent color shown for each announcement category.
pub open spec fn kind_color(k: NoticeType) -> EmbedColor {
    match k {
        NoticeType::Normal => EmbedColor { red: 59, green: 130, blue: 246 },
        NoticeType::NewChallenge => EmbedColor { red: 34, green: 197, blue: 94 },
        NoticeType::NewHint => EmbedColor { red: 234, green: 179, blue: 8 },
        NoticeType::FirstBlood => EmbedColor { red: 239, green: 68, blue: 68 },
        NoticeType::SecondBlood => EmbedColor { red: 249, green: 115, blue: 22 },
        NoticeType::ThirdBlood => EmbedColor { red: 168, green: 85, blue: 247 },
    }
}

/// The mathematical value of an [`EmbedField`].
pub struct EmbedFieldView {
    pub name: Seq<char>,
    pub value: Seq<char>,
    pub inline: bool,
}

/// One name/value pair in the message body.
pub struct EmbedField {
    pub name: String,
    pub value: String,
    pub inline: bool,
}

impl View for EmbedField {
    type V = EmbedFieldView;

    open spec fn view(&self) -> EmbedFieldView {
        EmbedFieldView { name: self.name@, value: self.value@, inline: self.inline }
    }
}

/// The views of the elements of a vector of fields.
pub open spec fn field_views(s: Seq<EmbedField>) -> Seq<EmbedFieldView> {
    Seq::new(s.len(), |i: int| s[i]@)
}

/// Everything a rendered announcement message holds, as plain values.
pub struct EmbedContent {
    /// Category heading.
    pub title: String,
    /// Accent color for the category.
    pub color: EmbedColor,
    /// Competition line with a link to the competition, when a display
    /// name is configured.
    pub description: Option<String>,
    /// Body fields, depending on the category.
    pub fields: Vec<EmbedField>,
    /// The announcement's publication time, rendered for display.
    pub footer: String,
}

/// The link target for a competition's page.
pub open spec fn game_url_label(base_url: Seq<char>, match_id: u32) -> Seq<char> {
    base_url + "/games/"@ + dec_digits(match_id as nat)
}

/// The competition line shown when a display name is configured.
pub open spec fn description_label(name: Seq<char>, base_url: Seq<char>, match_id: u32) -> Seq<
    char,
> {
    "**赛事:** ["@ + name + "]("@ + game_url_label(base_url, match_id) + ")"@
}

/// The first payload string of an announcement, or nothing.
pub open spec fn first_value(n: NoticeView) -> Seq<char> {
    if n.values.len() > 0 {
        n.values[0]
    } else {
        Seq::<char>::empty()
    }
}

/// The body fields shown for an announcement: the text for a plain
/// announcement, the challenge for a new challenge or hint, and the team
/// (truncated for display) with the challenge for a solve event — or no
/// fields at all when a solve event lacks its two payload strings.
pub open spec fn fields_label(n: NoticeView, k: NoticeType) -> Seq<EmbedFieldView> {
    match k {
        NoticeType::Normal => seq![
            EmbedFieldView { name: "公告内容"@, value: first_value(n), inline: false },
        ],
        NoticeType::NewChallenge | NoticeType::NewHint => seq![
            EmbedFieldView { name: "题目"@, value: first_value(n), inline: false },
        ],
        NoticeType::FirstBlood | NoticeType::SecondBlood | NoticeType::ThirdBlood => {
            if n.values.len() >= 2 {
                seq![
                    EmbedFieldView {
                        name: "队伍"@,
                        value: truncated_label(n.values[0], 30),
                        inline: false,
                    },
                    EmbedFieldView { name: "题目"@, value: n.values[1], inline: false },
                ]
            } else {
                Seq::<EmbedFieldView>::empty()
            }
        },
    }
}

/// What chrono renders for a Unix timestamp in seconds, displayed in the
/// UTC+8 zone as `YYYY-MM-DD hh:mm:ss`. A function of the timestamp
/// alone.
pub uninterp spec fn beijing_time_label(secs: u64) -> Seq<char>;

/// Relies on chrono: `DateTime::from_timestamp` yields the instant (or
/// `None` out of calendar range), `FixedOffset::east_opt(8 * 3600)` the
/// UTC+8 zone, and `format("%Y-%m-%d %H:%M:%S")` its display text, a
/// function of the timestamp alone.
#[verifier::external_body]
fn format_unix_time(secs: u64) -> (r: Option<String>)
    ensures
        r matches Some(s) ==> s@ == beijing_time_label(secs),
{
    match chrono::DateTime::from_timestamp(secs as i64, 0) {
        Some(dt) => match chrono::FixedOffset::east_opt(8 * 3600) {
            Some(tz) => Some(dt.with_timezone(&tz).format("%Y-%m-%d %H:%M:%S").to_string()),
            None => None,
        },
        None => None,
    }
}

/// Renders a millisecond timestamp for the footer: its wall-clock text
/// in UTC+8, or the raw number if the instant lies outside chrono's
/// calendar range.
pub fn format_time(timestamp_ms: u64) -> (r: String)
    ensures
        r@ == beijing_time_label((timestamp_ms / 1000) as u64) || r@ == dec_digits(
            timestamp_ms as nat,
        ),
{
    let secs: u64 = timestamp_ms / 1000;
    match format_unix_time(secs) {
        Some(s) => s,
        None => u64_to_string(timestamp_ms),
    }
}

/// The first payload string, or empty.
fn first_value_of(notice: &Notice) -> (r: String)
    ensures
        r@ == first_value(notice@),
{
    if notice.values.len() > 0 {
        notice.values[0].clone()
    } else {
        String::new()
    }
}

/// Computes [`kind_color`].
fn color_of(k: NoticeType) -> (c: EmbedColor)
    ensures
        c == kind_color(k),
{
    match k {
        NoticeType::Normal => EmbedColor { red: 59, green: 130, blue: 246 },
        NoticeType::NewChallenge => EmbedColor { red: 34, green: 197, blue: 94 },
        NoticeType::NewHint => EmbedColor { red: 234, green: 179, blue: 8 },
        NoticeType::FirstBlood => EmbedColor { red: 239, green: 68, blue: 68 },
        NoticeType::SecondBlood => EmbedColor { red: 249, green: 115, blue: 22 },
        NoticeType::ThirdBlood => EmbedColor { red: 168, green: 85, blue: 247 },
    }
}

/// Renders one announcement as message content: heading and color by
/// category, competition line when a name is configured, body fields per
/// [`fields_label`], and the publication time as the footer.
pub fn create_embed(
    notice: &Notice,
    notice_type: NoticeType,
    match_name: &Option<String>,
    match_id: u32,
    base_url: &String,
) -> (e: EmbedContent)
    ensures
        e.title@ == title_label(notice_type),
        e.color == kind_color(notice_type),
        opt_string_view(e.description) == (match opt_string_view(*match_name) {
            Some(name) => Some(description_label(name, base_url@, match_id)),
            None => None::<Seq<char>>,
        }),
        field_views(e.fields@) == fields_label(notice@, notice_type),
        e.footer@ == beijing_time_label((notice.time / 1000) as u64) || e.footer@ == dec_digits(
            notice.time as nat,
        ),
{
    let title = notice_type.get_title().to_owned();
    let color = color_of(notice_type);
    let footer = format_time(notice.time);

    let description: Option<String> = match match_name {
        Some(name) => {
            let game_url = base_url.clone().concat("/games/").concat(
                u64_to_string(match_id as u64).as_str(),
            );
            let line = String::from_str("**赛事:** [").concat(name.as_str()).concat("](").concat(
                game_url.as_str(),
            ).concat(")");
            proof {
                assert(line@ =~= description_label(name@, base_url@, match_id));
            }
            Some(line)
        },
        None => None,
    };

    let mut fields: Vec<EmbedField> = Vec::new();
    match notice_type {
        NoticeType::Normal => {
            fields.push(
                EmbedField { name: "公告内容".to_owned(), value: first_value_of(notice), inline: false },
            );
        },
        NoticeType::NewChallenge | NoticeType::NewHint => {
            fields.push(
                EmbedField { name: "题目".to_owned(), value: first_value_of(notice), inline: false },
            );
        },
        NoticeType::FirstBlood | NoticeType::SecondBlood | NoticeType::ThirdBlood => {
            if notice.values.len() >= 2 {
                let team = truncate_text(notice.values[0].as_str(), 30);
                fields.push(EmbedField { name: "队伍".to_owned(), value: team, inline: false });
                fields.push(
                    EmbedField {
                        name: "题目".to_owned(),
                        value: notice.values[1].clone(),
                        inline: false,
                    },
                );
            }
        },
    }
    proof {
        assert(field_views(fields@) =~= fields_label(notice@, notice_type));
    }

    EmbedContent { title, color, description, fields, footer }
}

} // verus!
