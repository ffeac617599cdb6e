//! The announcement data model: what the platform reports, and the
//! categories an announcement can fall into.

use vstd::prelude::*;

verus! {

/// The mathematical value of a [`Notice`]: the same fields, with strings
/// abstracted to character sequences.
pub struct NoticeView {
    pub id: u64,
    pub notice_type: Seq<char>,
    pub values: Seq<Seq<char>>,
    pub time: u64,
}

/// One announcement fetched from the competition platform. Immutable once
/// fetched: the poll loop only copies and inspects it.
pub struct Notice {
    /// Identifier of the announcement, stable and unique per competition.
    pub id: u64,
    /// The category as the platform spells it, e.g. `"Normal"`.
    pub notice_type: String,
    /// Ordered payload strings; their meaning depends on the category.
    pub values: Vec<String>,
    /// Publication time, in milliseconds since the Unix epoch.
    pub time: u64,
}

impl View for Notice {
    type V = NoticeView;

    open spec fn view(&self) -> NoticeView {
        NoticeView {
            id: self.id,
            notice_type: self.notice_type@,
            values: Seq::new(self.values@.len(), |i: int| self.values@[i]@),
            time: self.time,
        }
    }
}

/// The view of an optional string.
pub open spec fn opt_string_view(o: Option<String>) -> Option<Seq<char>> {
    match o {
        Some(s) => Some(s@),
        None => None,
    }
}

/// Clones an optional string.
pub(crate) fn clone_opt_string(o: &Option<String>) -> (r: Option<String>)
    ensures
        opt_string_view(r) == opt_string_view(*o),
{
    match o {
        Some(s) => Some(s.clone()),
        None => None,
    }
}

/// The views of the elements of a vector of strings.
pub open spec fn string_views(v: Seq<String>) -> Seq<Seq<char>> {
    Seq::new(v.len(), |i: int| v[i]@)
}

/// Clones a vector of strings, element for element.
pub(crate) fn clone_string_vec(v: &Vec<String>) -> (res: Vec<String>)
    ensures
        string_views(res@) == string_views(v@),
        res@.len() == v@.len(),
{
    let mut out: Vec<String> = Vec::new();
    let mut i: usize = 0;
    while i < v.len()
        invariant
            i <= v.len(),
            out@.len() == i,
            forall|j: int| 0 <= j < i ==> out@[j]@ == v@[j]@,
        decreases v.len() - i,
    {
        out.push(v[i].clone());
        i += 1;
    }
    proof {
        assert(string_views(out@) =~= string_views(v@));
    }
    out
}

impl Clone for Notice {
    fn clone(&self) -> (res: Self)
        ensures
            res@ == self@,
    {
        let res = Notice {
            id: self.id,
            notice_type: self.notice_type.clone(),
            values: clone_string_vec(&self.values),
            time: self.time,
        };
        proof {
            assert(res@.values =~= self@.values);
        }
        res
    }
}

/// The category of an announcement.
#[derive(Clone, Copy, PartialEq, Eq, Structural, Debug)]
pub enum NoticeType {
    Normal,
    NewChallenge,
    NewHint,
    FirstBlood,
    SecondBlood,
    ThirdBlood,
}

/// The category named by a platform category string, if any.
pub open spec fn parse_notice_type(s: Seq<char>) -> Option<NoticeType> {
    if s == "Normal"@ {
        Some(NoticeType::Normal)
    } else if s == "NewChallenge"@ {
        Some(NoticeType::NewChallenge)
    } else if s == "NewHint"@ {
        Some(NoticeType::NewHint)
    } else if s == "FirstBlood"@ {
        Some(NoticeType::FirstBlood)
    } else if s == "SecondBlood"@ {
        Some(NoticeType::SecondBlood)
    } else if s == "ThirdBlood"@ {
        Some(NoticeType::ThirdBlood)
    } else {
        None
    }
}

/// The heading shown for announcements of category `k`.
pub open spec fn title_label(k: NoticeType) -> Seq<char> {
    match k {
        NoticeType::Normal => "【比赛公告】"@,
        NoticeType::NewChallenge => "【新增题目】"@,
        NoticeType::NewHint => "【题目提示】"@,
        NoticeType::FirstBlood => "【一血播报】"@,
        NoticeType::SecondBlood => "【二血播报】"@,
        NoticeType::ThirdBlood => "【三血播报】"@,
    }
}

/// Every category, in the order the poll loop walks them.
pub open spec fn all_notice_types() -> Seq<NoticeType> {
    seq![
        NoticeType::Normal,
        NoticeType::NewChallenge,
        NoticeType::NewHint,
        NoticeType::FirstBlood,
        NoticeType::SecondBlood,
        NoticeType::ThirdBlood,
    ]
}

impl NoticeType {
    /// Parses the category string the platform uses.
    pub fn from_str(s: &str) -> (r: Option<NoticeType>)
        ensures
            r == parse_notice_type(s@),
    {
        let t = s.to_owned();
        if t == String::from_str("Normal") {
            Some(NoticeType::Normal)
        } else if t == String::from_str("NewChallenge") {
            Some(NoticeType::NewChallenge)
        } else if t == String::from_str("NewHint") {
            Some(NoticeType::NewHint)
        } else if t == String::from_str("FirstBlood") {
            Some(NoticeType::FirstBlood)
        } else if t == String::from_str("SecondBlood") {
            Some(NoticeType::SecondBlood)
        } else if t == String::from_str("ThirdBlood") {
            Some(NoticeType::ThirdBlood)
        } else {
            None
        }
    }

    /// The heading under which this category is announced.
    pub fn get_title(&self) -> (r: &'static str)
        ensures
            r@ == title_label(*self),
    {
        match self {
            NoticeType::Normal => "【比赛公告】",
            NoticeType::NewChallenge => "【新增题目】",
            NoticeType::NewHint => "【题目提示】",
            NoticeType::FirstBlood => "【一血播报】",
            NoticeType::SecondBlood => "【二血播报】",
            NoticeType::ThirdBlood => "【三血播报】",
        }
    }

    /// Every category, in a fixed order.
    pub fn all() -> (r: Vec<NoticeType>)
        ensures
            r@ == all_notice_types(),
    {
        let mut v: Vec<NoticeType> = Vec::new();
        v.push(NoticeType::Normal);
        v.push(NoticeType::NewChallenge);
        v.push(NoticeType::NewHint);
        v.push(NoticeType::FirstBlood);
        v.push(NoticeType::SecondBlood);
        v.push(NoticeType::ThirdBlood);
        proof {
            assert(v@ =~= all_notice_types());
        }
        v
    }
}

} // verus!
