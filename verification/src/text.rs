//! Verified text building: decimal rendering, queue-item identities, and
//! display truncation.

use vstd::prelude::*;

verus! {

/// The decimal digit character for `d`, which must lie in 0..9.
pub open spec fn digit_char(d: int) -> char {
    if d == 0 {
        '0'
    } else if d == 1 {
        '1'
    } else if d == 2 {
        '2'
    } else if d == 3 {
        '3'
    } else if d == 4 {
        '4'
    } else if d == 5 {
        '5'
    } else if d == 6 {
        '6'
    } else if d == 7 {
        '7'
    } else if d == 8 {
        '8'
    } else {
        '9'
    }
}

/// The decimal rendering of `n`, most significant digit first, with no
/// leading zeroes (a single `'0'` for zero).
pub open spec fn dec_digits(n: nat) -> Seq<char>
    decreases n,
{
    if n < 10 {
        seq![digit_char(n as int)]
    } else {
        dec_digits(n / 10) + seq![digit_char((n % 10) as int)]
    }
}

/// The one-character string for a single decimal digit.
fn digit_str(d: u64) -> (r: &'static str)
    requires
        d < 10,
    ensures
        r@ == seq![digit_char(d as int)],
{
    proof {
        reveal_strlit("0");
        reveal_strlit("1");
        reveal_strlit("2");
        reveal_strlit("3");
        reveal_strlit("4");
        reveal_strlit("5");
        reveal_strlit("6");
        reveal_strlit("7");
        reveal_strlit("8");
        reveal_strlit("9");
    }
    let r = match d {
        0 => "0",
        1 => "1",
        2 => "2",
        3 => "3",
        4 => "4",
        5 => "5",
        6 => "6",
        7 => "7",
        8 => "8",
        _ => "9",
    };
    proof {
        assert(r@ =~= seq![digit_char(d as int)]);
    }
    r
}

/// Renders `n` in decimal.
pub fn u64_to_string(n: u64) -> (s: String)
    ensures
        s@ == dec_digits(n as nat),
    decreases n,
{
    if n < 10 {
        digit_str(n).to_owned()
    } else {
        let prefix = u64_to_string(n / 10);
        let s = prefix.concat(digit_str(n % 10));
        proof {
            assert(s@ =~= dec_digits(n as nat));
        }
        s
    }
}

/// The identity a queued announcement carries: competition id,
/// announcement id and timestamp, colon-separated.
pub open spec fn id_label(match_id: u32, notice_id: u64, time: u64) -> Seq<char> {
    dec_digits(match_id as nat) + ":"@ + dec_digits(notice_id as nat) + ":"@ + dec_digits(
        time as nat,
    )
}

/// Builds [`id_label`] as a string.
pub fn message_id(match_id: u32, notice_id: u64, time: u64) -> (s: String)
    ensures
        s@ == id_label(match_id, notice_id, time),
{
    let a = u64_to_string(match_id as u64);
    let b = u64_to_string(notice_id);
    let c = u64_to_string(time);
    let s = a.concat(":").concat(b.as_str()).concat(":").concat(c.as_str());
    proof {
        assert(s@ =~= id_label(match_id, notice_id, time));
    }
    s
}

/// What display truncation leaves of `s`: everything, if `s` has at most
/// `max_len` characters; otherwise the first `max_len - 1` characters
/// with an ellipsis appended.
pub open spec fn truncated_label(s: Seq<char>, max_len: nat) -> Seq<char> {
    if s.len() <= max_len {
        s
    } else {
        s.subrange(0, max_len - 1) + "…"@
    }
}

/// Truncates over-long display text (team names and the like) to at most
/// `max_len` characters, ellipsis included.
pub fn truncate_text(text: &str, max_len: usize) -> (r: String)
    requires
        1 <= max_len,
    ensures
        r@ == truncated_label(text@, max_len as nat),
{
    let n: usize = text.unicode_len();
    if n <= max_len {
        text.to_owned()
    } else {
        let prefix = text.substring_char(0, max_len - 1);
        prefix.to_owned().concat("…")
    }
}

} // verus!
