//! Text formatting helpers: decimal rendering, timestamp display and
//! ellipsis truncation, each pinned to an exact character-level spec.

use vstd::prelude::*;

verus! {

/// The decimal digit for a value below ten.
pub open spec fn spec_digit(d: nat) -> char {
    if d == 0 {
        '0'
    } else if d == 1 {
        '1'
    } else if d == 2 {
        '2'
    } else if d == 3 {
        '3'
    } else if d == 4 {
        '4'
    } else if d == 5 {
        '5'
    } else if d == 6 {
        '6'
    } else if d == 7 {
        '7'
    } else if d == 8 {
        '8'
    } else {
        '9'
    }
}

/// A number written in decimal, most significant digit first, without
/// leading zeros (zero itself is one digit).
pub open spec fn spec_dec_digits(n: nat) -> Seq<char>
    decreases n,
{
    if n < 10 {
        seq![spec_digit(n)]
    } else {
        spec_dec_digits(n / 10).push(spec_digit(n % 10))
    }
}

/// A number written in decimal and padded with one leading zero below ten.
pub open spec fn spec_pad2(n: nat) -> Seq<char> {
    if n < 10 {
        seq!['0'].push(spec_digit(n))
    } else {
        spec_dec_digits(n)
    }
}

/// The decimal digit for a value below ten; see `spec_digit`.
fn digit_str(d: u64) -> (r: &'static str)
    requires
        d < 10,
    ensures
        r@ == seq![spec_digit(d as nat)],
{
    let r: &'static str = if d == 0 {
        "0"
    } else if d == 1 {
        "1"
    } else if d == 2 {
        "2"
    } else if d == 3 {
        "3"
    } else if d == 4 {
        "4"
    } else if d == 5 {
        "5"
    } else if d == 6 {
        "6"
    } else if d == 7 {
        "7"
    } else if d == 8 {
        "8"
    } else {
        "9"
    };
    proof {
        reveal_strlit("0");
        reveal_strlit("1");
        reveal_strlit("2");
        reveal_strlit("3");
        reveal_strlit("4");
        reveal_strlit("5");
        reveal_strlit("6");
        reveal_strlit("7");
        reveal_strlit("8");
        reveal_strlit("9");
        assert(r@ =~= seq![spec_digit(d as nat)]);
    }
    r
}

/// Writes a number in decimal; see `spec_dec_digits`.
pub fn u64_to_string(n: u64) -> (r: String)
    ensures
        r@ == spec_dec_digits(n as nat),
    decreases n,
{
    if n < 10 {
        let d = digit_str(n);
        d.to_owned()
    } else {
        let mut head = u64_to_string(n / 10);
        let tail = digit_str(n % 10);
        head.append(tail);
        proof {
            assert(spec_dec_digits((n / 10) as nat) + seq![spec_digit((n % 10) as nat)]
                =~= spec_dec_digits((n / 10) as nat).push(spec_digit((n % 10) as nat)));
        }
        head
    }
}

/// Writes a number in decimal with one leading zero below ten; see
/// `spec_pad2`.
fn pad2_string(n: u64) -> (r: String)
    ensures
        r@ == spec_pad2(n as nat),
{
    if n < 10 {
        let mut head = String::new();
        head.append("0");
        let tail = digit_str(n);
        head.append(tail);
        proof {
            reveal_strlit("0");
            assert(head@ =~= seq!['0'].push(spec_digit(n as nat)));
        }
        head
    } else {
        u64_to_string(n)
    }
}

/// A timestamp in milliseconds since the Unix epoch, written as date and
/// time of day. The calendar arithmetic is deliberately coarse: every year
/// counts 365 days and every month 30, so the labels drift from the civil
/// calendar but order exactly as the timestamps do.
pub open spec fn spec_format_timestamp(ts_millis: u64) -> Seq<char> {
    let secs = ts_millis as nat / 1000;
    let days = secs / 86400;
    let year = 1970 + days / 365;
    let rem_days = days % 365;
    let month = rem_days / 30 + 1;
    let day = rem_days % 30 + 1;
    let hours = (secs % 86400) / 3600;
    let minutes = (secs % 3600) / 60;
    spec_dec_digits(year) + seq!['-'] + spec_pad2(month) + seq!['-'] + spec_pad2(day) + seq![' ']
        + spec_pad2(hours) + seq![':'] + spec_pad2(minutes)
}

/// Writes a millisecond timestamp as date and time; see
/// `spec_format_timestamp`.
pub fn format_timestamp(ts_millis: u64) -> (r: String)
    ensures
        r@ == spec_format_timestamp(ts_millis),
{
    let secs = ts_millis / 1000;
    let days = secs / 86400;
    let years_since_epoch = days / 365;
    proof {
        assert(secs <= ts_millis) by (nonlinear_arith)
            requires
                secs == ts_millis / 1000,
        ;
        assert(days <= secs) by (nonlinear_arith)
            requires
                days == secs / 86400,
        ;
        assert(years_since_epoch * 365 <= days) by (nonlinear_arith)
            requires
                years_since_epoch == days / 365,
        ;
        assert(days * 86400 <= secs) by (nonlinear_arith)
            requires
                days == secs / 86400,
        ;
        assert(secs * 1000 <= ts_millis) by (nonlinear_arith)
            requires
                secs == ts_millis / 1000,
        ;
    }
    let year = 1970 + years_since_epoch;
    let rem_days = days % 365;
    let month = rem_days / 30 + 1;
    let day = rem_days % 30 + 1;
    let hours = (secs % 86400) / 3600;
    let minutes = (secs % 3600) / 60;
    let mut out = u64_to_string(year);
    out.append("-");
    let month_text = pad2_string(month);
    out.append(month_text.as_str());
    out.append("-");
    let day_text = pad2_string(day);
    out.append(day_text.as_str());
    out.append(" ");
    let hours_text = pad2_string(hours);
    out.append(hours_text.as_str());
    out.append(":");
    let minutes_text = pad2_string(minutes);
    out.append(minutes_text.as_str());
    proof {
        reveal_strlit("-");
        reveal_strlit(" ");
        reveal_strlit(":");
        assert(out@ =~= spec_format_timestamp(ts_millis));
    }
    out
}

/// A text cut to at most `max_len` characters: a longer text keeps its first
/// `max_len - 3` characters (none where `max_len` is below three) and gains
/// a three-dot ellipsis.
///
/// Lengths are deliberately counted in characters, not bytes: a byte-indexed
/// cut can land inside a multi-byte character, where slicing panics, and
/// this function is total. On ASCII text the two counts agree.
pub open spec fn spec_truncate(s: Seq<char>, max_len: nat) -> Seq<char> {
    if s.len() <= max_len {
        s
    } else {
        s.subrange(
            0,
            if max_len >= 3 {
                max_len - 3
            } else {
                0
            },
        ) + "..."@
    }
}

/// Cuts a text to at most `max_len` characters, in character counts; see
/// `spec_truncate`.
pub fn truncate_string(s: &str, max_len: usize) -> (r: String)
    ensures
        r@ == spec_truncate(s@, max_len as nat),
{
    let n = s.unicode_len();
    if n <= max_len {
        s.to_owned()
    } else {
        let keep: usize = if max_len >= 3 {
            max_len - 3
        } else {
            0
        };
        let head = s.substring_char(0, keep);
        let mut out = head.to_owned();
        out.append("...");
        out
    }
}

} // verus!
