use vstd::prelude::*;

use chrono::Datelike;

use crate::errors::ReleaseError;
use crate::text::{dec_seq, dec_string, int_seq, int_string, zero_pad, zeros};

verus! {

/// The notation used for the date in a changelog release heading.
/// `Auto` asks for the notation to be detected from the changelog itself;
/// it must be resolved to `Long` or `Short` before a date can be rendered.
#[derive(Clone, Copy, Debug, PartialEq, Eq, Structural)]
pub enum ChangelogDateFormat {
    /// Detect the notation from the changelog's existing headings.
    Auto,
    /// `June 21, 2025`
    Long,
    /// `2025-06-21`
    Short,
}

/// English month name, for `m` in 1..=12.
pub open spec fn month_name(m: int) -> Seq<char> {
    if m == 1 {
        "January"@
    } else if m == 2 {
        "February"@
    } else if m == 3 {
        "March"@
    } else if m == 4 {
        "April"@
    } else if m == 5 {
        "May"@
    } else if m == 6 {
        "June"@
    } else if m == 7 {
        "July"@
    } else if m == 8 {
        "August"@
    } else if m == 9 {
        "September"@
    } else if m == 10 {
        "October"@
    } else if m == 11 {
        "November"@
    } else {
        "December"@
    }
}

/// A year rendered in decimal, zero-padded to four digits, signed when negative.
pub open spec fn year_seq(y: int) -> Seq<char> {
    if y < 0 {
        seq!['-'] + zero_pad(dec_seq(-y), 4)
    } else {
        zero_pad(dec_seq(y), 4)
    }
}

/// A number rendered in decimal, zero-padded to two digits.
pub open spec fn two_digit_seq(n: int) -> Seq<char> {
    zero_pad(dec_seq(n), 2)
}

/// `YYYY-MM-DD`.
pub open spec fn short_date_seq(y: int, m: int, d: int) -> Seq<char> {
    year_seq(y) + seq!['-'] + two_digit_seq(m) + seq!['-'] + two_digit_seq(d)
}

/// `<Month name> <DD>, <YYYY>`.
pub open spec fn long_date_seq(y: int, m: int, d: int) -> Seq<char> {
    month_name(m) + seq![' '] + two_digit_seq(d) + seq![',', ' '] + year_seq(y)
}

/// The rendering of a date in a concrete (non-`Auto`) notation.
pub open spec fn format_date_seq(fmt: ChangelogDateFormat, y: int, m: int, d: int) -> Seq<char> {
    match fmt {
        ChangelogDateFormat::Short => short_date_seq(y, m, d),
        ChangelogDateFormat::Long => long_date_seq(y, m, d),
        ChangelogDateFormat::Auto => Seq::empty(),
    }
}

fn month_str(m: u8) -> (r: &'static str)
    requires
        1 <= m <= 12,
    ensures
        r@ == month_name(m as int),
{
    match m {
        1 => "January",
        2 => "February",
        3 => "March",
        4 => "April",
        5 => "May",
        6 => "June",
        7 => "July",
        8 => "August",
        9 => "September",
        10 => "October",
        11 => "November",
        _ => "December",
    }
}

/// Renders `n` in decimal, zero-padded to two digits.
pub fn two_digit_string(n: u8) -> (r: String)
    requires
        n < 100,
    ensures
        r@ == two_digit_seq(n as int),
{
    proof {
        crate::text::lemma_dec_seq_len(n as int);
    }
    if n < 10 {
        let mut s = String::from_str("0");
        s.append(dec_string(n as u64).as_str());
        proof {
            reveal_strlit("0");
            assert(zeros(0) =~= Seq::<char>::empty());
            assert(zeros(1) =~= seq!['0']);
            assert(s@ =~= two_digit_seq(n as int));
        }
        s
    } else {
        let s = dec_string(n as u64);
        proof {
            assert(zeros(0) =~= Seq::<char>::empty());
            assert(s@ =~= two_digit_seq(n as int));
        }
        s
    }
}

/// Renders a year in decimal, zero-padded to four digits, signed when negative.
pub fn year_string(y: i32) -> (r: String)
    ensures
        r@ == year_seq(y as int),
{
    let mag: u64 = if y < 0 {
        (-(y as i64)) as u64
    } else {
        y as u64
    };
    proof {
        crate::text::lemma_dec_seq_len(mag as int);
    }
    proof {
        reveal_strlit("0");
        reveal_strlit("00");
        reveal_strlit("000");
        assert(zeros(0) =~= Seq::<char>::empty());
        assert(zeros(1) =~= seq!['0']);
        assert(zeros(2) =~= seq!['0', '0']);
        assert(zeros(3) =~= seq!['0', '0', '0']);
    }
    let digits = dec_string(mag);
    let padded: String = if mag < 10 {
        let mut s = String::from_str("000");
        s.append(digits.as_str());
        proof {
            assert(s@ =~= zero_pad(dec_seq(mag as int), 4));
        }
        s
    } else if mag < 100 {
        let mut s = String::from_str("00");
        s.append(digits.as_str());
        proof {
            assert(s@ =~= zero_pad(dec_seq(mag as int), 4));
        }
        s
    } else if mag < 1000 {
        let mut s = String::from_str("0");
        s.append(digits.as_str());
        proof {
            assert(s@ =~= zero_pad(dec_seq(mag as int), 4));
        }
        s
    } else {
        proof {
            assert(digits@ =~= zero_pad(dec_seq(mag as int), 4));
        }
        digits
    };
    if y < 0 {
        let mut s = String::from_str("-");
        s.append(padded.as_str());
        proof {
            reveal_strlit("-");
            assert(s@ =~= year_seq(y as int));
        }
        s
    } else {
        proof {
            assert(padded@ =~= year_seq(y as int));
        }
        padded
    }
}

/// Renders a calendar date in the given notation. The `Auto` sentinel cannot
/// render a date; asking it to is reported as `UnsupportedDateFormat`.
pub fn format_date(fmt: ChangelogDateFormat, y: i32, m: u8, d: u8) -> (r: Result<
    String,
    ReleaseError,
>)
    requires
        1 <= m <= 12,
        1 <= d <= 31,
    ensures
        r is Ok <==> fmt != ChangelogDateFormat::Auto,
        fmt == ChangelogDateFormat::Auto ==> r == Err::<String, ReleaseError>(
            ReleaseError::UnsupportedDateFormat,
        ),
        r is Ok ==> r.unwrap()@ == format_date_seq(fmt, y as int, m as int, d as int),
{
    match fmt {
        ChangelogDateFormat::Short => {
            let mut s = year_string(y);
            s.append("-");
            s.append(two_digit_string(m).as_str());
            s.append("-");
            s.append(two_digit_string(d).as_str());
            proof {
                reveal_strlit("-");
                assert(s@ =~= short_date_seq(y as int, m as int, d as int));
            }
            Ok(s)
        },
        ChangelogDateFormat::Long => {
            let mut s = month_str(m).to_owned();
            s.append(" ");
            s.append(two_digit_string(d).as_str());
            s.append(", ");
            s.append(year_string(y).as_str());
            proof {
                reveal_strlit(" ");
                reveal_strlit(", ");
                assert(s@ =~= long_date_seq(y as int, m as int, d as int));
            }
            Ok(s)
        },
        ChangelogDateFormat::Auto => Err(ReleaseError::UnsupportedDateFormat),
    }
}

/// Relies on chrono's `Local::now` and the `Datelike` accessors: `month()` is
/// documented to range over 1..=12 and `day()` over 1..=31 for every date.
/// The returned triple is (year, month, day) of the current local date.
#[verifier::external_body]
pub fn current_local_date() -> (r: (i32, u8, u8))
    ensures
        1 <= r.1 <= 12,
        1 <= r.2 <= 31,
{
    let now = chrono::Local::now();
    (now.year(), now.month() as u8, now.day() as u8)
}

} // verus!
