use vstd::prelude::*;

verus! {

/// ASCII decimal digit.
pub open spec fn is_digit(c: char) -> bool {
    48 <= c as u32 <= 57
}

/// ASCII letter.
pub open spec fn is_alpha(c: char) -> bool {
    (65 <= c as u32 <= 90) || (97 <= c as u32 <= 122)
}

/// Horizontal whitespace inside a line.
pub open spec fn is_line_space(c: char) -> bool {
    c == ' ' || c == '\t'
}

/// Whitespace removed by trimming.
pub open spec fn is_trim_space(c: char) -> bool {
    c == ' ' || c == '\t' || c == '\n' || c == '\r'
}

/// ASCII lowercase folding; other characters are left alone.
pub open spec fn lower(c: char) -> char {
    if 65 <= c as u32 <= 90 {
        (((c as u32) + 32) as u8) as char
    } else {
        c
    }
}

/// The ASCII character of a digit value in 0..=9.
pub open spec fn dec_digit(d: int) -> char {
    ((48 + d) as u8) as char
}

/// Decimal digit sequence of a non-negative integer, most significant first.
pub open spec fn dec_seq(n: int) -> Seq<char>
    recommends
        n >= 0,
    decreases n,
{
    if n < 10 {
        seq![dec_digit(n)]
    } else {
        dec_seq(n / 10).push(dec_digit(n % 10))
    }
}

/// A run of `k` zero characters.
pub open spec fn zeros(k: int) -> Seq<char>
    decreases k,
{
    if k <= 0 {
        Seq::empty()
    } else {
        zeros(k - 1).push('0')
    }
}

/// `s` left-padded with zeros to at least `width` characters.
pub open spec fn zero_pad(s: Seq<char>, width: int) -> Seq<char> {
    zeros(width - s.len()) + s
}

/// Decimal rendering of an integer, with a minus sign when negative.
pub open spec fn int_seq(n: int) -> Seq<char> {
    if n < 0 {
        seq!['-'] + dec_seq(-n)
    } else {
        dec_seq(n)
    }
}

pub proof fn lemma_dec_seq_digits(n: int)
    requires
        n >= 0,
    ensures
        forall|k: int| 0 <= k < dec_seq(n).len() ==> is_digit(#[trigger] dec_seq(n)[k]),
        dec_seq(n).len() >= 1,
    decreases n,
{
    if n >= 10 {
        lemma_dec_seq_digits(n / 10);
    }
}

pub proof fn lemma_dec_seq_len(n: int)
    requires
        n >= 0,
    ensures
        n < 10 ==> dec_seq(n).len() == 1,
        10 <= n < 100 ==> dec_seq(n).len() == 2,
        100 <= n < 1000 ==> dec_seq(n).len() == 3,
        1000 <= n < 10000 ==> dec_seq(n).len() == 4,
        n >= 1000 ==> dec_seq(n).len() >= 4,
        dec_seq(n).len() >= 1,
    decreases n,
{
    if n >= 10 {
        lemma_dec_seq_len(n / 10);
    }
}

fn digit_str(d: u64) -> (r: &'static str)
    requires
        d < 10,
    ensures
        r@ =~= seq![dec_digit(d as int)],
{
    proof {
        reveal_strlit("0");
        reveal_strlit("1");
        reveal_strlit("2");
        reveal_strlit("3");
        reveal_strlit("4");
        reveal_strlit("5");
        reveal_strlit("6");
        reveal_strlit("7");
        reveal_strlit("8");
        reveal_strlit("9");
    }
    match d {
        0 => "0",
        1 => "1",
        2 => "2",
        3 => "3",
        4 => "4",
        5 => "5",
        6 => "6",
        7 => "7",
        8 => "8",
        _ => "9",
    }
}

/// Renders a non-negative integer in decimal.
pub fn dec_string(n: u64) -> (r: String)
    ensures
        r@ == dec_seq(n as int),
    decreases n,
{
    if n < 10 {
        let r = digit_str(n).to_owned();
        proof {
            assert(r@ =~= dec_seq(n as int));
        }
        r
    } else {
        let mut s = dec_string(n / 10);
        s.append(digit_str(n % 10));
        proof {
            assert(s@ =~= dec_seq(n as int));
        }
        s
    }
}

/// Renders an integer in decimal, with a minus sign when negative.
pub fn int_string(n: i64) -> (r: String)
    requires
        n > i64::MIN,
    ensures
        r@ == int_seq(n as int),
{
    if n < 0 {
        let mag: u64 = (-n) as u64;
        let mut s = String::from_str("-");
        s.append(dec_string(mag).as_str());
        proof {
            reveal_strlit("-");
            assert(s@ =~= int_seq(n as int));
        }
        s
    } else {
        dec_string(n as u64)
    }
}

/// First index at or after `i` that holds a non-whitespace character.
pub open spec fn first_non_ws(s: Seq<char>, i: int) -> int
    decreases s.len() - i when 0 <= i <= s.len()
{
    if i < s.len() && is_trim_space(s[i]) {
        first_non_ws(s, i + 1)
    } else {
        i
    }
}

/// Index just past the last non-whitespace character strictly before `i`.
pub open spec fn last_non_ws(s: Seq<char>, i: int) -> int
    decreases i when 0 <= i <= s.len()
{
    if i > 0 && is_trim_space(s[i - 1]) {
        last_non_ws(s, i - 1)
    } else {
        i
    }
}

/// `s` without leading and trailing whitespace.
pub open spec fn trim_spec(s: Seq<char>) -> Seq<char> {
    let a = first_non_ws(s, 0);
    if a == s.len() {
        Seq::empty()
    } else {
        s.subrange(a, last_non_ws(s, s.len() as int))
    }
}

pub proof fn lemma_first_non_ws(s: Seq<char>, i: int)
    requires
        0 <= i <= s.len(),
    ensures
        i <= first_non_ws(s, i) <= s.len(),
        forall|k: int| i <= k < first_non_ws(s, i) ==> is_trim_space(s[k]),
        first_non_ws(s, i) < s.len() ==> !is_trim_space(s[first_non_ws(s, i)]),
    decreases s.len() - i,
{
    if i < s.len() && is_trim_space(s[i]) {
        lemma_first_non_ws(s, i + 1);
    }
}

pub proof fn lemma_last_non_ws(s: Seq<char>, i: int)
    requires
        0 <= i <= s.len(),
    ensures
        0 <= last_non_ws(s, i) <= i,
        forall|k: int| last_non_ws(s, i) <= k < i ==> is_trim_space(s[k]),
        last_non_ws(s, i) > 0 ==> !is_trim_space(s[last_non_ws(s, i) - 1]),
    decreases i,
{
    if i > 0 && is_trim_space(s[i - 1]) {
        lemma_last_non_ws(s, i - 1);
    }
}

/// Removes leading and trailing whitespace.
pub fn trim_of<'a>(s: &'a str) -> (r: &'a str)
    ensures
        r@ == trim_spec(s@),
{
    let n = s.unicode_len();
    let mut a: usize = 0;
    loop
        invariant
            a <= n,
            n == s@.len(),
            first_non_ws(s@, 0) == first_non_ws(s@, a as int),
        ensures
            first_non_ws(s@, 0) == a,
        decreases n - a,
    {
        if a == n {
            break ;
        }
        let c = s.get_char(a);
        if !(c == ' ' || c == '\t' || c == '\n' || c == '\r') {
            break ;
        }
        a += 1;
    }
    if a == n {
        let r = s.substring_char(0, 0);
        proof {
            assert(r@ =~= trim_spec(s@));
        }
        return r;
    }
    let mut b: usize = n;
    loop
        invariant
            0 <= b <= n,
            n == s@.len(),
            last_non_ws(s@, n as int) == last_non_ws(s@, b as int),
        ensures
            last_non_ws(s@, n as int) == b,
        decreases b,
    {
        if b == 0 {
            break ;
        }
        let c = s.get_char(b - 1);
        if !(c == ' ' || c == '\t' || c == '\n' || c == '\r') {
            break ;
        }
        b -= 1;
    }
    proof {
        lemma_first_non_ws(s@, 0);
        lemma_last_non_ws(s@, n as int);
        if b <= a {
            assert(is_trim_space(s@[a as int]));
        }
    }
    s.substring_char(a, b)
}

/// First index at or after `i` that holds a space.
pub open spec fn first_space(s: Seq<char>, i: int) -> int
    decreases s.len() - i when 0 <= i <= s.len()
{
    if i < s.len() && s[i] != ' ' {
        first_space(s, i + 1)
    } else {
        i
    }
}

/// The part of `s` before its first space: what `split` on a single space
/// yields first.
pub open spec fn space_token(s: Seq<char>) -> Seq<char> {
    s.subrange(0, first_space(s, 0))
}

/// Takes the part of `s` before its first space.
pub fn token_of<'a>(s: &'a str) -> (r: &'a str)
    ensures
        r@ == space_token(s@),
{
    let n = s.unicode_len();
    let mut j: usize = 0;
    loop
        invariant
            j <= n,
            n == s@.len(),
            first_space(s@, 0) == first_space(s@, j as int),
        ensures
            first_space(s@, 0) == j,
        decreases n - j,
    {
        if j == n {
            break ;
        }
        if s.get_char(j) == ' ' {
            break ;
        }
        j += 1;
    }
    s.substring_char(0, j)
}

} // verus!
