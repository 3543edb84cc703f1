use vstd::prelude::*;

use crate::config::KrakenConfig;
use crate::dates::{
    format_date,
    format_date_seq,
    current_local_date,
    short_date_seq,
    two_digit_seq,
    year_seq,
    ChangelogDateFormat,
};
use crate::errors::ReleaseError;
use crate::text::{dec_seq, is_alpha, is_digit, is_line_space, lower, zeros};

verus! {

// ---------------------------------------------------------------------------
// Character runs and line structure
// ---------------------------------------------------------------------------

/// End of the run of decimal digits starting at `i`.
pub open spec fn digit_run_end(s: Seq<char>, i: int) -> int
    decreases s.len() - i when 0 <= i <= s.len()
{
    if i < s.len() && is_digit(s[i]) {
        digit_run_end(s, i + 1)
    } else {
        i
    }
}

/// End of the run of ASCII letters starting at `i`.
pub open spec fn alpha_run_end(s: Seq<char>, i: int) -> int
    decreases s.len() - i when 0 <= i <= s.len()
{
    if i < s.len() && is_alpha(s[i]) {
        alpha_run_end(s, i + 1)
    } else {
        i
    }
}

/// End of the run of `#` characters starting at `i`.
pub open spec fn hash_run_end(s: Seq<char>, i: int) -> int
    decreases s.len() - i when 0 <= i <= s.len()
{
    if i < s.len() && s[i] == '#' {
        hash_run_end(s, i + 1)
    } else {
        i
    }
}

/// End of the run of spaces and tabs starting at `i`.
pub open spec fn space_run_end(s: Seq<char>, i: int) -> int
    decreases s.len() - i when 0 <= i <= s.len()
{
    if i < s.len() && is_line_space(s[i]) {
        space_run_end(s, i + 1)
    } else {
        i
    }
}

/// Index just past the line that starts at `i`: the position of the next
/// newline, or the end of the text.
pub open spec fn line_end(s: Seq<char>, i: int) -> int
    decreases s.len() - i when 0 <= i <= s.len()
{
    if i < s.len() && s[i] != '\n' {
        line_end(s, i + 1)
    } else {
        i
    }
}

pub proof fn lemma_line_end(s: Seq<char>, i: int)
    requires
        0 <= i <= s.len(),
    ensures
        i <= line_end(s, i) <= s.len(),
        forall|k: int| i <= k < line_end(s, i) ==> s[k] != '\n',
        line_end(s, i) < s.len() ==> s[line_end(s, i)] == '\n',
    decreases s.len() - i,
{
    if i < s.len() && s[i] != '\n' {
        lemma_line_end(s, i + 1);
    }
}

/// `i` begins a line: it is the start of the text or follows a newline.
pub open spec fn is_line_start(s: Seq<char>, i: int) -> bool {
    0 <= i <= s.len() && (i == 0 || s[i - 1] == '\n')
}

/// The line beginning at line start `i`, without its newline.
pub open spec fn line_at(s: Seq<char>, i: int) -> Seq<char>
    recommends
        is_line_start(s, i),
{
    s.subrange(i, line_end(s, i))
}

// ---------------------------------------------------------------------------
// Date notations in headings
// ---------------------------------------------------------------------------

/// A literal " - " separator at position `j`.
pub open spec fn sep_at(s: Seq<char>, j: int) -> bool {
    &&& 0 <= j
    &&& j + 3 <= s.len()
    &&& s[j] == ' '
    &&& s[j + 1] == '-'
    &&& s[j + 2] == ' '
}

/// Exactly `YYYY-MM-DD`.
pub open spec fn is_short_date(s: Seq<char>) -> bool {
    &&& s.len() == 10
    &&& is_digit(s[0])
    &&& is_digit(s[1])
    &&& is_digit(s[2])
    &&& is_digit(s[3])
    &&& s[4] == '-'
    &&& is_digit(s[5])
    &&& is_digit(s[6])
    &&& s[7] == '-'
    &&& is_digit(s[8])
    &&& is_digit(s[9])
}

/// Exactly `<word> <D>, <YYYY>` or `<word> <DD>, <YYYY>`, the word alphabetic.
pub open spec fn is_long_date(s: Seq<char>) -> bool {
    let w = alpha_run_end(s, 0);
    let dend = digit_run_end(s, w + 1);
    &&& 1 <= w
    &&& w < s.len()
    &&& s[w] == ' '
    &&& 1 <= dend - (w + 1) <= 2
    &&& dend + 6 == s.len()
    &&& s[dend] == ','
    &&& s[dend + 1] == ' '
    &&& digit_run_end(s, dend + 2) == s.len()
}

/// A heading line whose trailing " - " separator is followed by a short date.
pub open spec fn short_date_heading(line: Seq<char>) -> bool {
    &&& line.len() >= 14
    &&& line[0] == '#'
    &&& sep_at(line, line.len() - 13)
    &&& is_short_date(line.subrange(line.len() - 10, line.len() as int))
}

/// A heading line whose trailing " - " separator is followed by a long date.
pub open spec fn long_date_heading(line: Seq<char>) -> bool {
    &&& line.len() >= 1
    &&& line[0] == '#'
    &&& exists|j: int|
        sep_at(line, j) && is_long_date(line.subrange(j + 3, line.len() as int))
}

/// Some line of the text is a heading dated in the short notation.
pub open spec fn doc_has_short(s: Seq<char>) -> bool {
    exists|i: int| is_line_start(s, i) && short_date_heading(#[trigger] line_at(s, i))
}

/// Some line of the text is a heading dated in the long notation.
pub open spec fn doc_has_long(s: Seq<char>) -> bool {
    exists|i: int| is_line_start(s, i) && long_date_heading(#[trigger] line_at(s, i))
}

// ---------------------------------------------------------------------------
// Executable scans
// ---------------------------------------------------------------------------

fn char_is_digit(c: char) -> (b: bool)
    ensures
        b == is_digit(c),
{
    let u = c as u32;
    48 <= u && u <= 57
}

fn char_is_alpha(c: char) -> (b: bool)
    ensures
        b == is_alpha(c),
{
    let u = c as u32;
    (65 <= u && u <= 90) || (97 <= u && u <= 122)
}

fn lower_char(c: char) -> (r: char)
    ensures
        r == lower(c),
{
    let u = c as u32;
    if 65 <= u && u <= 90 {
        ((u + 32) as u8) as char
    } else {
        c
    }
}

fn scan_line_end(s: &str, from: usize) -> (e: usize)
    requires
        from <= s@.len(),
    ensures
        e == line_end(s@, from as int),
        from <= e <= s@.len(),
{
    let n = s.unicode_len();
    let mut j = from;
    loop
        invariant
            from <= j <= n,
            n == s@.len(),
            line_end(s@, from as int) == line_end(s@, j as int),
        ensures
            line_end(s@, from as int) == j,
        decreases n - j,
    {
        if j == n {
            break ;
        }
        let c = s.get_char(j);
        if c == '\n' {
            break ;
        }
        j += 1;
    }
    j
}

fn scan_digit_run(s: &str, from: usize) -> (e: usize)
    requires
        from <= s@.len(),
    ensures
        e == digit_run_end(s@, from as int),
        from <= e <= s@.len(),
{
    let n = s.unicode_len();
    let mut j = from;
    loop
        invariant
            from <= j <= n,
            n == s@.len(),
            digit_run_end(s@, from as int) == digit_run_end(s@, j as int),
        ensures
            digit_run_end(s@, from as int) == j,
        decreases n - j,
    {
        if j == n {
            break ;
        }
        if !char_is_digit(s.get_char(j)) {
            break ;
        }
        j += 1;
    }
    j
}

fn scan_alpha_run(s: &str, from: usize) -> (e: usize)
    requires
        from <= s@.len(),
    ensures
        e == alpha_run_end(s@, from as int),
        from <= e <= s@.len(),
{
    let n = s.unicode_len();
    let mut j = from;
    loop
        invariant
            from <= j <= n,
            n == s@.len(),
            alpha_run_end(s@, from as int) == alpha_run_end(s@, j as int),
        ensures
            alpha_run_end(s@, from as int) == j,
        decreases n - j,
    {
        if j == n {
            break ;
        }
        if !char_is_alpha(s.get_char(j)) {
            break ;
        }
        j += 1;
    }
    j
}

fn scan_hash_run(s: &str, from: usize) -> (e: usize)
    requires
        from <= s@.len(),
    ensures
        e == hash_run_end(s@, from as int),
        from <= e <= s@.len(),
{
    let n = s.unicode_len();
    let mut j = from;
    loop
        invariant
            from <= j <= n,
            n == s@.len(),
            hash_run_end(s@, from as int) == hash_run_end(s@, j as int),
        ensures
            hash_run_end(s@, from as int) == j,
        decreases n - j,
    {
        if j == n {
            break ;
        }
        if s.get_char(j) != '#' {
            break ;
        }
        j += 1;
    }
    j
}

fn scan_space_run(s: &str, from: usize) -> (e: usize)
    requires
        from <= s@.len(),
    ensures
        e == space_run_end(s@, from as int),
        from <= e <= s@.len(),
{
    let n = s.unicode_len();
    let mut j = from;
    loop
        invariant
            from <= j <= n,
            n == s@.len(),
            space_run_end(s@, from as int) == space_run_end(s@, j as int),
        ensures
            space_run_end(s@, from as int) == j,
        decreases n - j,
    {
        if j == n {
            break ;
        }
        let c = s.get_char(j);
        if c != ' ' && c != '\t' {
            break ;
        }
        j += 1;
    }
    j
}

fn check_short_date(t: &str) -> (b: bool)
    ensures
        b == is_short_date(t@),
{
    let n = t.unicode_len();
    if n != 10 {
        return false;
    }
    if !char_is_digit(t.get_char(0)) {
        return false;
    }
    if !char_is_digit(t.get_char(1)) {
        return false;
    }
    if !char_is_digit(t.get_char(2)) {
        return false;
    }
    if !char_is_digit(t.get_char(3)) {
        return false;
    }
    if t.get_char(4) != '-' {
        return false;
    }
    if !char_is_digit(t.get_char(5)) {
        return false;
    }
    if !char_is_digit(t.get_char(6)) {
        return false;
    }
    if t.get_char(7) != '-' {
        return false;
    }
    if !char_is_digit(t.get_char(8)) {
        return false;
    }
    if !char_is_digit(t.get_char(9)) {
        return false;
    }
    true
}

fn check_long_date(t: &str) -> (b: bool)
    ensures
        b == is_long_date(t@),
{
    let n = t.unicode_len();
    let w = scan_alpha_run(t, 0);
    if w < 1 || w >= n {
        return false;
    }
    if t.get_char(w) != ' ' {
        return false;
    }
    let dend = scan_digit_run(t, w + 1);
    let dcount = dend - (w + 1);
    if dcount < 1 || dcount > 2 {
        return false;
    }
    if n < 6 || dend != n - 6 {
        return false;
    }
    if t.get_char(dend) != ',' {
        return false;
    }
    if t.get_char(dend + 1) != ' ' {
        return false;
    }
    if scan_digit_run(t, dend + 2) != n {
        return false;
    }
    true
}

fn check_short_heading(line: &str) -> (b: bool)
    ensures
        b == short_date_heading(line@),
{
    let n = line.unicode_len();
    if n < 14 {
        return false;
    }
    if line.get_char(0) != '#' {
        return false;
    }
    if line.get_char(n - 13) != ' ' {
        return false;
    }
    if line.get_char(n - 12) != '-' {
        return false;
    }
    if line.get_char(n - 11) != ' ' {
        return false;
    }
    let tok = line.substring_char(n - 10, n);
    check_short_date(tok)
}

fn check_long_heading(line: &str) -> (b: bool)
    ensures
        b == long_date_heading(line@),
{
    let n = line.unicode_len();
    if n == 0 {
        return false;
    }
    if line.get_char(0) != '#' {
        return false;
    }
    if n < 3 {
        proof {
            assert(forall|k: int| !sep_at(line@, k));
        }
        return false;
    }
    let mut j: usize = 0;
    while j <= n - 3
        invariant
            0 <= j <= n,
            3 <= n,
            n == line@.len(),
            line@[0] == '#',
            forall|k: int|
                0 <= k < j ==> !(sep_at(line@, k) && is_long_date(
                    #[trigger] line@.subrange(k + 3, line@.len() as int),
                )),
        decreases n - j,
    {
        let mut sep = false;
        if line.get_char(j) == ' ' {
            if line.get_char(j + 1) == '-' {
                if line.get_char(j + 2) == ' ' {
                    sep = true;
                }
            }
        }
        if sep {
            let tok = line.substring_char(j + 3, n);
            if check_long_date(tok) {
                proof {
                    assert(sep_at(line@, j as int) && is_long_date(
                        line@.subrange(j as int + 3, line@.len() as int),
                    ));
                }
                return true;
            }
        }
        j += 1;
    }
    proof {
        assert(forall|k: int|
            sep_at(line@, k) ==> 0 <= k < j || k + 3 > line@.len());
    }
    false
}

// ---------------------------------------------------------------------------
// Date-format detection
// ---------------------------------------------------------------------------

/// A short-dated heading line starts before position `b`.
pub open spec fn short_before(s: Seq<char>, b: int) -> bool {
    exists|i: int|
        is_line_start(s, i) && i < b && short_date_heading(#[trigger] line_at(s, i))
}

/// A long-dated heading line starts before position `b`.
pub open spec fn long_before(s: Seq<char>, b: int) -> bool {
    exists|i: int|
        is_line_start(s, i) && i < b && long_date_heading(#[trigger] line_at(s, i))
}

proof fn lemma_no_starts_within_line(s: Seq<char>, cur: int)
    requires
        is_line_start(s, cur),
    ensures
        forall|i: int| is_line_start(s, i) && cur < i <= line_end(s, cur) ==> false,
        line_end(s, cur) == s.len() ==> forall|i: int| is_line_start(s, i) ==> i <= cur,
{
    lemma_line_end(s, cur);
    assert forall|i: int| is_line_start(s, i) && cur < i <= line_end(s, cur) implies false by {
        assert(s[i - 1] == '\n');
    }
    if line_end(s, cur) == s.len() {
        assert forall|i: int| is_line_start(s, i) implies i <= cur by {
            if i > cur {
                assert(s[i - 1] == '\n');
            }
        }
    }
}

proof fn lemma_short_step(s: Seq<char>, cur: int)
    requires
        is_line_start(s, cur),
    ensures
        short_before(s, line_end(s, cur) + 1) == (short_before(s, cur) || short_date_heading(
            line_at(s, cur),
        )),
        line_end(s, cur) == s.len() ==> doc_has_short(s) == (short_before(s, cur)
            || short_date_heading(line_at(s, cur))),
{
    lemma_line_end(s, cur);
    lemma_no_starts_within_line(s, cur);
    let e = line_end(s, cur);
    if short_before(s, e + 1) {
        let w = choose|i: int|
            is_line_start(s, i) && i < e + 1 && short_date_heading(#[trigger] line_at(s, i));
        if w != cur {
            assert(w < cur);
            assert(short_before(s, cur));
        }
    }
    if short_before(s, cur) {
        let w = choose|i: int|
            is_line_start(s, i) && i < cur && short_date_heading(#[trigger] line_at(s, i));
        assert(is_line_start(s, w) && w < e + 1 && short_date_heading(line_at(s, w)));
    }
    if short_date_heading(line_at(s, cur)) {
        assert(is_line_start(s, cur) && cur < e + 1 && short_date_heading(line_at(s, cur)));
    }
    if e == s.len() {
        if doc_has_short(s) {
            let w = choose|i: int|
                is_line_start(s, i) && short_date_heading(#[trigger] line_at(s, i));
            assert(w < e + 1);
            assert(short_before(s, e + 1));
        }
        if short_before(s, e + 1) {
            assert(doc_has_short(s));
        }
    }
}

proof fn lemma_long_step(s: Seq<char>, cur: int)
    requires
        is_line_start(s, cur),
    ensures
        long_before(s, line_end(s, cur) + 1) == (long_before(s, cur) || long_date_heading(
            line_at(s, cur),
        )),
        line_end(s, cur) == s.len() ==> doc_has_long(s) == (long_before(s, cur)
            || long_date_heading(line_at(s, cur))),
{
    lemma_line_end(s, cur);
    lemma_no_starts_within_line(s, cur);
    let e = line_end(s, cur);
    if long_before(s, e + 1) {
        let w = choose|i: int|
            is_line_start(s, i) && i < e + 1 && long_date_heading(#[trigger] line_at(s, i));
        if w != cur {
            assert(w < cur);
            assert(long_before(s, cur));
        }
    }
    if long_before(s, cur) {
        let w = choose|i: int|
            is_line_start(s, i) && i < cur && long_date_heading(#[trigger] line_at(s, i));
        assert(is_line_start(s, w) && w < e + 1 && long_date_heading(line_at(s, w)));
    }
    if long_date_heading(line_at(s, cur)) {
        assert(is_line_start(s, cur) && cur < e + 1 && long_date_heading(line_at(s, cur)));
    }
    if e == s.len() {
        if doc_has_long(s) {
            let w = choose|i: int|
                is_line_start(s, i) && long_date_heading(#[trigger] line_at(s, i));
            assert(w < e + 1);
            assert(long_before(s, e + 1));
        }
        if long_before(s, e + 1) {
            assert(doc_has_long(s));
        }
    }
}

/// Classifies which date notation the changelog text uses, from the trailing
/// date token of its heading lines. The short notation takes priority over
/// the long one; a text with neither is rejected.
pub fn determine_changelog_date_format(contents: &str) -> (r: Result<
    ChangelogDateFormat,
    ReleaseError,
>)
    ensures
        doc_has_short(contents@) ==> r == Ok::<ChangelogDateFormat, ReleaseError>(
            ChangelogDateFormat::Short,
        ),
        !doc_has_short(contents@) && doc_has_long(contents@) ==> r == Ok::<
            ChangelogDateFormat,
            ReleaseError,
        >(ChangelogDateFormat::Long),
        !doc_has_short(contents@) && !doc_has_long(contents@) ==> r == Err::<
            ChangelogDateFormat,
            ReleaseError,
        >(ReleaseError::NoDateFormatFound),
        r != Ok::<ChangelogDateFormat, ReleaseError>(ChangelogDateFormat::Auto),
{
    let n = contents.unicode_len();
    let mut cur: usize = 0;
    let mut found_short = false;
    let mut found_long = false;
    loop
        invariant_except_break
            found_short == short_before(contents@, cur as int),
            found_long == long_before(contents@, cur as int),
        invariant
            cur <= n,
            n == contents@.len(),
            is_line_start(contents@, cur as int),
        ensures
            found_short == doc_has_short(contents@),
            found_long == doc_has_long(contents@),
        decreases n - cur,
    {
        let ghost cur0 = cur as int;
        let e = scan_line_end(contents, cur);
        let line = contents.substring_char(cur, e);
        proof {
            lemma_line_end(contents@, cur0);
            assert(line@ == line_at(contents@, cur0));
            lemma_short_step(contents@, cur0);
            lemma_long_step(contents@, cur0);
        }
        if check_short_heading(line) {
            found_short = true;
        }
        if check_long_heading(line) {
            found_long = true;
        }
        if e == n {
            break ;
        }
        cur = e + 1;
    }
    if found_short {
        Ok(ChangelogDateFormat::Short)
    } else if found_long {
        Ok(ChangelogDateFormat::Long)
    } else {
        Err(ReleaseError::NoDateFormatFound)
    }
}

// ---------------------------------------------------------------------------
// The "Next release" heading and its replacement
// ---------------------------------------------------------------------------

/// The words "next release" or "next version" stand at position `w`,
/// compared without regard to ASCII case.
pub open spec fn nr_phrase_at(line: Seq<char>, w: int) -> bool {
    &&& 0 <= w
    &&& w + 12 <= line.len()
    &&& lower(line[w]) == 'n'
    &&& lower(line[w + 1]) == 'e'
    &&& lower(line[w + 2]) == 'x'
    &&& lower(line[w + 3]) == 't'
    &&& line[w + 4] == ' '
    &&& ((lower(line[w + 5]) == 'r' && lower(line[w + 6]) == 'e' && lower(line[w + 7]) == 'l'
        && lower(line[w + 8]) == 'e' && lower(line[w + 9]) == 'a' && lower(line[w + 10]) == 's'
        && lower(line[w + 11]) == 'e') || (lower(line[w + 5]) == 'v' && lower(line[w + 6]) == 'e'
        && lower(line[w + 7]) == 'r' && lower(line[w + 8]) == 's' && lower(line[w + 9]) == 'i'
        && lower(line[w + 10]) == 'o' && lower(line[w + 11]) == 'n'))
}

/// End of the heading prefix: the run of `#` marks and the blanks after them.
pub open spec fn nr_prefix_end(line: Seq<char>) -> int {
    space_run_end(line, hash_run_end(line, 0))
}

/// A heading line that announces the next, not yet numbered, release:
/// `#` marks, optional blanks, then "Next release" or "Next version" in any
/// ASCII case, then anything.
pub open spec fn nr_heading(line: Seq<char>) -> bool {
    hash_run_end(line, 0) >= 1 && nr_phrase_at(line, nr_prefix_end(line))
}

/// Some line of the text is a next-release heading.
pub open spec fn has_nr_heading(s: Seq<char>) -> bool {
    exists|i: int| is_line_start(s, i) && nr_heading(#[trigger] line_at(s, i))
}

/// A next-release heading line starts before position `b`.
pub open spec fn nr_before(s: Seq<char>, b: int) -> bool {
    exists|i: int| is_line_start(s, i) && i < b && nr_heading(#[trigger] line_at(s, i))
}

/// `i` starts the first next-release heading line of the text.
pub open spec fn first_nr(s: Seq<char>, i: int) -> bool {
    &&& is_line_start(s, i)
    &&& nr_heading(line_at(s, i))
    &&& !nr_before(s, i)
}

/// The text with the line at `i` replaced by its own heading prefix followed
/// by `<version> - <date>`. Everything around that line is kept, the
/// trailing newline included.
pub open spec fn updated_doc(s: Seq<char>, i: int, v: Seq<char>, d: Seq<char>) -> Seq<char>
    recommends
        is_line_start(s, i),
{
    s.subrange(0, i) + line_at(s, i).subrange(0, nr_prefix_end(line_at(s, i))) + v + seq![
        ' ',
        '-',
        ' ',
    ] + d + s.subrange(line_end(s, i), s.len() as int)
}

proof fn lemma_nr_step(s: Seq<char>, cur: int)
    requires
        is_line_start(s, cur),
    ensures
        nr_before(s, line_end(s, cur) + 1) == (nr_before(s, cur) || nr_heading(line_at(s, cur))),
        line_end(s, cur) == s.len() ==> has_nr_heading(s) == (nr_before(s, cur) || nr_heading(
            line_at(s, cur),
        )),
{
    lemma_line_end(s, cur);
    lemma_no_starts_within_line(s, cur);
    let e = line_end(s, cur);
    if nr_before(s, e + 1) {
        let w = choose|i: int|
            is_line_start(s, i) && i < e + 1 && nr_heading(#[trigger] line_at(s, i));
        if w != cur {
            assert(w < cur);
            assert(nr_before(s, cur));
        }
    }
    if nr_before(s, cur) {
        let w = choose|i: int|
            is_line_start(s, i) && i < cur && nr_heading(#[trigger] line_at(s, i));
        assert(is_line_start(s, w) && w < e + 1 && nr_heading(line_at(s, w)));
    }
    if nr_heading(line_at(s, cur)) {
        assert(is_line_start(s, cur) && cur < e + 1 && nr_heading(line_at(s, cur)));
    }
    if e == s.len() {
        if has_nr_heading(s) {
            let w = choose|i: int| is_line_start(s, i) && nr_heading(#[trigger] line_at(s, i));
            assert(w < e + 1);
            assert(nr_before(s, e + 1));
        }
        if nr_before(s, e + 1) {
            assert(has_nr_heading(s));
        }
    }
}

proof fn lemma_first_nr_exists_aux(s: Seq<char>, w: int)
    requires
        is_line_start(s, w),
        nr_heading(line_at(s, w)),
    ensures
        exists|i: int| first_nr(s, i),
    decreases w,
{
    if nr_before(s, w) {
        let w2 = choose|i: int|
            is_line_start(s, i) && i < w && nr_heading(#[trigger] line_at(s, i));
        lemma_first_nr_exists_aux(s, w2);
    } else {
        assert(first_nr(s, w));
    }
}

/// A text with a next-release heading has a first one: together with the
/// updater's contract, the rewritten text is fully determined.
pub proof fn lemma_first_nr_exists(s: Seq<char>)
    requires
        has_nr_heading(s),
    ensures
        exists|i: int| first_nr(s, i),
{
    let w = choose|i: int| is_line_start(s, i) && nr_heading(#[trigger] line_at(s, i));
    lemma_first_nr_exists_aux(s, w);
}

/// The first next-release heading line is unique.
pub proof fn lemma_first_nr_unique(s: Seq<char>, i: int, j: int)
    requires
        first_nr(s, i),
        first_nr(s, j),
    ensures
        i == j,
{
    if i < j {
        assert(is_line_start(s, i) && i < j && nr_heading(line_at(s, i)));
        assert(nr_before(s, j));
    }
    if j < i {
        assert(is_line_start(s, j) && j < i && nr_heading(line_at(s, j)));
        assert(nr_before(s, i));
    }
}

/// Recognizes a next-release heading; on success, returns the length of its
/// heading prefix (the `#` marks and the blanks after them).
fn check_nr_line(line: &str) -> (r: Option<usize>)
    ensures
        r is Some <==> nr_heading(line@),
        r is Some ==> r->0 == nr_prefix_end(line@),
        r is Some ==> 0 < r->0 <= line@.len(),
{
    let n = line.unicode_len();
    let h = scan_hash_run(line, 0);
    if h == 0 {
        return None;
    }
    let w = scan_space_run(line, h);
    if n < 12 || w > n - 12 {
        return None;
    }
    if lower_char(line.get_char(w)) != 'n' {
        return None;
    }
    if lower_char(line.get_char(w + 1)) != 'e' {
        return None;
    }
    if lower_char(line.get_char(w + 2)) != 'x' {
        return None;
    }
    if lower_char(line.get_char(w + 3)) != 't' {
        return None;
    }
    if line.get_char(w + 4) != ' ' {
        return None;
    }
    let c5 = lower_char(line.get_char(w + 5));
    let c6 = lower_char(line.get_char(w + 6));
    let c7 = lower_char(line.get_char(w + 7));
    let c8 = lower_char(line.get_char(w + 8));
    let c9 = lower_char(line.get_char(w + 9));
    let c10 = lower_char(line.get_char(w + 10));
    let c11 = lower_char(line.get_char(w + 11));
    let release = c5 == 'r' && c6 == 'e' && c7 == 'l' && c8 == 'e' && c9 == 'a' && c10 == 's'
        && c11 == 'e';
    let version = c5 == 'v' && c6 == 'e' && c7 == 'r' && c8 == 's' && c9 == 'i' && c10 == 'o'
        && c11 == 'n';
    if release || version {
        Some(w)
    } else {
        None
    }
}

/// Replaces the first next-release heading line of `contents` with its own
/// heading prefix followed by `<new_version> - <formatted_date>`, leaving the
/// rest of the text untouched. A text without such a heading is rejected,
/// never rewritten.
pub fn apply_changelog_update(contents: &str, new_version: &str, formatted_date: &str) -> (r:
    Result<String, ReleaseError>)
    ensures
        r is Ok <==> has_nr_heading(contents@),
        !has_nr_heading(contents@) ==> r == Err::<String, ReleaseError>(
            ReleaseError::NextReleaseHeaderNotFound,
        ),
        forall|i: int|
            first_nr(contents@, i) && r is Ok ==> r.unwrap()@ == updated_doc(
                contents@,
                i,
                new_version@,
                formatted_date@,
            ),
{
    let n = contents.unicode_len();
    let mut cur: usize = 0;
    loop
        invariant
            cur <= n,
            n == contents@.len(),
            is_line_start(contents@, cur as int),
            !nr_before(contents@, cur as int),
        ensures
            !has_nr_heading(contents@),
        decreases n - cur,
    {
        let ghost cur0 = cur as int;
        let e = scan_line_end(contents, cur);
        let line = contents.substring_char(cur, e);
        proof {
            lemma_line_end(contents@, cur0);
            assert(line@ == line_at(contents@, cur0));
            lemma_nr_step(contents@, cur0);
        }
        if let Some(w) = check_nr_line(line) {
            let mut out = contents.substring_char(0, cur + w).to_owned();
            out.append(new_version);
            out.append(" - ");
            out.append(formatted_date);
            out.append(contents.substring_char(e, n));
            proof {
                reveal_strlit(" - ");
                assert(first_nr(contents@, cur0));
                assert(line_at(contents@, cur0).subrange(0, nr_prefix_end(line_at(contents@, cur0)))
                    =~= contents@.subrange(cur0, cur0 + w));
                assert(contents@.subrange(0, cur0) + contents@.subrange(cur0, cur0 + w)
                    =~= contents@.subrange(0, cur0 + w));
                assert(" - "@ =~= seq![' ', '-', ' ']);
                assert(out@ =~= updated_doc(contents@, cur0, new_version@, formatted_date@));
                assert forall|i: int| first_nr(contents@, i) implies i == cur0 by {
                    lemma_first_nr_unique(contents@, i, cur0);
                }
                assert(is_line_start(contents@, cur0) && nr_heading(line_at(contents@, cur0)));
            }
            return Ok(out);
        }
        if e == n {
            break ;
        }
        cur = e + 1;
    }
    Err(ReleaseError::NextReleaseHeaderNotFound)
}

/// The date format has been resolved to a concrete notation.
pub open spec fn concrete_format(f: Option<ChangelogDateFormat>) -> bool {
    f == Some(ChangelogDateFormat::Long) || f == Some(ChangelogDateFormat::Short)
}

/// `out` is `s` with its first next-release heading rewritten for version `v`
/// and the date `y`-`m`-`d` rendered in notation `f`.
pub open spec fn updated_on_date(
    s: Seq<char>,
    v: Seq<char>,
    out: Seq<char>,
    f: ChangelogDateFormat,
    y: int,
    m: int,
    d: int,
) -> bool {
    forall|i: int| first_nr(s, i) ==> out == updated_doc(s, i, v, format_date_seq(f, y, m, d))
}

/// Rewrites the first next-release heading of the changelog text with the new
/// version and the current local date, rendered in the configured notation.
/// A configuration whose date format was never resolved is rejected before
/// anything else; a text without a next-release heading is rejected too.
pub fn update_changelog(new_version: &str, config: &KrakenConfig, contents: &str) -> (r: Result<
    String,
    ReleaseError,
>)
    ensures
        !concrete_format(config@.changelog_date_format) <==> r == Err::<String, ReleaseError>(
            ReleaseError::UnsupportedDateFormat,
        ),
        concrete_format(config@.changelog_date_format) ==> (r is Ok <==> has_nr_heading(
            contents@,
        )),
        concrete_format(config@.changelog_date_format) && !has_nr_heading(contents@) ==> r == Err::<
            String,
            ReleaseError,
        >(ReleaseError::NextReleaseHeaderNotFound),
        r is Ok ==> exists|y: int, m: int, d: int|
            1 <= m <= 12 && 1 <= d <= 31 && #[trigger] updated_on_date(
                contents@,
                new_version@,
                r.unwrap()@,
                config@.changelog_date_format->0,
                y,
                m,
                d,
            ),
{
    let fmt = match config.changelog_date_format {
        Some(ChangelogDateFormat::Long) => ChangelogDateFormat::Long,
        Some(ChangelogDateFormat::Short) => ChangelogDateFormat::Short,
        _ => {
            return Err(ReleaseError::UnsupportedDateFormat);
        },
    };
    let (y, m, d) = current_local_date();
    let formatted_date = match format_date(fmt, y, m, d) {
        Ok(s) => s,
        Err(e) => {
            return Err(e);
        },
    };
    let r = apply_changelog_update(contents, new_version, formatted_date.as_str());
    proof {
        if r is Ok {
            assert(updated_on_date(
                contents@,
                new_version@,
                r.unwrap()@,
                config@.changelog_date_format->0,
                y as int,
                m as int,
                d as int,
            ));
        }
    }
    r
}

// ---------------------------------------------------------------------------
// Laws: detection and the round trip of an update
// ---------------------------------------------------------------------------

/// A text with a heading line that ends in " - " and a short date is
/// classified as short-dated; `determine_changelog_date_format` then answers
/// `Short` for it.
pub proof fn lemma_dated_heading_detected(s: Seq<char>, i: int)
    requires
        is_line_start(s, i),
        short_date_heading(line_at(s, i)),
    ensures
        doc_has_short(s),
{
    assert(is_line_start(s, i) && short_date_heading(line_at(s, i)));
}

proof fn lemma_zeros_digits(k: int)
    ensures
        forall|j: int| 0 <= j < zeros(k).len() ==> zeros(k)[j] == '0',
        zeros(k).len() == if k <= 0 { 0int } else { k },
    decreases k,
{
    if k > 0 {
        lemma_zeros_digits(k - 1);
    }
}

/// A date rendered in the short notation is a well-formed short date token.
pub proof fn lemma_short_date_seq_valid(y: int, m: int, d: int)
    requires
        0 <= y <= 9999,
        0 <= m < 100,
        0 <= d < 100,
    ensures
        is_short_date(short_date_seq(y, m, d)),
        forall|k: int|
            0 <= k < short_date_seq(y, m, d).len() ==> #[trigger] short_date_seq(y, m, d)[k]
                != '\n',
{
    crate::text::lemma_dec_seq_len(y);
    crate::text::lemma_dec_seq_len(m);
    crate::text::lemma_dec_seq_len(d);
    crate::text::lemma_dec_seq_digits(y);
    crate::text::lemma_dec_seq_digits(m);
    crate::text::lemma_dec_seq_digits(d);
    lemma_zeros_digits(4 - dec_seq(y).len());
    lemma_zeros_digits(2 - dec_seq(m).len());
    lemma_zeros_digits(2 - dec_seq(d).len());
    assert(year_seq(y).len() == 4);
    assert(two_digit_seq(m).len() == 2);
    assert(two_digit_seq(d).len() == 2);
    assert(forall|k: int| 0 <= k < year_seq(y).len() ==> is_digit(#[trigger] year_seq(y)[k]));
    assert(forall|k: int|
        0 <= k < two_digit_seq(m).len() ==> is_digit(#[trigger] two_digit_seq(m)[k]));
    assert(forall|k: int|
        0 <= k < two_digit_seq(d).len() ==> is_digit(#[trigger] two_digit_seq(d)[k]));
    let t = short_date_seq(y, m, d);
    assert(t.len() == 10);
    assert(is_digit(t[0]) && is_digit(t[1]) && is_digit(t[2]) && is_digit(t[3]));
    assert(t[4] == '-');
    assert(is_digit(t[5]) && is_digit(t[6]));
    assert(t[7] == '-');
    assert(is_digit(t[8]) && is_digit(t[9]));
    assert forall|k: int| 0 <= k < t.len() implies #[trigger] t[k] != '\n' by {
        if is_digit(t[k]) {
        } else {
            assert(t[k] == '-');
        }
    }
}

proof fn lemma_hash_run_end(s: Seq<char>, i: int)
    requires
        0 <= i <= s.len(),
    ensures
        i <= hash_run_end(s, i) <= s.len(),
        forall|k: int| i <= k < hash_run_end(s, i) ==> s[k] == '#',
    decreases s.len() - i,
{
    if i < s.len() && s[i] == '#' {
        lemma_hash_run_end(s, i + 1);
    }
}

proof fn lemma_space_run_end(s: Seq<char>, i: int)
    requires
        0 <= i <= s.len(),
    ensures
        i <= space_run_end(s, i) <= s.len(),
        forall|k: int| i <= k < space_run_end(s, i) ==> is_line_space(s[k]),
    decreases s.len() - i,
{
    if i < s.len() && is_line_space(s[i]) {
        lemma_space_run_end(s, i + 1);
    }
}

proof fn lemma_line_end_is(s: Seq<char>, a: int, b: int)
    requires
        0 <= a <= b <= s.len(),
        forall|k: int| a <= k < b ==> s[k] != '\n',
        b < s.len() ==> s[b] == '\n',
    ensures
        line_end(s, a) == b,
    decreases b - a,
{
    if a < b {
        lemma_line_end_is(s, a + 1, b);
    }
}

/// Rewriting the first next-release heading with a newline-free version and a
/// short date token leaves a text with a short-dated heading: detection on
/// the updated text answers `Short` again.
pub proof fn lemma_update_redetected_short(s: Seq<char>, i: int, v: Seq<char>, d: Seq<char>)
    requires
        is_line_start(s, i),
        nr_heading(line_at(s, i)),
        forall|k: int| 0 <= k < v.len() ==> v[k] != '\n',
        is_short_date(d),
        forall|k: int| 0 <= k < d.len() ==> d[k] != '\n',
    ensures
        doc_has_short(updated_doc(s, i, v, d)),
{
    let line = line_at(s, i);
    let e = line_end(s, i);
    let w = nr_prefix_end(line);
    lemma_line_end(s, i);
    lemma_hash_run_end(line, 0);
    lemma_space_run_end(line, hash_run_end(line, 0));
    assert(1 <= hash_run_end(line, 0) <= w <= line.len());
    assert(line[0] == '#');
    let prefix = line.subrange(0, w);
    let sep = seq![' ', '-', ' '];
    let u = updated_doc(s, i, v, d);
    let newline = prefix + v + sep + d;
    let ll = newline.len() as int;
    assert(ll == w + v.len() + 3 + d.len());
    assert(u =~= s.subrange(0, i) + newline + s.subrange(e, s.len() as int));
    // the prefix of the text is unchanged, so `i` still starts a line
    assert(forall|k: int| 0 <= k < i ==> u[k] == s[k]);
    assert(is_line_start(u, i));
    // no newline anywhere in the rewritten line
    assert(forall|k: int| 0 <= k < line.len() ==> line[k] != '\n');
    assert forall|k: int| 0 <= k < ll implies newline[k] != '\n' by {
        if k < w {
            assert(newline[k] == line[k]);
        } else if k < w + v.len() {
            assert(newline[k] == v[k - w]);
        } else if k < w + v.len() + 3 {
            assert(newline[k] == sep[k - w - v.len()]);
        } else {
            assert(newline[k] == d[k - w - v.len() - 3]);
        }
    }
    assert forall|k: int| i <= k < i + ll implies u[k] != '\n' by {
        assert(u[k] == newline[k - i]);
    }
    if i + ll < u.len() {
        assert(u[i + ll] == s[e]);
        assert(e < s.len());
        assert(s[e] == '\n');
    }
    lemma_line_end_is(u, i, i + ll);
    assert(line_at(u, i) =~= newline);
    // the rewritten line is a short-dated heading
    assert(newline[0] == line[0]);
    assert(newline.len() >= 14);
    assert(is_short_date(d) ==> d.len() == 10);
    assert(newline[ll - 13] == sep[0]);
    assert(newline[ll - 12] == sep[1]);
    assert(newline[ll - 11] == sep[2]);
    assert(sep_at(newline, ll - 13));
    assert(newline.subrange(ll - 10, ll) =~= d);
    assert(short_date_heading(newline));
    lemma_dated_heading_detected(u, i);
}

/// The round trip of a short-notation release: updating the first
/// next-release heading with a newline-free version string and the short
/// rendering of a calendar date yields a text that the detector classifies
/// as short-dated again.
pub proof fn lemma_update_round_trip_short(
    s: Seq<char>,
    i: int,
    v: Seq<char>,
    y: int,
    m: int,
    d: int,
)
    requires
        is_line_start(s, i),
        nr_heading(line_at(s, i)),
        forall|k: int| 0 <= k < v.len() ==> v[k] != '\n',
        0 <= y <= 9999,
        0 <= m < 100,
        0 <= d < 100,
    ensures
        doc_has_short(updated_doc(s, i, v, short_date_seq(y, m, d))),
{
    lemma_short_date_seq_valid(y, m, d);
    lemma_update_redetected_short(s, i, v, short_date_seq(y, m, d));
}

} // verus!
