//! Date pattern conversion (Java style to strftime) and date normalisation
//! to the `dd-MM-yyyy` form handed to extensions.

use chrono::Datelike;
use vstd::prelude::*;
use crate::numbers::{all_digits, digits_value, is_digit, parse_i64, parse_i64_spec, zero_padded};
use crate::text::{chars_of, is_ws, push_char, string_of, trim, trim_chars, trim_end, trim_start};

verus! {

// ─── Java pattern → strftime ─────────────────────────────────────────────

/// Number of consecutive copies of `c` in `s` starting at index `j`.
pub open spec fn run_from(s: Seq<char>, c: char, j: int) -> nat
    decreases s.len() - j,
{
    if 0 <= j < s.len() && s[j] == c {
        1 + run_from(s, c, j + 1)
    } else {
        0
    }
}

/// First index at or after `j` holding a single quote, or `s.len()`.
pub open spec fn quote_end(s: Seq<char>, j: int) -> int
    decreases s.len() - j,
{
    if j < 0 || j >= s.len() || s[j] == '\'' {
        if j < 0 { 0 } else if j > s.len() { s.len() as int } else { j }
    } else {
        quote_end(s, j + 1)
    }
}

/// Some character before index `i` is `H`, `h` or `:` (a minute context).
pub open spec fn minute_context(s: Seq<char>, i: int) -> bool {
    exists|j: int| 0 <= j < i && (s[j] == 'H' || s[j] == 'h' || s[j] == ':')
}

/// `n` copies of `c`.
pub open spec fn repeat(c: char, n: nat) -> Seq<char> {
    Seq::new(n, |k: int| c)
}

/// The strftime text for a run of `count` copies of `c` starting at `i`.
pub open spec fn java_token(s: Seq<char>, i: int, c: char, count: nat) -> Seq<char> {
    if c == 'y' {
        if count >= 4 { seq!['%', 'Y'] } else { seq!['%', 'y'] }
    } else if c == 'M' {
        if count >= 4 { seq!['%', 'B'] } else if count == 3 { seq!['%', 'b'] } else { seq!['%', 'm'] }
    } else if c == 'd' {
        seq!['%', 'd']
    } else if c == 'H' {
        seq!['%', 'H']
    } else if c == 'h' {
        seq!['%', 'I']
    } else if c == 'm' && i > 0 && minute_context(s, i) {
        seq!['%', 'M']
    } else if c == 's' {
        seq!['%', 'S']
    } else if c == 'S' {
        seq!['%', '.', 'f']
    } else if c == 'a' {
        seq!['%', 'p']
    } else if c == 'Z' || c == 'z' || c == 'X' {
        seq!['%', ':', 'z']
    } else {
        repeat(c, count)
    }
}

/// Conversion of the Java date pattern `s` from index `i` on: runs of a
/// pattern letter become one strftime directive, text between single quotes
/// is copied literally, anything else is copied unchanged.
pub open spec fn java_to_strftime_from(s: Seq<char>, i: int) -> Seq<char>
    decreases s.len() + 1 - i,
{
    if i < 0 || i >= s.len() {
        Seq::empty()
    } else if s[i] == '\'' {
        let e = quote_end(s, i + 1);
        if e < i + 1 || e > s.len() {
            Seq::empty()
        } else {
            s.subrange(i + 1, e) + java_to_strftime_from(s, e + 1)
        }
    } else {
        let count = run_from(s, s[i], i);
        if count == 0 || i + count > s.len() {
            Seq::empty()
        } else {
            java_token(s, i, s[i], count) + java_to_strftime_from(s, i + count)
        }
    }
}

/// Conversion of a whole Java date pattern.
pub open spec fn java_to_strftime(s: Seq<char>) -> Seq<char> {
    java_to_strftime_from(s, 0)
}

proof fn lemma_run_from(s: Seq<char>, c: char, i: int, k: int)
    requires
        0 <= i <= k <= s.len(),
        forall|j: int| i <= j < k ==> s[j] == c,
        k == s.len() || s[k] != c,
    ensures
        run_from(s, c, i) == k - i,
    decreases k - i,
{
    if i < k {
        lemma_run_from(s, c, i + 1, k);
    }
}

proof fn lemma_quote_end(s: Seq<char>, j: int, k: int)
    requires
        0 <= j <= k <= s.len(),
        forall|t: int| j <= t < k ==> s[t] != '\'',
        k == s.len() || s[k] == '\'',
    ensures
        quote_end(s, j) == k,
    decreases k - j,
{
    if j < k {
        lemma_quote_end(s, j + 1, k);
    }
}

/// A run of `n` letters `y` at index `i` of a pattern (not continued by
/// another `y`) converts to the two-digit year `%y` when `n` is below four
/// and to the full year `%Y` otherwise, followed by the conversion of the
/// rest.
pub proof fn lemma_year_run(s: Seq<char>, i: int, n: int)
    requires
        0 <= i,
        1 <= n,
        i + n <= s.len(),
        forall|j: int| i <= j < i + n ==> s[j] == 'y',
        i + n == s.len() || s[i + n] != 'y',
    ensures
        n < 4 ==> java_to_strftime_from(s, i) == seq!['%', 'y'] + java_to_strftime_from(s, i + n),
        n >= 4 ==> java_to_strftime_from(s, i) == seq!['%', 'Y'] + java_to_strftime_from(s, i + n),
{
    lemma_run_from(s, 'y', i, i + n);
    assert(s[i] == 'y');
}

/// A run of `n` copies of the letter `c` at index `i` of a pattern (not
/// continued by another `c`) converts, ahead of the conversion of the rest,
/// to: for `M`, the month name `%B` when four or more, the short name `%b`
/// when three, the number `%m` otherwise; for `d` the day `%d`; for `H` the
/// hour `%H`; for `h` the twelve-hour `%I`; for `s` the seconds `%S`; for
/// `a` the half of the day `%p`; and for a character that is no pattern
/// letter, itself `n` times.
pub proof fn lemma_letter_run(s: Seq<char>, i: int, n: int, c: char)
    requires
        0 <= i,
        1 <= n,
        i + n <= s.len(),
        forall|j: int| i <= j < i + n ==> s[j] == c,
        i + n == s.len() || s[i + n] != c,
        c != '\'',
    ensures
        ({
            let rest = java_to_strftime_from(s, i + n);
            let conv = java_to_strftime_from(s, i);
            &&& c == 'M' && n >= 4 ==> conv == seq!['%', 'B'] + rest
            &&& c == 'M' && n == 3 ==> conv == seq!['%', 'b'] + rest
            &&& c == 'M' && n <= 2 ==> conv == seq!['%', 'm'] + rest
            &&& c == 'd' ==> conv == seq!['%', 'd'] + rest
            &&& c == 'H' ==> conv == seq!['%', 'H'] + rest
            &&& c == 'h' ==> conv == seq!['%', 'I'] + rest
            &&& c == 's' ==> conv == seq!['%', 'S'] + rest
            &&& c == 'a' ==> conv == seq!['%', 'p'] + rest
            &&& !(c == 'y' || c == 'M' || c == 'd' || c == 'H' || c == 'h' || c == 'm' || c == 's' || c == 'S' || c
                == 'a' || c == 'Z' || c == 'z' || c == 'X') ==> conv == Seq::new(n as nat, |k: int| c) + rest
        }),
{
    lemma_run_from(s, c, i, i + n);
    assert(s[i] == c);
}

fn push2(r: &mut String, a: char, b: char)
    ensures
        final(r)@ == old(r)@ + seq![a, b],
{
    push_char(r, a);
    push_char(r, b);
    assert(r@ =~= old(r)@ + seq![a, b]);
}

/// Whether some character before index `i` is `H`, `h` or `:`.
fn has_minute_context(s: &Vec<char>, i: usize) -> (b: bool)
    requires
        i <= s.len(),
    ensures
        b == minute_context(s@, i as int),
{
    let mut j: usize = 0;
    while j < i
        invariant
            i <= s.len(),
            j <= i,
            forall|t: int| 0 <= t < j ==> !(s@[t] == 'H' || s@[t] == 'h' || s@[t] == ':'),
        decreases i - j,
    {
        if s[j] == 'H' || s[j] == 'h' || s[j] == ':' {
            return true;
        }
        j = j + 1;
    }
    false
}

/// Appends the strftime text for a run of `count` copies of `c` at `i`.
fn push_token(r: &mut String, s: &Vec<char>, i: usize, c: char, count: usize)
    requires
        i < s.len(),
    ensures
        final(r)@ == old(r)@ + java_token(s@, i as int, c, count as nat),
{
    if c == 'y' {
        if count >= 4 { push2(r, '%', 'Y') } else { push2(r, '%', 'y') }
    } else if c == 'M' {
        if count >= 4 {
            push2(r, '%', 'B')
        } else if count == 3 {
            push2(r, '%', 'b')
        } else {
            push2(r, '%', 'm')
        }
    } else if c == 'd' {
        push2(r, '%', 'd')
    } else if c == 'H' {
        push2(r, '%', 'H')
    } else if c == 'h' {
        push2(r, '%', 'I')
    } else if c == 'm' && i > 0 && has_minute_context(s, i) {
        push2(r, '%', 'M')
    } else if c == 's' {
        push2(r, '%', 'S')
    } else if c == 'S' {
        push2(r, '%', '.');
        push_char(r, 'f');
        assert(r@ =~= old(r)@ + seq!['%', '.', 'f']);
    } else if c == 'a' {
        push2(r, '%', 'p')
    } else if c == 'Z' || c == 'z' || c == 'X' {
        push2(r, '%', ':');
        push_char(r, 'z');
        assert(r@ =~= old(r)@ + seq!['%', ':', 'z']);
    } else {
        let mut k: usize = 0;
        while k < count
            invariant
                k <= count,
                r@ == old(r)@ + repeat(c, k as nat),
            decreases count - k,
        {
            push_char(r, c);
            assert(repeat(c, (k + 1) as nat) =~= repeat(c, k as nat).push(c));
            k = k + 1;
        }
    }
}

/// Converts a Java-style date pattern (e.g. `"yyyy-MM-dd"`) to a strftime
/// pattern (`"%Y-%m-%d"`).
pub fn java_format_to_strftime(java_fmt: &str) -> (r: String)
    ensures
        r@ == java_to_strftime(java_fmt@),
{
    let s = chars_of(java_fmt);
    let len = s.len();
    let mut r = String::new();
    let mut i: usize = 0;
    while i < len
        invariant
            len == s.len(),
            s@ == java_fmt@,
            i <= len,
            r@ + java_to_strftime_from(s@, i as int) == java_to_strftime(s@),
        decreases len - i,
    {
        let ch = s[i];
        if ch == '\'' {
            let ghost r0 = r@;
            let mut j = i + 1;
            while j < len && s[j] != '\''
                invariant
                    len == s.len(),
                    i < len,
                    i + 1 <= j <= len,
                    forall|t: int| i + 1 <= t < j ==> s@[t] != '\'',
                    r@ == r0 + s@.subrange(i + 1, j as int),
                decreases len - j,
            {
                push_char(&mut r, s[j]);
                assert(s@.subrange(i + 1, j + 1) =~= s@.subrange(i + 1, j as int).push(s@[j as int]));
                j = j + 1;
            }
            proof {
                lemma_quote_end(s@, i + 1, j as int);
            }
            if j >= len {
                assert(java_to_strftime_from(s@, j + 1) == Seq::<char>::empty());
                assert(r@ =~= java_to_strftime(s@));
                return r;
            }
            i = j + 1;
        } else {
            let mut count: usize = 1;
            while i + count < len && s[i + count] == ch
                invariant
                    len == s.len(),
                    i < len,
                    1 <= count,
                    i + count <= len,
                    s@[i as int] == ch,
                    forall|t: int| i <= t < i + count ==> s@[t] == ch,
                decreases len - i - count,
            {
                count = count + 1;
            }
            proof {
                lemma_run_from(s@, ch, i as int, i + count);
            }
            let ghost r0 = r@;
            push_token(&mut r, &s, i, ch, count);
            assert(r@ + java_to_strftime_from(s@, i + count) =~= r0 + java_to_strftime_from(
                s@,
                i as int,
            ));
            i = i + count;
        }
    }
    assert(r@ =~= java_to_strftime(s@));
    r
}

// ─── calendar facts ──────────────────────────────────────────────────────

/// Gregorian leap year (proleptic).
pub open spec fn is_leap(y: int) -> bool {
    y % 4 == 0 && (y % 100 != 0 || y % 400 == 0)
}

/// Days in month `m` of year `y`.
pub open spec fn days_in_month(y: int, m: int) -> int {
    if m == 2 {
        if is_leap(y) { 29 } else { 28 }
    } else if m == 4 || m == 6 || m == 9 || m == 11 {
        30
    } else {
        31
    }
}

/// A calendar date that chrono's `NaiveDate` can hold.
pub open spec fn valid_ymd(y: int, m: int, d: int) -> bool {
    &&& -262143 <= y <= 262142
    &&& 1 <= m <= 12
    &&& 1 <= d <= days_in_month(y, m)
}

/// Civil (year, month, day) of the day `days` after 1970-01-01.
pub open spec fn civil_from_days(days: int) -> (int, int, int) {
    let z = days + 719468;
    let era = z / 146097;
    let doe = z - era * 146097;
    let yoe = (doe - doe / 1460 + doe / 36524 - doe / 146096) / 365;
    let y = yoe + era * 400;
    let doy = doe - (365 * yoe + yoe / 4 - yoe / 100);
    let mp = (5 * doy + 2) / 153;
    let d = doy - (153 * mp + 2) / 5 + 1;
    let m = if mp < 10 { mp + 3 } else { mp - 9 };
    (if m <= 2 { y + 1 } else { y }, m, d)
}

/// Civil date fields of the instant `secs` seconds after the epoch.
pub open spec fn epoch_civil_fields(secs: i64) -> (i32, u32, u32) {
    let c = civil_from_days(secs as int / 86400);
    (c.0 as i32, c.1 as u32, c.2 as u32)
}

// ─── chrono calls ────────────────────────────────────────────────────────

/// Date fields of `chrono::NaiveDateTime::parse_from_str(input, fmt)`.
pub uninterp spec fn datetime_parse_fields(input: Seq<char>, fmt: Seq<char>) -> Option<(i32, u32, u32)>;

/// Fields of `chrono::NaiveDate::parse_from_str(input, fmt)`.
pub uninterp spec fn date_parse_fields(input: Seq<char>, fmt: Seq<char>) -> Option<(i32, u32, u32)>;

/// Text of the date `year-month-day` rendered by chrono with pattern `fmt`.
pub uninterp spec fn date_text(year: i32, month: u32, day: u32, fmt: Seq<char>) -> Seq<char>;

/// Date fields of `chrono::DateTime::from_timestamp(secs, 0)` (UTC).
pub uninterp spec fn timestamp_fields(secs: i64) -> Option<(i32, u32, u32)>;

/// Calls `chrono::NaiveDateTime::parse_from_str` and keeps the date part
/// as (year, month, day). Claimed: the result is a function of the two
/// strings, and any date it yields is one chrono can represent.
#[verifier::external_body]
fn parse_datetime_fields(input: &str, fmt: &str) -> (r: Option<(i32, u32, u32)>)
    ensures
        r == datetime_parse_fields(input@, fmt@),
        r matches Some(f) ==> valid_ymd(f.0 as int, f.1 as int, f.2 as int),
{
    match chrono::NaiveDateTime::parse_from_str(input, fmt) {
        Ok(d) => Some((d.year(), d.month(), d.day())),
        Err(_) => None,
    }
}

/// Calls `chrono::NaiveDate::parse_from_str` and returns (year, month, day).
/// Claimed: the result is a function of the two strings, and any date it
/// yields is one chrono can represent.
#[verifier::external_body]
fn parse_date_fields(input: &str, fmt: &str) -> (r: Option<(i32, u32, u32)>)
    ensures
        r == date_parse_fields(input@, fmt@),
        r matches Some(f) ==> valid_ymd(f.0 as int, f.1 as int, f.2 as int),
{
    match chrono::NaiveDate::parse_from_str(input, fmt) {
        Ok(d) => Some((d.year(), d.month(), d.day())),
        Err(_) => None,
    }
}

/// Calls `chrono::DateTime::from_timestamp(secs, 0)` and returns the UTC
/// (year, month, day). Claimed: a function of `secs`; a representable date;
/// and, for instants from 1970 through the year 9999, the proleptic
/// Gregorian date of day `secs / 86400` after the epoch.
#[verifier::external_body]
fn utc_date_of_timestamp(secs: i64) -> (r: Option<(i32, u32, u32)>)
    ensures
        r == timestamp_fields(secs),
        r matches Some(f) ==> valid_ymd(f.0 as int, f.1 as int, f.2 as int),
        0 <= secs <= 253402300799 ==> r == Some(epoch_civil_fields(secs)),
{
    match chrono::DateTime::from_timestamp(secs, 0) {
        Some(d) => Some((d.year(), d.month(), d.day())),
        None => None,
    }
}

/// `dd-mm-yyyy` with each field zero-padded: what `%d-%m-%Y` writes for a
/// year from 0 through 9999.
pub open spec fn dmy_text(year: i32, month: u32, day: u32) -> Seq<char> {
    zero_padded(day as nat, 2) + seq!['-'] + zero_padded(month as nat, 2) + seq!['-'] + zero_padded(
        year as nat,
        4,
    )
}

/// Renders a valid date with chrono (`NaiveDate::from_ymd_opt` then
/// `format(fmt).to_string()`). Claimed: the text is a function of the date
/// and the pattern, and for years 0 through 9999 it is the day and month
/// as two digits and the year as four, joined by `-` (chrono's `%d`, `%m`
/// and `%Y` pad with zeros; `%Y` adds a sign only outside that range). The
/// pattern is limited to `%d-%m-%Y`, which chrono always renders.
#[verifier::external_body]
fn render_date(year: i32, month: u32, day: u32, fmt: &str) -> (r: String)
    requires
        valid_ymd(year as int, month as int, day as int),
        fmt@ == day_month_year_pattern(),
    ensures
        r@ == date_text(year, month, day, fmt@),
        0 <= year <= 9999 ==> r@ == dmy_text(year, month, day),
{
    chrono::NaiveDate::from_ymd_opt(year, month, day).unwrap().format(fmt).to_string()
}

// ─── normalisation ───────────────────────────────────────────────────────

/// The output pattern `%d-%m-%Y`.
pub open spec fn day_month_year_pattern() -> Seq<char> {
    seq!['%', 'd', '-', '%', 'm', '-', '%', 'Y']
}

/// The patterns tried, in order, when no pattern is given.
pub open spec fn auto_formats() -> Seq<Seq<char>> {
    seq![
        "%Y-%m-%dT%H:%M:%S%.fZ"@,
        "%Y-%m-%dT%H:%M:%S%.f%:z"@,
        "%Y-%m-%dT%H:%M:%S%:z"@,
        "%Y-%m-%dT%H:%M:%SZ"@,
        "%Y-%m-%dT%H:%M:%S"@,
        "%Y-%m-%dT%H:%M"@,
        "%Y-%m-%d"@,
        "%d/%m/%Y"@,
        "%d.%m.%Y"@,
        "%B %d, %Y"@,
        "%b %d, %Y"@,
        "%d %B %Y"@,
        "%d %b %Y"@,
    ]
}

/// Date read from `t` with pattern `fmt`: as a date-time first, then as a
/// plain date.
pub open spec fn parse_with_pattern(t: Seq<char>, fmt: Seq<char>) -> Option<(i32, u32, u32)> {
    match datetime_parse_fields(t, fmt) {
        Some(f) => Some(f),
        None => date_parse_fields(t, fmt),
    }
}

/// Date read from `t` with the first automatic pattern, from index `k`
/// on, that accepts it.
pub open spec fn first_auto_parse(t: Seq<char>, k: int) -> Option<(i32, u32, u32)>
    decreases 13 - k,
{
    if k < 0 || k >= 13 {
        None
    } else {
        match parse_with_pattern(t, auto_formats()[k]) {
            Some(f) => Some(f),
            None => first_auto_parse(t, k + 1),
        }
    }
}

/// Date of `t` read as a Unix timestamp: milliseconds above 10^12,
/// seconds above 10^9, otherwise none.
pub open spec fn timestamp_date(t: Seq<char>) -> Option<(i32, u32, u32)> {
    match parse_i64_spec(t) {
        Some(num) => if num > 1_000_000_000_000 {
            timestamp_fields((num / 1000) as i64)
        } else if num > 1_000_000_000 {
            timestamp_fields(num)
        } else {
            None
        },
        None => None,
    }
}

/// The date of `input` with no pattern given: a Unix timestamp, or else the
/// first automatic pattern that accepts the trimmed text.
pub open spec fn auto_date(input: Seq<char>) -> Option<(i32, u32, u32)> {
    let t = trim(input);
    match timestamp_date(t) {
        Some(f) => Some(f),
        None => first_auto_parse(t, 0),
    }
}

/// The `dd-MM-yyyy` text of an optional date (written by chrono; for years
/// 0 through 9999 the zero-padded fields joined by `-`).
pub open spec fn rendered(f: Option<(i32, u32, u32)>) -> Option<Seq<char>> {
    match f {
        Some(x) => if 0 <= x.0 <= 9999 {
            Some(dmy_text(x.0, x.1, x.2))
        } else {
            Some(date_text(x.0, x.1, x.2, day_month_year_pattern()))
        },
        None => None,
    }
}

proof fn lemma_digit_text(t: Seq<char>)
    requires
        t.len() > 0,
        all_digits(t),
        1_000_000_000 < digits_value(t) <= i64::MAX,
    ensures
        trim(t) == t,
        parse_i64_spec(t) == Some(digits_value(t) as i64),
{
    assert(is_digit(t[0]) && is_digit(t.last()));
    assert(!is_ws(t[0]) && !is_ws(t.last()));
    assert(trim_start(t) == t);
    assert(trim_end(t) == t);
    assert(t[0] != '-' && t[0] != '+');
}

/// A date given as nothing but digits, read as the number `n`, is a Unix
/// timestamp: seconds when 10^9 < n <= 10^12, milliseconds when n > 10^12.
/// Whenever chrono gives the UTC date of that instant, that date is the
/// one read.
pub proof fn lemma_unix_timestamp_text(t: Seq<char>)
    requires
        t.len() > 0,
        all_digits(t),
    ensures
        1_000_000_000 < digits_value(t) <= 1_000_000_000_000 && timestamp_fields(digits_value(t) as i64) is Some
            ==> auto_date(t) == timestamp_fields(digits_value(t) as i64),
        1_000_000_000_000 < digits_value(t) <= i64::MAX && timestamp_fields((digits_value(t) / 1000) as i64) is Some
            ==> auto_date(t) == timestamp_fields((digits_value(t) / 1000) as i64),
{
    if 1_000_000_000 < digits_value(t) <= i64::MAX {
        lemma_digit_text(t);
    }
}

fn auto_format(k: usize) -> (f: &'static str)
    requires
        k < 13,
    ensures
        f@ == auto_formats()[k as int],
{
    match k {
        0 => "%Y-%m-%dT%H:%M:%S%.fZ",
        1 => "%Y-%m-%dT%H:%M:%S%.f%:z",
        2 => "%Y-%m-%dT%H:%M:%S%:z",
        3 => "%Y-%m-%dT%H:%M:%SZ",
        4 => "%Y-%m-%dT%H:%M:%S",
        5 => "%Y-%m-%dT%H:%M",
        6 => "%Y-%m-%d",
        7 => "%d/%m/%Y",
        8 => "%d.%m.%Y",
        9 => "%B %d, %Y",
        10 => "%b %d, %Y",
        11 => "%d %B %Y",
        _ => "%d %b %Y",
    }
}

fn day_month_year() -> (f: String)
    ensures
        f@ == day_month_year_pattern(),
{
    let v: Vec<char> = vec!['%', 'd', '-', '%', 'm', '-', '%', 'Y'];
    let f = string_of(&v);
    assert(v@ =~= day_month_year_pattern());
    f
}

fn render(f: Option<(i32, u32, u32)>) -> (r: Option<String>)
    requires
        f matches Some(x) ==> valid_ymd(x.0 as int, x.1 as int, x.2 as int),
    ensures
        r matches Some(t) ==> rendered(f) == Some(t@),
        r is None <==> f is None,
{
    match f {
        Some((y, m, d)) => {
            let p = day_month_year();
            Some(render_date(y, m, d, p.as_str()))
        },
        None => None,
    }
}

fn parse_with(t: &str, fmt: &str) -> (r: Option<(i32, u32, u32)>)
    ensures
        r == parse_with_pattern(t@, fmt@),
        r matches Some(x) ==> valid_ymd(x.0 as int, x.1 as int, x.2 as int),
{
    match parse_datetime_fields(t, fmt) {
        Some(f) => Some(f),
        None => parse_date_fields(t, fmt),
    }
}

/// The text is nothing but digits, read as a number of Unix seconds from
/// above 10^9 up to the end of the year 9999.
pub open spec fn unix_seconds_text(s: Seq<char>) -> bool {
    s.len() > 0 && all_digits(s) && 1_000_000_000 < digits_value(s) <= 253402300799
}

/// The text is nothing but digits, read as a number of Unix milliseconds
/// from above 10^12 up to the end of the year 9999.
pub open spec fn unix_millis_text(s: Seq<char>) -> bool {
    s.len() > 0 && all_digits(s) && 1_000_000_000_000 < digits_value(s) <= 253402300799999
}

fn timestamp_stamp(t: &str) -> (stamp: Option<(i32, u32, u32)>)
    ensures
        stamp == timestamp_date(t@),
        stamp matches Some(x) ==> valid_ymd(x.0 as int, x.1 as int, x.2 as int),
        unix_seconds_text(t@) ==> stamp == Some(epoch_civil_fields(digits_value(t@) as i64)),
        unix_millis_text(t@) ==> stamp == Some(epoch_civil_fields((digits_value(t@) / 1000) as i64)),
{
    proof {
        if t@.len() > 0 && all_digits(t@) && 1_000_000_000 < digits_value(t@) <= i64::MAX {
            lemma_digit_text(t@);
        }
    }
    let mut stamp: Option<(i32, u32, u32)> = None;
    if let Some(num) = parse_i64(t) {
        if num > 1_000_000_000_000 {
            stamp = utc_date_of_timestamp(num / 1000);
        } else if num > 1_000_000_000 {
            stamp = utc_date_of_timestamp(num);
        }
    }
    stamp
}

/// Reads a date without a pattern (Unix seconds or milliseconds, ISO 8601
/// and a few common forms) and renders it as `dd-MM-yyyy`. Digits alone are
/// Unix seconds above 10^9 and milliseconds above 10^12: the result is the
/// UTC calendar date of that instant.
pub fn try_parse_date(input: &str) -> (r: Option<String>)
    ensures
        r matches Some(t) ==> rendered(auto_date(input@)) == Some(t@),
        r is None <==> auto_date(input@) is None,
        unix_seconds_text(input@) ==> (r matches Some(t) && Some(t@) == rendered(
            Some(epoch_civil_fields(digits_value(input@) as i64)),
        )),
        unix_millis_text(input@) ==> (r matches Some(t) && Some(t@) == rendered(
            Some(epoch_civil_fields((digits_value(input@) / 1000) as i64)),
        )),
{
    proof {
        if input@.len() > 0 && all_digits(input@) && 1_000_000_000 < digits_value(input@) <= i64::MAX {
            lemma_digit_text(input@);
        }
    }
    let tv = trim_chars(input);
    let trimmed = string_of(&tv);
    let t = trimmed.as_str();
    let stamp = timestamp_stamp(t);
    if stamp.is_some() {
        return render(stamp);
    }
    let mut k: usize = 0;
    while k < 13
        invariant
            k <= 13,
            first_auto_parse(t@, 0) == first_auto_parse(t@, k as int),
            t@ == trim(input@),
            timestamp_date(t@) is None,
            !unix_seconds_text(input@) && !unix_millis_text(input@),
        decreases 13 - k,
    {
        let f = parse_with(t, auto_format(k));
        if f.is_some() {
            return render(f);
        }
        k = k + 1;
    }
    None
}

/// Reads a date with a Java-style pattern and renders it as `dd-MM-yyyy`.
pub fn parse_with_format(input: &str, java_fmt: &str) -> (r: Option<String>)
    ensures
        r matches Some(t) ==> rendered(parse_with_pattern(trim(input@), java_to_strftime(java_fmt@)))
            == Some(t@),
        r is None <==> parse_with_pattern(trim(input@), java_to_strftime(java_fmt@)) is None,
{
    let chrono_fmt = java_format_to_strftime(java_fmt);
    let tv = trim_chars(input);
    let trimmed = string_of(&tv);
    let f = parse_with(trimmed.as_str(), chrono_fmt.as_str());
    render(f)
}

} // verus!
