//! Local wall-clock times and their text form `YYYY-MM-DD HH:MM:SS`, which is
//! how the word store keeps and compares every time it records.
use vstd::prelude::*;
use chrono::{Datelike, NaiveDate, Timelike};

verus! {

/// Smallest year the calendar library represents.
pub const MIN_YEAR: i32 = -262143;

/// Largest year the calendar library represents.
pub const MAX_YEAR: i32 = 262142;

/// A local date and time of day, to the second.
#[derive(Clone, Copy, Debug, PartialEq, Eq)]
pub struct LocalDateTime {
    pub year: i32,
    pub month: u32,
    pub day: u32,
    pub hour: u32,
    pub minute: u32,
    pub second: u32,
}

/// Gregorian leap years (the proleptic calendar, year 0 included).
pub open spec fn is_leap_year(y: int) -> bool {
    (y % 4 == 0 && y % 100 != 0) || y % 400 == 0
}

pub open spec fn days_in_month(y: int, m: int) -> int {
    if m == 2 {
        if is_leap_year(y) { 29 } else { 28 }
    } else if m == 4 || m == 6 || m == 9 || m == 11 {
        30
    } else {
        31
    }
}

/// A calendar date that exists and that the calendar library can represent.
pub open spec fn valid_date(y: int, m: int, d: int) -> bool {
    &&& MIN_YEAR <= y <= MAX_YEAR
    &&& 1 <= m <= 12
    &&& 1 <= d <= days_in_month(y, m)
}

/// The first date the calendar library can represent.
pub open spec fn is_first_date(y: int, m: int, d: int) -> bool {
    y == MIN_YEAR && m == 1 && d == 1
}

/// The calendar date one day before `(y, m, d)`.
pub open spec fn date_before(y: int, m: int, d: int) -> (int, int, int) {
    if d > 1 {
        (y, m, d - 1)
    } else if m > 1 {
        (y, m - 1, days_in_month(y, m - 1))
    } else {
        (y - 1, 12, 31)
    }
}

/// The same time of day on the calendar date before that of `t`.
pub open spec fn day_before(t: LocalDateTime) -> LocalDateTime {
    let p = date_before(t.year as int, t.month as int, t.day as int);
    LocalDateTime { year: p.0 as i32, month: p.1 as u32, day: p.2 as u32, ..t }
}

impl LocalDateTime {
    pub open spec fn valid(self) -> bool {
        &&& valid_date(self.year as int, self.month as int, self.day as int)
        &&& self.hour < 24
        &&& self.minute < 60
        &&& self.second < 60
    }

    /// Whether the time of day is midnight.
    pub open spec fn is_midnight(self) -> bool {
        self.hour == 0 && self.minute == 0 && self.second == 0
    }

    /// Chronological order: `self` comes strictly before `other`.
    pub open spec fn before(self, other: LocalDateTime) -> bool {
        ||| self.year < other.year
        ||| self.year == other.year && self.month < other.month
        ||| self.year == other.year && self.month == other.month && self.day < other.day
        ||| self.year == other.year && self.month == other.month && self.day == other.day
            && self.hour < other.hour
        ||| self.year == other.year && self.month == other.month && self.day == other.day
            && self.hour == other.hour && self.minute < other.minute
        ||| self.year == other.year && self.month == other.month && self.day == other.day
            && self.hour == other.hour && self.minute == other.minute && self.second
            < other.second
    }
}

/// The character of the decimal digit `n`.
pub open spec fn digit(n: int) -> char {
    (n + 48) as char
}

/// `n` written with two decimal digits.
pub open spec fn two_digits(n: int) -> Seq<char> {
    seq![digit(n / 10), digit(n % 10)]
}

/// The decimal digits of `n`, without leading zeros.
pub open spec fn decimal(n: nat) -> Seq<char>
    decreases n,
{
    if n < 10 {
        seq![digit(n as int)]
    } else {
        decimal(n / 10).push(digit((n % 10) as int))
    }
}

/// `s` preceded by zeros up to four characters.
pub open spec fn zero_padded4(s: Seq<char>) -> Seq<char> {
    if s.len() >= 4 {
        s
    } else {
        Seq::new((4 - s.len()) as nat, |i: int| '0') + s
    }
}

/// The year as `%Y` writes it: four digits for years 0 to 9999, otherwise a
/// sign followed by at least four digits.
pub open spec fn year_text(y: int) -> Seq<char> {
    if 0 <= y <= 9999 {
        two_digits(y / 100) + two_digits(y % 100)
    } else if y < 0 {
        seq!['-'] + zero_padded4(decimal((-y) as nat))
    } else {
        seq!['+'] + zero_padded4(decimal(y as nat))
    }
}

/// The text `YYYY-MM-DD HH:MM:SS` of a date and time.
pub open spec fn date_time_text(t: LocalDateTime) -> Seq<char> {
    year_text(t.year as int) + (seq!['-'] + (two_digits(t.month as int) + (seq!['-'] + (
    two_digits(t.day as int) + (seq![' '] + (two_digits(t.hour as int) + (seq![':'] + (
    two_digits(t.minute as int) + (seq![':'] + two_digits(t.second as int))))))))))
}

/// `chrono::NaiveDateTime::format` with the pattern `%Y-%m-%d %H:%M:%S`. Its
/// numeric fields write two digits each (`write_two` with zero padding), and the
/// year goes through `write_year`: two groups of two digits for 1000 to 9999,
/// `{:04}` for 0 to 999, and `{:+05}` (sign, then at least four digits) otherwise.
#[verifier::external_body]
fn chrono_format(t: LocalDateTime) -> (r: String)
    requires
        t.valid(),
    ensures
        r@ == date_time_text(t),
{
    NaiveDate::from_ymd_opt(t.year, t.month, t.day).unwrap().and_hms_opt(
        t.hour,
        t.minute,
        t.second,
    ).unwrap().format("%Y-%m-%d %H:%M:%S").to_string()
}

/// `chrono::NaiveDate::pred_opt`: the previous calendar date, or `None` when the
/// date is the first one the library represents.
#[verifier::external_body]
fn chrono_previous_date(year: i32, month: u32, day: u32) -> (r: Option<(i32, u32, u32)>)
    requires
        valid_date(year as int, month as int, day as int),
    ensures
        is_first_date(year as int, month as int, day as int) <==> r is None,
        r matches Some(p) ==> (p.0 as int, p.1 as int, p.2 as int) == date_before(
            year as int,
            month as int,
            day as int,
        ),
{
    match NaiveDate::from_ymd_opt(year, month, day).unwrap().pred_opt() {
        Some(p) => Some((p.year(), p.month(), p.day())),
        None => None,
    }
}

/// `chrono::Local::now`, read as local calendar fields. Built without the
/// `wasmbind` feature, chrono reads the clock through `Utc::now`, which panics
/// for a system time before the Unix epoch, so a returned local year is at
/// least 1969; the fields are those of a valid `NaiveDateTime` (`second()` is
/// below 60). Nothing more is claimed of the time that comes back.
#[verifier::external_body]
fn local_now() -> (r: LocalDateTime)
    ensures
        r.valid(),
        r.year >= 1969,
{
    let now = chrono::Local::now();
    LocalDateTime {
        year: now.year(),
        month: now.month(),
        day: now.day(),
        hour: now.hour(),
        minute: now.minute(),
        second: now.second(),
    }
}

/// The text `YYYY-MM-DD HH:MM:SS` of `date_time`.
pub fn date_time_str(date_time: LocalDateTime) -> (r: String)
    requires
        date_time.valid(),
    ensures
        r@ == date_time_text(date_time),
{
    chrono_format(date_time)
}

/// `text` is the text of some valid time.
pub open spec fn is_time_text(text: Seq<char>) -> bool {
    exists|t: LocalDateTime| t.valid() && text == #[trigger] date_time_text(t)
}

/// Midnight at the start of the day of `t`: the date of `t`, at 00:00:00.
pub open spec fn midnight_of(t: LocalDateTime) -> LocalDateTime {
    LocalDateTime { year: t.year, month: t.month, day: t.day, hour: 0, minute: 0, second: 0 }
}

/// `(start, end)` is the window of a day up to one reading of the clock: `end`
/// is the text of a valid time and `start` the text of midnight of that same day.
pub open spec fn is_today_window(start: Seq<char>, end: Seq<char>) -> bool {
    exists|n: LocalDateTime|
        #![trigger midnight_of(n)]
        n.valid() && start == date_time_text(midnight_of(n)) && end == date_time_text(n)
}

/// `(start, end)` is the window of the day before some day: `end` is the text
/// of a valid midnight and `start` the text of the same time one calendar day
/// earlier.
pub open spec fn is_yesterday_window(start: Seq<char>, end: Seq<char>) -> bool {
    exists|z: LocalDateTime|
        #![trigger day_before(z)]
        {
            &&& z.valid()
            &&& z.is_midnight()
            &&& end == date_time_text(z)
            &&& start == date_time_text(day_before(z))
        }
}

/// The text of the current local time.
pub fn now_str() -> (r: String)
    ensures
        is_time_text(r@),
{
    let now = local_now();
    date_time_str(now)
}

/// Midnight at the start of the day of `now`.
pub fn today_zero_of(now: LocalDateTime) -> (r: LocalDateTime)
    ensures
        r == (LocalDateTime { hour: 0, minute: 0, second: 0, ..now }),
        r.year == now.year,
        r.month == now.month,
        r.day == now.day,
        r.hour == 0,
        r.minute == 0,
        r.second == 0,
{
    LocalDateTime { hour: 0, minute: 0, second: 0, ..now }
}

/// Midnight at the start of the current local day.
pub fn today_zero() -> (r: LocalDateTime)
    ensures
        r.valid(),
        r.is_midnight(),
        r.year >= 1969,
        exists|n: LocalDateTime| n.valid() && n.year >= 1969 && r == #[trigger] midnight_of(n),
{
    let now = local_now();
    let r = today_zero_of(now);
    assert(r == midnight_of(now));
    r
}

/// The window from the start of the current day to the current time: the text
/// of the day's midnight and the text of now, both from one reading of the clock.
pub fn during_today() -> (r: (String, String))
    ensures
        is_today_window(r.0@, r.1@),
        r.0@.len() == r.1@.len(),
        r.0@.take(r.0@.len() - 8) == r.1@.take(r.1@.len() - 8),
        r.0@.skip(r.0@.len() - 8) == seq!['0', '0', ':', '0', '0', ':', '0', '0'],
{
    let now = local_now();
    let zero = today_zero_of(now);
    let r = (date_time_str(zero), date_time_str(now));
    assert(zero == midnight_of(now));
    proof {
        lemma_today_window_same_day(r.0@, r.1@);
    }
    r
}

/// The window of the day before the day that starts at `zero`: the text of the
/// previous day's midnight and the text of `zero`.
pub fn yesterday_window(zero: LocalDateTime) -> (r: (String, String))
    requires
        zero.valid(),
        zero.is_midnight(),
        !is_first_date(zero.year as int, zero.month as int, zero.day as int),
    ensures
        r.0@ == date_time_text(day_before(zero)),
        r.1@ == date_time_text(zero),
{
    let p = chrono_previous_date(zero.year, zero.month, zero.day);
    match p {
        Some((y, m, d)) => {
            let start = LocalDateTime { year: y, month: m, day: d, ..zero };
            proof {
                lemma_date_before_valid(zero.year as int, zero.month as int, zero.day as int);
            }
            (date_time_str(start), date_time_str(zero))
        },
        None => {
            proof {
                assert(false);
            }
            (date_time_str(zero), date_time_str(zero))
        },
    }
}

/// The window of yesterday, from its midnight to today's midnight, read from
/// the clock.
pub fn during_yesterday() -> (r: (String, String))
    ensures
        is_yesterday_window(r.0@, r.1@),
        exists|n: LocalDateTime|
            n.valid() && n.year >= 1969 && r.1@ == date_time_text(#[trigger] midnight_of(n)) && r.0@
                == date_time_text(day_before(midnight_of(n))),
{
    let zero = today_zero();
    let r = yesterday_window(zero);
    assert(zero.valid() && zero.is_midnight() && r.1@ == date_time_text(zero) && r.0@
        == date_time_text(day_before(zero)));
    r
}

/// The date before a valid date that is not the first one is itself valid.
pub proof fn lemma_date_before_valid(y: int, m: int, d: int)
    requires
        valid_date(y, m, d),
        !is_first_date(y, m, d),
    ensures
        valid_date(date_before(y, m, d).0, date_before(y, m, d).1, date_before(y, m, d).2),
{
}

/// Code-point order of texts, compared from the left (for the ASCII texts of
/// this module it is the byte order in which the store compares them).
pub open spec fn text_less(a: Seq<char>, b: Seq<char>) -> bool
    decreases a.len(),
{
    if a.len() == 0 {
        b.len() > 0
    } else if b.len() == 0 {
        false
    } else if a[0] != b[0] {
        (a[0] as int) < (b[0] as int)
    } else {
        text_less(a.drop_first(), b.drop_first())
    }
}

proof fn lemma_text_less_irreflexive(a: Seq<char>)
    ensures
        !text_less(a, a),
    decreases a.len(),
{
    if a.len() > 0 {
        lemma_text_less_irreflexive(a.drop_first());
    }
}

/// Comparing two concatenations whose first parts have the same length compares
/// the first parts, and the second parts where the first parts agree.
proof fn lemma_text_less_concat(a1: Seq<char>, a2: Seq<char>, b1: Seq<char>, b2: Seq<char>)
    requires
        a1.len() == b1.len(),
    ensures
        text_less(a1 + a2, b1 + b2) == (text_less(a1, b1) || (a1 == b1 && text_less(a2, b2))),
        (a1 + a2 == b1 + b2) == (a1 == b1 && a2 == b2),
    decreases a1.len(),
{
    if a1.len() == 0 {
        assert(a1 + a2 =~= a2);
        assert(b1 + b2 =~= b2);
        assert(a1 =~= b1);
    } else {
        assert((a1 + a2)[0] == a1[0]);
        assert((b1 + b2)[0] == b1[0]);
        assert((a1 + a2).drop_first() =~= a1.drop_first() + a2);
        assert((b1 + b2).drop_first() =~= b1.drop_first() + b2);
        lemma_text_less_concat(a1.drop_first(), a2, b1.drop_first(), b2);
        assert(a1 =~= seq![a1[0]] + a1.drop_first());
        assert(b1 =~= seq![b1[0]] + b1.drop_first());
        if a1 == b1 {
            lemma_text_less_irreflexive(a1);
        }
        if a1 + a2 == b1 + b2 {
            assert(a1 =~= (a1 + a2).subrange(0, a1.len() as int));
            assert(b1 =~= (b1 + b2).subrange(0, b1.len() as int));
            assert(a2 =~= (a1 + a2).subrange(a1.len() as int, (a1 + a2).len() as int));
            assert(b2 =~= (b1 + b2).subrange(b1.len() as int, (b1 + b2).len() as int));
        }
    }
}

proof fn lemma_digit(n: int)
    requires
        0 <= n <= 9,
    ensures
        digit(n) as int == n + 48,
{
}

proof fn lemma_two_digits_order(x: int, y: int)
    requires
        0 <= x < 100,
        0 <= y < 100,
    ensures
        text_less(two_digits(x), two_digits(y)) == (x < y),
        (two_digits(x) == two_digits(y)) == (x == y),
{
    lemma_digit(x / 10);
    lemma_digit(x % 10);
    lemma_digit(y / 10);
    lemma_digit(y % 10);
    let tx = two_digits(x);
    let ty = two_digits(y);
    assert(tx.drop_first() =~= seq![digit(x % 10)]);
    assert(ty.drop_first() =~= seq![digit(y % 10)]);
    assert(tx.drop_first().drop_first() =~= Seq::<char>::empty());
    assert(ty.drop_first().drop_first() =~= Seq::<char>::empty());
    assert(!text_less(tx.drop_first().drop_first(), ty.drop_first().drop_first()));
    assert(text_less(tx.drop_first(), ty.drop_first()) == (x % 10 < y % 10));
    assert(x == 10 * (x / 10) + x % 10);
    assert(y == 10 * (y / 10) + y % 10);
    if tx == ty {
        assert(tx[0] == ty[0] && tx[1] == ty[1]);
    }
}

proof fn lemma_year_order(x: int, y: int)
    requires
        0 <= x <= 9999,
        0 <= y <= 9999,
    ensures
        text_less(year_text(x), year_text(y)) == (x < y),
        (year_text(x) == year_text(y)) == (x == y),
        year_text(x).len() == 4,
{
    lemma_two_digits_order(x / 100, y / 100);
    lemma_two_digits_order(x % 100, y % 100);
    lemma_text_less_concat(two_digits(x / 100), two_digits(x % 100), two_digits(y / 100), two_digits(y % 100));
}

/// One field step of a text: a two-digit field after a separator.
proof fn lemma_field_step(sep: char, x: int, y: int, rx: Seq<char>, ry: Seq<char>)
    requires
        0 <= x < 100,
        0 <= y < 100,
    ensures
        text_less(seq![sep] + (two_digits(x) + rx), seq![sep] + (two_digits(y) + ry)) == (x < y
            || (x == y && text_less(rx, ry))),
        (seq![sep] + (two_digits(x) + rx) == seq![sep] + (two_digits(y) + ry)) == (x == y && rx
            == ry),
{
    lemma_two_digits_order(x, y);
    lemma_text_less_concat(two_digits(x), rx, two_digits(y), ry);
    lemma_text_less_irreflexive(seq![sep]);
    lemma_text_less_concat(seq![sep], two_digits(x) + rx, seq![sep], two_digits(y) + ry);
}

/// For years 0 to 9999, the text order of two valid times is their
/// chronological order, and two such times have the same text only when they
/// are the same time: comparing stored times as text compares the times.
pub proof fn lemma_text_order_is_time_order(a: LocalDateTime, b: LocalDateTime)
    requires
        a.valid(),
        b.valid(),
        0 <= a.year <= 9999,
        0 <= b.year <= 9999,
    ensures
        text_less(date_time_text(a), date_time_text(b)) == a.before(b),
        (date_time_text(a) == date_time_text(b)) == (a == b),
{
    let ss_a = seq![':'] + two_digits(a.second as int);
    let ss_b = seq![':'] + two_digits(b.second as int);
    lemma_two_digits_order(a.second as int, b.second as int);
    lemma_text_less_irreflexive(seq![':']);
    lemma_text_less_concat(seq![':'], two_digits(a.second as int), seq![':'], two_digits(b.second as int));
    let mi_a = seq![':'] + (two_digits(a.minute as int) + ss_a);
    let mi_b = seq![':'] + (two_digits(b.minute as int) + ss_b);
    lemma_field_step(':', a.minute as int, b.minute as int, ss_a, ss_b);
    let h_a = seq![' '] + (two_digits(a.hour as int) + mi_a);
    let h_b = seq![' '] + (two_digits(b.hour as int) + mi_b);
    lemma_field_step(' ', a.hour as int, b.hour as int, mi_a, mi_b);
    let d_a = seq!['-'] + (two_digits(a.day as int) + h_a);
    let d_b = seq!['-'] + (two_digits(b.day as int) + h_b);
    lemma_field_step('-', a.day as int, b.day as int, h_a, h_b);
    let m_a = seq!['-'] + (two_digits(a.month as int) + d_a);
    let m_b = seq!['-'] + (two_digits(b.month as int) + d_b);
    lemma_field_step('-', a.month as int, b.month as int, d_a, d_b);
    lemma_year_order(a.year as int, b.year as int);
    lemma_text_less_concat(year_text(a.year as int), m_a, year_text(b.year as int), m_b);
    assert(date_time_text(a) == year_text(a.year as int) + m_a);
    assert(date_time_text(b) == year_text(b.year as int) + m_b);
}

/// The start of a day is not after any time of that day.
pub proof fn lemma_today_zero_not_after(now: LocalDateTime)
    requires
        now.valid(),
        0 <= now.year <= 9999,
    ensures
        !text_less(
            date_time_text(now),
            date_time_text(LocalDateTime { hour: 0, minute: 0, second: 0, ..now }),
        ),
{
    lemma_text_order_is_time_order(now, LocalDateTime { hour: 0, minute: 0, second: 0, ..now });
}

/// Yesterday's window opens before today's midnight, where it closes: the
/// start text of the window is below its end text.
pub proof fn lemma_yesterday_window_ordered(zero: LocalDateTime)
    requires
        zero.valid(),
        zero.is_midnight(),
        1 <= zero.year <= 9999,
    ensures
        text_less(date_time_text(day_before(zero)), date_time_text(zero)),
{
    lemma_date_before_valid(zero.year as int, zero.month as int, zero.day as int);
    lemma_text_order_is_time_order(day_before(zero), zero);
}

/// The text of a time is the text of its date and a space, followed by the
/// eight characters `HH:MM:SS` of its time of day.
proof fn lemma_text_splits(t: LocalDateTime)
    ensures
        date_time_text(t).len() >= 8,
        date_time_text(t).skip(date_time_text(t).len() - 8) == two_digits(t.hour as int) + seq![':']
            + two_digits(t.minute as int) + seq![':'] + two_digits(t.second as int),
        date_time_text(t).take(date_time_text(t).len() - 8) == year_text(t.year as int) + seq!['-']
            + two_digits(t.month as int) + seq!['-'] + two_digits(t.day as int) + seq![' '],
{
    let d = year_text(t.year as int) + seq!['-'] + two_digits(t.month as int) + seq!['-']
        + two_digits(t.day as int) + seq![' '];
    let h = two_digits(t.hour as int) + seq![':'] + two_digits(t.minute as int) + seq![':']
        + two_digits(t.second as int);
    assert(date_time_text(t) =~= d + h);
    assert((d + h).skip((d + h).len() - 8) =~= h);
    assert((d + h).take((d + h).len() - 8) =~= d);
}

/// Today's window covers part of one day: its start and end have the same date
/// (the same text but for the last eight characters), and its start is at
/// `00:00:00`.
pub proof fn lemma_today_window_same_day(start: Seq<char>, end: Seq<char>)
    requires
        is_today_window(start, end),
    ensures
        start.len() == end.len(),
        start.len() >= 8,
        start.take(start.len() - 8) == end.take(end.len() - 8),
        start.skip(start.len() - 8) == seq!['0', '0', ':', '0', '0', ':', '0', '0'],
{
    let n = choose|n: LocalDateTime|
        #![trigger midnight_of(n)]
        n.valid() && start == date_time_text(midnight_of(n)) && end == date_time_text(n);
    lemma_text_splits(n);
    lemma_text_splits(midnight_of(n));
    lemma_digit(0);
    assert(two_digits(0) =~= seq!['0', '0']);
    assert(start.skip(start.len() - 8) =~= seq!['0', '0', ':', '0', '0', ':', '0', '0']);
}

/// The midnight of a time keeps its date and is not after it: for years 0 to
/// 9999 its text is not above the text of the time.
pub proof fn lemma_midnight_of_keeps_date(t: LocalDateTime)
    requires
        t.valid(),
    ensures
        midnight_of(t).valid(),
        midnight_of(t).is_midnight(),
        midnight_of(t).year == t.year && midnight_of(t).month == t.month && midnight_of(t).day
            == t.day,
        0 <= t.year <= 9999 ==> !text_less(date_time_text(t), date_time_text(midnight_of(t))),
{
    if 0 <= t.year <= 9999 {
        lemma_text_order_is_time_order(t, midnight_of(t));
    }
}

/// The text of a midnight ends in `00:00:00`.
proof fn lemma_midnight_text(t: LocalDateTime)
    requires
        t.is_midnight(),
    ensures
        date_time_text(t).len() >= 8,
        date_time_text(t).skip(date_time_text(t).len() - 8) == seq!['0', '0', ':', '0', '0', ':', '0', '0'],
{
    lemma_text_splits(t);
    lemma_digit(0);
    assert(two_digits(0) =~= seq!['0', '0']);
    assert(date_time_text(t).skip(date_time_text(t).len() - 8) =~= seq!['0', '0', ':', '0', '0', ':', '0', '0']);
}

/// Yesterday's window runs from a midnight to a midnight: both texts end in
/// `00:00:00`.
pub proof fn lemma_yesterday_window_midnights(start: Seq<char>, end: Seq<char>)
    requires
        is_yesterday_window(start, end),
    ensures
        start.len() >= 8 && end.len() >= 8,
        start.skip(start.len() - 8) == seq!['0', '0', ':', '0', '0', ':', '0', '0'],
        end.skip(end.len() - 8) == seq!['0', '0', ':', '0', '0', ':', '0', '0'],
{
    let z = choose|z: LocalDateTime|
        #![trigger day_before(z)]
        {
            &&& z.valid()
            &&& z.is_midnight()
            &&& end == date_time_text(z)
            &&& start == date_time_text(day_before(z))
        };
    let y = day_before(z);
    assert(y.is_midnight());
    lemma_midnight_text(z);
    lemma_midnight_text(y);
}

} // verus!
