//! Dates, times of day and instants, read from text with `jiff`.
use crate::text::{digit, lemma_digit_reads, number_read};
use vstd::prelude::*;

verus! {

/// The layout of a date in a record.
pub const DATE_FORMAT: &'static str = "%Y-%m-%d";

/// Seconds of a day.
pub const SECONDS_PER_DAY: i64 = 86_400;

/// Microseconds of a day.
pub const MICROS_PER_DAY: i64 = 86_400_000_000;

/// A date of the proleptic Gregorian calendar.
#[derive(Clone, Copy, Debug, PartialEq, Eq, Structural)]
pub struct CivilDate {
    pub year: i16,
    pub month: i8,
    pub day: i8,
}

/// A time of day.
#[derive(Clone, Copy, Debug, PartialEq, Eq, Structural)]
pub struct CivilTime {
    pub hour: i8,
    pub minute: i8,
    pub second: i8,
    pub subsec_nanosecond: i32,
}

pub open spec fn is_leap_year(year: int) -> bool {
    year % 4 == 0 && (year % 100 != 0 || year % 400 == 0)
}

pub open spec fn days_in_month(year: int, month: int) -> int {
    if month == 2 {
        if is_leap_year(year) { 29 } else { 28 }
    } else if month == 4 || month == 6 || month == 9 || month == 11 {
        30
    } else {
        31
    }
}

/// Days from the first day of year zero to the first day of `year`.
pub open spec fn days_before_year(year: int) -> int {
    365 * year + (year + 3) / 4 - (year + 99) / 100 + (year + 399) / 400
}

/// Days from the first day of `year` to the first day of `month`.
pub open spec fn days_before_month(year: int, month: int) -> int
    decreases month,
{
    if month <= 1 {
        0
    } else {
        days_before_month(year, month - 1) + days_in_month(year, month - 1)
    }
}

impl CivilDate {
    /// Whether the calendar has this date, in the years -9999 to 9999.
    pub open spec fn valid(self) -> bool {
        &&& -9999 <= self.year <= 9999
        &&& 1 <= self.month <= 12
        &&& 1 <= self.day <= days_in_month(self.year as int, self.month as int)
    }

    /// The date's place in the calendar, counted in days.
    pub open spec fn day_number(self) -> int {
        days_before_year(self.year as int) + days_before_month(self.year as int, self.month as int)
            + self.day
    }
}

impl CivilTime {
    pub open spec fn valid(self) -> bool {
        &&& 0 <= self.hour <= 23
        &&& 0 <= self.minute <= 59
        &&& 0 <= self.second <= 59
        &&& 0 <= self.subsec_nanosecond <= 999_999_999
    }

    /// Nanoseconds from midnight to this time.
    pub open spec fn nanosecond_of_day(self) -> int {
        ((self.hour * 60 + self.minute) * 60 + self.second) * 1_000_000_000 + self.subsec_nanosecond
    }
}

/// The first day of the Unix epoch.
pub open spec fn epoch() -> CivilDate {
    CivilDate { year: 1970, month: 1, day: 1 }
}

/// Whole microseconds in a count of nanoseconds, with the fraction cut off.
pub open spec fn whole_micros(nanoseconds: int) -> int {
    if nanoseconds >= 0 { nanoseconds / 1000 } else { -((-nanoseconds) / 1000) }
}

/// A number below a hundred in two digits.
pub open spec fn two_digits(n: int) -> Seq<char> {
    digit((n / 10) as nat) + digit((n % 10) as nat)
}

/// A date as year, month and day, in four, two and two digits.
pub open spec fn date_text(date: CivilDate) -> Seq<char> {
    two_digits(date.year as int / 100) + two_digits(date.year as int % 100) + "-"@ + two_digits(
        date.month as int,
    ) + "-"@ + two_digits(date.day as int)
}

/// A time of day as hour, minute and second, in two digits each.
pub open spec fn time_text(time: CivilTime) -> Seq<char> {
    two_digits(time.hour as int) + ":"@ + two_digits(time.minute as int) + ":"@ + two_digits(
        time.second as int,
    )
}

/// An instant as its date and time of day in universal time.
pub open spec fn instant_text(date: CivilDate, time: CivilTime) -> Seq<char> {
    date_text(date) + "T"@ + time_text(time) + "Z"@
}

/// A number below a thousand in three digits.
pub open spec fn three_digits(n: int) -> Seq<char> {
    digit((n / 100) as nat) + two_digits(n % 100)
}

/// A time of day as hour, minute, second and milliseconds.
pub open spec fn milli_time_text(time: CivilTime) -> Seq<char> {
    time_text(time) + "."@ + three_digits(time.subsec_nanosecond as int / 1_000_000)
}

/// An offset from universal time, given in minutes, as sign, hours and minutes.
pub open spec fn offset_text(offset: int) -> Seq<char> {
    if offset < 0 {
        "-"@ + two_digits(-offset / 60) + two_digits(-offset % 60)
    } else {
        "+"@ + two_digits(offset / 60) + two_digits(offset % 60)
    }
}

/// An instant as Salesforce writes it: the date, the time of day with milliseconds, and the
/// offset of both from universal time.
pub open spec fn offset_instant_text(date: CivilDate, time: CivilTime, offset: int) -> Seq<char> {
    date_text(date) + "T"@ + milli_time_text(time) + offset_text(offset)
}

/// Whether a date can be written with a year of four digits.
pub open spec fn writable_date(date: CivilDate) -> bool {
    date.valid() && date.year >= 0
}

/// Whether a time is one of whole seconds.
pub open spec fn writable_time(time: CivilTime) -> bool {
    time.valid() && time.subsec_nanosecond == 0
}

/// Whether an instant is one of whole seconds that lies in the range of timestamps, which
/// ends within the year 9999.
pub open spec fn writable_instant(date: CivilDate, time: CivilTime) -> bool {
    writable_date(date) && date.year <= 9998 && writable_time(time)
}

/// Whether a time is one of whole milliseconds.
pub open spec fn writable_milli_time(time: CivilTime) -> bool {
    time.valid() && time.subsec_nanosecond % 1_000_000 == 0
}

/// Whether an instant is one of whole milliseconds that lies in the range of timestamps,
/// with an offset of less than a day.
pub open spec fn writable_offset_instant(date: CivilDate, time: CivilTime, offset: int) -> bool {
    writable_date(date) && date.year <= 9998 && writable_milli_time(time) && -1440 < offset < 1440
}

/// Microseconds from the epoch to a time of a day, in universal time.
pub open spec fn epoch_micros(date: CivilDate, time: CivilTime) -> int {
    epoch_days(date) * MICROS_PER_DAY + midnight_micros(time)
}

/// Whether `read` is what a text means that is a date written out in full.
pub open spec fn plain_date_read(text: Seq<char>, read: Option<CivilDate>) -> bool {
    forall|d: CivilDate| writable_date(d) && text == #[trigger] date_text(d) ==> read == Some(d)
}

/// Whether `read` is what a text means that is a time written out in full.
pub open spec fn plain_time_read(text: Seq<char>, read: Option<CivilTime>) -> bool {
    forall|t: CivilTime| writable_time(t) && text == #[trigger] time_text(t) ==> read == Some(t)
}

/// Whether `read` is what a text means that is an instant written out in full.
pub open spec fn plain_instant_read(text: Seq<char>, read: Option<i64>) -> bool {
    forall|d: CivilDate, t: CivilTime|
        writable_instant(d, t) && text == #[trigger] instant_text(d, t) ==> (read matches Some(m)
            && m == epoch_micros(d, t))
}

/// Whether `read` is what a text means that is a time written with milliseconds.
pub open spec fn milli_time_read(text: Seq<char>, read: Option<CivilTime>) -> bool {
    forall|t: CivilTime|
        writable_milli_time(t) && text == #[trigger] milli_time_text(t) ==> read == Some(t)
}

/// Whether `read` is what a text means that is an instant as Salesforce writes it. A place
/// ahead of universal time reaches its local time that much earlier.
pub open spec fn offset_instant_read(text: Seq<char>, read: Option<i64>) -> bool {
    forall|d: CivilDate, t: CivilTime, offset: int|
        writable_offset_instant(d, t, offset) && text == #[trigger] offset_instant_text(
            d,
            t,
            offset,
        ) ==> (read matches Some(m) && m == epoch_micros(d, t) - offset * 60_000_000)
}

/// The instant that `jiff` reads from a text, in microseconds since the Unix epoch.
pub uninterp spec fn parsed_timestamp(text: Seq<char>) -> Option<i64>;

/// The date that `jiff` reads from a text laid out as `format` says.
pub uninterp spec fn parsed_date(format: Seq<char>, text: Seq<char>) -> Option<CivilDate>;

/// The time of day that `jiff` reads from a text.
pub uninterp spec fn parsed_time(text: Seq<char>) -> Option<CivilTime>;

/// `jiff::Timestamp::from_str`, read out with `as_microsecond`. The parser takes the
/// offset that the text itself carries and looks no time zone up, so what it reads, or
/// that it refuses, rests on the text alone. A date and a time of whole seconds, joined by
/// `T` and followed by `Z`, read as that instant. So do a date and a time with milliseconds
/// that an offset in hours and minutes follows, without a colon.
#[verifier::external_body]
pub(crate) fn parse_timestamp(text: &str) -> (micros: Option<i64>)
    ensures
        micros == parsed_timestamp(text@),
        plain_instant_read(text@, micros),
        offset_instant_read(text@, micros),
{
    text.parse::<jiff::Timestamp>().ok().map(|t: jiff::Timestamp| t.as_microsecond())
}

/// `jiff::civil::Date::strptime`. What it reads, or that it refuses, rests on the format
/// and the text, and a date that it gives is one of the calendar. In the layout of records,
/// a date that is written out in full reads as that date.
#[verifier::external_body]
pub(crate) fn parse_date(format: &str, text: &str) -> (date: Option<CivilDate>)
    ensures
        date == parsed_date(format@, text@),
        date matches Some(d) ==> d.valid(),
        format@ == DATE_FORMAT@ ==> plain_date_read(text@, date),
{
    jiff::civil::Date::strptime(format, text).ok().map(
        |d: jiff::civil::Date| CivilDate { year: d.year(), month: d.month(), day: d.day() },
    )
}

/// `jiff::civil::Time::from_str`. What it reads, or that it refuses, rests on the text
/// alone, and a time that it gives is one of a day. A time of whole seconds, or one with
/// milliseconds, that is written out in full reads as that time.
#[verifier::external_body]
pub(crate) fn parse_time(text: &str) -> (time: Option<CivilTime>)
    ensures
        time == parsed_time(text@),
        time matches Some(t) ==> t.valid(),
        plain_time_read(text@, time),
        milli_time_read(text@, time),
{
    text.parse::<jiff::civil::Time>().ok().map(
        |t: jiff::civil::Time|
            CivilTime {
                hour: t.hour(),
                minute: t.minute(),
                second: t.second(),
                subsec_nanosecond: t.subsec_nanosecond(),
            },
    )
}

/// `jiff::civil::Date::duration_since`, read out with `as_secs`: the days between the two
/// dates, each of 86,400 seconds, negative where `date` is the earlier one.
/// `jiff::civil::date`, which makes the two, panics on a date that the calendar lacks.
#[verifier::external_body]
pub(crate) fn date_seconds_since(date: CivilDate, other: CivilDate) -> (secs: i64)
    requires
        date.valid(),
        other.valid(),
    ensures
        secs == 86_400 * (date.day_number() - other.day_number()),
{
    let date = jiff::civil::date(date.year, date.month, date.day);
    let other = jiff::civil::date(other.year, other.month, other.day);
    date.duration_since(other).as_secs()
}

/// `jiff::civil::Time::duration_since`, read out with `as_micros`: the whole microseconds
/// between the two times, negative where `time` is the earlier one.
/// `jiff::civil::time`, which makes the two, panics on a time that no day has.
#[verifier::external_body]
pub(crate) fn time_micros_since(time: CivilTime, other: CivilTime) -> (micros: i128)
    requires
        time.valid(),
        other.valid(),
    ensures
        micros == whole_micros(time.nanosecond_of_day() - other.nanosecond_of_day()),
{
    let time = jiff::civil::time(time.hour, time.minute, time.second, time.subsec_nanosecond);
    let other = jiff::civil::time(other.hour, other.minute, other.second, other.subsec_nanosecond);
    time.duration_since(other).as_micros()
}

/// The count of days from the epoch to a date.
pub open spec fn epoch_days(date: CivilDate) -> int {
    date.day_number() - epoch().day_number()
}

/// The count of microseconds from midnight to a time.
pub open spec fn midnight_micros(time: CivilTime) -> int {
    time.nanosecond_of_day() / 1000
}

proof fn lemma_days_before_month_bounds(year: int, month: int)
    requires
        month <= 12,
    ensures
        0 <= days_before_month(year, month) <= 372,
        month >= 1 ==> days_before_month(year, month) <= 31 * (month - 1),
    decreases month,
{
    if month > 1 {
        lemma_days_before_month_bounds(year, month - 1);
    }
}

proof fn lemma_day_number_bounds(date: CivilDate)
    requires
        date.valid(),
    ensures
        -4_000_000 < date.day_number() < 4_000_000,
{
    lemma_days_before_month_bounds(date.year as int, date.month as int);
}

/// Days since the Unix epoch, as a date column counts them. A date before the epoch
/// counts below zero.
pub fn days_since_epoch(date: CivilDate) -> (days: i32)
    requires
        date.valid(),
    ensures
        days == epoch_days(date),
{
    let first = CivilDate { year: 1970, month: 1, day: 1 };
    proof {
        lemma_day_number_bounds(date);
        lemma_day_number_bounds(first);
    }
    let secs: i64 = date_seconds_since(date, first);
    (secs / SECONDS_PER_DAY) as i32
}

/// Microseconds since midnight, as a time column counts them.
pub fn micros_since_midnight(time: CivilTime) -> (micros: i64)
    requires
        time.valid(),
    ensures
        micros == midnight_micros(time),
        0 <= micros < MICROS_PER_DAY,
{
    let midnight = CivilTime { hour: 0, minute: 0, second: 0, subsec_nanosecond: 0 };
    let micros: i128 = time_micros_since(time, midnight);
    micros as i64
}

/// The day after a date.
pub open spec fn next_day(date: CivilDate) -> CivilDate {
    if date.day < days_in_month(date.year as int, date.month as int) {
        CivilDate { day: (date.day + 1) as i8, ..date }
    } else if date.month < 12 {
        CivilDate { month: (date.month + 1) as i8, day: 1, ..date }
    } else {
        CivilDate { year: (date.year + 1) as i16, month: 1, day: 1 }
    }
}

/// Whether a date comes before another one in the calendar.
pub open spec fn before(a: CivilDate, b: CivilDate) -> bool {
    ||| a.year < b.year
    ||| a.year == b.year && a.month < b.month
    ||| a.year == b.year && a.month == b.month && a.day < b.day
}

proof fn lemma_days_of_months(year: int)
    ensures
        days_before_month(year, 12) + 31 == (if is_leap_year(year) { 366int } else { 365 }),
{
    let feb = days_in_month(year, 2);
    assert(days_before_month(year, 1) == 0);
    assert(days_before_month(year, 2) == 31);
    assert(days_before_month(year, 3) == 31 + feb);
    assert(days_before_month(year, 4) == 62 + feb);
    assert(days_before_month(year, 5) == 92 + feb);
    assert(days_before_month(year, 6) == 123 + feb);
    assert(days_before_month(year, 7) == 153 + feb);
    assert(days_before_month(year, 8) == 184 + feb);
    assert(days_before_month(year, 9) == 215 + feb);
    assert(days_before_month(year, 10) == 245 + feb);
    assert(days_before_month(year, 11) == 276 + feb);
    assert(days_before_month(year, 12) == 306 + feb);
}

/// The days of a whole year: the twelve months make up the step to the next year.
proof fn lemma_days_of_year(year: int)
    ensures
        days_before_year(year + 1) == days_before_year(year) + days_before_month(year, 12) + 31,
{
    lemma_days_of_months(year);
    assert((year + 4) / 4 == (year + 3) / 4 + (if year % 4 == 0 { 1int } else { 0 }));
    assert((year + 100) / 100 == (year + 99) / 100 + (if year % 100 == 0 { 1int } else { 0 }));
    assert((year + 400) / 400 == (year + 399) / 400 + (if year % 400 == 0 { 1int } else { 0 }));
    assert(year % 400 == 0 ==> year % 100 == 0);
    assert(year % 100 == 0 ==> year % 4 == 0);
}

proof fn lemma_days_before_month_grows(year: int, a: int, b: int)
    requires
        1 <= a <= b,
    ensures
        days_before_month(year, a) <= days_before_month(year, b),
        a < b ==> days_before_month(year, a) + days_in_month(year, a) <= days_before_month(year, b),
    decreases b,
{
    if a < b {
        lemma_days_before_month_grows(year, a, b - 1);
    }
}

/// Date columns count day by day: the epoch is day zero, and each day counts one more than
/// the day before it.
pub proof fn law_epoch_days_count_days(date: CivilDate)
    requires
        date.valid(),
    ensures
        epoch_days(epoch()) == 0,
        epoch_days(CivilDate { year: 1970, month: 1, day: 1 }) == 0,
        next_day(date).valid() || date.year == 9999,
        next_day(date).valid() ==> epoch_days(next_day(date)) == epoch_days(date) + 1,
{
    lemma_days_of_year(date.year as int);
}

/// Date columns keep the order of dates: an earlier date has the smaller count, and so no
/// two dates share one.
pub proof fn law_epoch_days_keep_order(a: CivilDate, b: CivilDate)
    requires
        a.valid(),
        b.valid(),
    ensures
        before(a, b) <==> epoch_days(a) < epoch_days(b),
        a == b <==> epoch_days(a) == epoch_days(b),
{
    lemma_before_counts_less(a, b);
    lemma_before_counts_less(b, a);
}

proof fn lemma_before_counts_less(a: CivilDate, b: CivilDate)
    requires
        a.valid(),
        b.valid(),
    ensures
        before(a, b) ==> epoch_days(a) < epoch_days(b),
{
    if a.year < b.year {
        lemma_days_of_year(a.year as int);
        lemma_days_before_month_grows(a.year as int, a.month as int, 12);
        lemma_days_before_month_bounds(b.year as int, b.month as int);
        assert(days_before_year(a.year + 1) <= days_before_year(b.year as int));
    } else if a.year == b.year && a.month < b.month {
        lemma_days_before_month_grows(a.year as int, a.month as int, b.month as int);
    }
}

/// Time columns keep the order of times down to the microsecond, and stay within a day.
pub proof fn law_midnight_micros_keep_order(a: CivilTime, b: CivilTime)
    requires
        a.valid(),
        b.valid(),
    ensures
        0 <= midnight_micros(a) < MICROS_PER_DAY,
        a.nanosecond_of_day() <= b.nanosecond_of_day() ==> midnight_micros(a) <= midnight_micros(b),
{
}

/// The months have the lengths that the Gregorian calendar gives them, and February has its
/// 29th day in the years that four divides, but of the full centuries only in those that
/// four hundred divides.
pub proof fn law_months_have_their_lengths(year: int)
    ensures
        days_in_month(year, 1) == 31,
        days_in_month(year, 3) == 31,
        days_in_month(year, 4) == 30,
        days_in_month(year, 5) == 31,
        days_in_month(year, 6) == 30,
        days_in_month(year, 7) == 31,
        days_in_month(year, 8) == 31,
        days_in_month(year, 9) == 30,
        days_in_month(year, 10) == 31,
        days_in_month(year, 11) == 30,
        days_in_month(year, 12) == 31,
        year % 4 != 0 ==> days_in_month(year, 2) == 28,
        year % 4 == 0 && year % 100 != 0 ==> days_in_month(year, 2) == 29,
        year % 100 == 0 && year % 400 != 0 ==> days_in_month(year, 2) == 28,
        year % 400 == 0 ==> days_in_month(year, 2) == 29,
{
    assert(year % 400 == 0 ==> year % 4 == 0);
    assert(year % 100 == 0 ==> year % 4 == 0);
}

/// A time counts the whole microseconds of its hours, minutes, seconds and fraction: the
/// count falls short of the time by less than a microsecond.
pub proof fn law_midnight_micros_count_the_time(time: CivilTime)
    requires
        time.valid(),
    ensures
        ({
            let nanos = 3_600_000_000_000 * time.hour + 60_000_000_000 * time.minute
                + 1_000_000_000 * time.second + time.subsec_nanosecond;
            midnight_micros(time) * 1000 <= nanos < midnight_micros(time) * 1000 + 1000
        }),
{
}

/// Timestamps count from the midnight that the epoch begins with. A day later they count a
/// day more, and within a day they go with the time.
pub proof fn law_epoch_micros_count_the_instant(date: CivilDate, time: CivilTime)
    requires
        date.valid(),
        time.valid(),
    ensures
        epoch_micros(CivilDate { year: 1970, month: 1, day: 1 }, time) == midnight_micros(time),
        next_day(date).valid() ==> epoch_micros(next_day(date), time) == epoch_micros(date, time)
            + 86_400_000_000,
        forall|other: CivilTime|
            epoch_micros(date, time) - #[trigger] epoch_micros(date, other) == midnight_micros(time)
                - midnight_micros(other),
{
    law_epoch_days_count_days(date);
}

/// What is written of a date reads back as its year, month and day.
pub proof fn law_date_text_reads_back(date: CivilDate)
    requires
        writable_date(date),
    ensures
        ({
            let text = date_text(date);
            &&& text.len() == 10
            &&& number_read(text.subrange(0, 4)) == date.year
            &&& text[4] == '-'
            &&& number_read(text.subrange(5, 7)) == date.month
            &&& text[7] == '-'
            &&& number_read(text.subrange(8, 10)) == date.day
        }),
{
    let text = date_text(date);
    let year = date.year as int;
    reveal_strlit("-");
    lemma_two_digits(year / 100);
    lemma_two_digits(year % 100);
    lemma_two_digits(date.month as int);
    lemma_two_digits(date.day as int);
    lemma_number_of_pairs(two_digits(year / 100), two_digits(year % 100));
    assert(text.subrange(0, 4) =~= two_digits(year / 100) + two_digits(year % 100));
    assert(text.subrange(5, 7) =~= two_digits(date.month as int));
    assert(text.subrange(8, 10) =~= two_digits(date.day as int));
}

/// What is written of a time with milliseconds reads back as its hour, minute, second and
/// milliseconds, and begins with what is written of it without them.
pub proof fn law_time_text_reads_back(time: CivilTime)
    requires
        time.valid(),
    ensures
        ({
            let text = milli_time_text(time);
            &&& text.len() == 12
            &&& number_read(text.subrange(0, 2)) == time.hour
            &&& text[2] == ':'
            &&& number_read(text.subrange(3, 5)) == time.minute
            &&& text[5] == ':'
            &&& number_read(text.subrange(6, 8)) == time.second
            &&& text[8] == '.'
            &&& number_read(text.subrange(9, 12)) == time.subsec_nanosecond / 1_000_000
            &&& text.take(8) == time_text(time)
        }),
{
    let text = milli_time_text(time);
    let millis = time.subsec_nanosecond as int / 1_000_000;
    reveal_strlit(":");
    reveal_strlit(".");
    lemma_two_digits(time.hour as int);
    lemma_two_digits(time.minute as int);
    lemma_two_digits(time.second as int);
    lemma_two_digits(millis % 100);
    lemma_digit_reads((millis / 100) as nat);
    assert(text.subrange(0, 2) =~= two_digits(time.hour as int));
    assert(text.subrange(3, 5) =~= two_digits(time.minute as int));
    assert(text.subrange(6, 8) =~= two_digits(time.second as int));
    assert(text.take(8) =~= time_text(time));
    let fraction = text.subrange(9, 12);
    assert(fraction =~= three_digits(millis));
    let one = fraction.drop_last();
    let two = one.drop_last();
    assert(number_read(two.drop_last()) == 0);
    assert(number_read(two) == millis / 100);
    assert(one.last() == two_digits(millis % 100)[0]);
    assert(fraction.last() == two_digits(millis % 100)[1]);
    let pair = two_digits(millis % 100);
    assert(number_read(pair.drop_last().drop_last()) == 0);
    assert(number_read(pair.drop_last()) == pair[0] as int - '0' as int);
    assert(number_read(pair) == number_read(pair.drop_last()) * 10 + (pair[1] as int - '0' as int));
    assert(number_read(one) == number_read(two) * 10 + (pair[0] as int - '0' as int));
}

/// What is written of an instant is its date, its time and the offset, and the offset reads
/// back as its hours and minutes.
pub proof fn law_offset_instant_text_reads_back(date: CivilDate, time: CivilTime, offset: int)
    requires
        writable_offset_instant(date, time, offset),
    ensures
        ({
            let text = offset_instant_text(date, time, offset);
            &&& text.len() == 28
            &&& text.take(10) == date_text(date)
            &&& text[10] == 'T'
            &&& text.subrange(11, 23) == milli_time_text(time)
            &&& text[23] == (if offset < 0 {
                '-'
            } else {
                '+'
            })
            &&& 60 * number_read(text.subrange(24, 26)) + number_read(text.subrange(26, 28)) == (
            if offset < 0 {
                -offset
            } else {
                offset
            })
        }),
{
    let text = offset_instant_text(date, time, offset);
    let minutes = if offset < 0 {
        -offset
    } else {
        offset
    };
    reveal_strlit("T");
    reveal_strlit("+");
    reveal_strlit("-");
    law_date_text_reads_back(date);
    law_time_text_reads_back(time);
    lemma_two_digits(minutes / 60);
    lemma_two_digits(minutes % 60);
    assert(text.take(10) =~= date_text(date));
    assert(text.subrange(11, 23) =~= milli_time_text(time));
    assert(text.subrange(24, 26) =~= two_digits(minutes / 60));
    assert(text.subrange(26, 28) =~= two_digits(minutes % 60));
}

proof fn lemma_two_digits(n: int)
    requires
        0 <= n < 100,
    ensures
        two_digits(n).len() == 2,
        number_read(two_digits(n)) == n,
{
    lemma_digit_reads((n / 10) as nat);
    lemma_digit_reads((n % 10) as nat);
    let text = two_digits(n);
    assert(number_read(text.drop_last().drop_last()) == 0);
    assert(text.drop_last().last() == text[0]);
    assert(number_read(text.drop_last()) == n / 10);
}

proof fn lemma_number_of_pairs(a: Seq<char>, b: Seq<char>)
    requires
        b.len() == 2,
    ensures
        number_read(a + b) == number_read(a) * 100 + number_read(b),
{
    let both = a + b;
    assert(both.drop_last().drop_last() =~= a);
    assert(both.drop_last().last() == b[0]);
    assert(number_read(both.drop_last()) == number_read(a) * 10 + (b[0] as int - '0' as int));
    assert(number_read(b.drop_last().drop_last()) == 0);
    assert(number_read(b.drop_last()) == b[0] as int - '0' as int);
}

/// A time of whole milliseconds counts exactly the microseconds of its parts.
pub proof fn lemma_milli_time_micros(time: CivilTime)
    requires
        writable_milli_time(time),
    ensures
        midnight_micros(time) == 3_600_000_000 * time.hour + 60_000_000 * time.minute + 1_000_000
            * time.second + 1000 * (time.subsec_nanosecond as int / 1_000_000),
{
}

} // verus!
