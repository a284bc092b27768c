//! Counting how often a weekday occurs in an inclusive range of dates,
//! without walking through the days.

use chrono::{Datelike, NaiveDate};
use vstd::prelude::*;

verus! {

/// The earliest year that a date can have.
pub const MIN_YEAR: i32 = -262143;

/// The latest year that a date can have.
pub const MAX_YEAR: i32 = 262142;

/// A day of the week. The week starts on Monday.
#[derive(Clone, Copy, Debug, PartialEq, Eq, Structural)]
pub enum Weekday {
    Mon,
    Tue,
    Wed,
    Thu,
    Fri,
    Sat,
    Sun,
}

impl Weekday {
    /// Position in the week, `0` for Monday up to `6` for Sunday.
    pub open spec fn index(self) -> int {
        match self {
            Weekday::Mon => 0,
            Weekday::Tue => 1,
            Weekday::Wed => 2,
            Weekday::Thu => 3,
            Weekday::Fri => 4,
            Weekday::Sat => 5,
            Weekday::Sun => 6,
        }
    }

    /// The number of days since the last Monday.
    pub fn num_days_from_monday(&self) -> (n: u32)
        ensures
            n == self.index(),
            n <= 6,
    {
        match self {
            Weekday::Mon => 0,
            Weekday::Tue => 1,
            Weekday::Wed => 2,
            Weekday::Thu => 3,
            Weekday::Fri => 4,
            Weekday::Sat => 5,
            Weekday::Sun => 6,
        }
    }
}

/// Why a text could not be read as a date.
#[derive(Clone, Copy, Debug, PartialEq, Eq, Structural)]
pub enum ParseErrorKind {
    /// A field is outside its permitted range.
    OutOfRange,
    /// No date has the given fields.
    Impossible,
    /// The fields do not determine a date.
    NotEnough,
    /// The text has characters that the format does not allow.
    Invalid,
    /// The text ends too early.
    TooShort,
    /// Text is left after the last item of the format.
    TooLong,
    /// The format itself is wrong or not supported.
    BadFormat,
}

/// A text that is no date in the expected format.
#[derive(Clone, Debug, PartialEq, Eq)]
pub struct ParseError {
    /// What was wrong with the text.
    pub kind: ParseErrorKind,
    /// The text that was refused.
    pub input: String,
}

/// Whether `year` is a leap year of the proleptic Gregorian calendar.
pub open spec fn is_leap_year(year: int) -> bool {
    year % 4 == 0 && (year % 100 != 0 || year % 400 == 0)
}

/// The number of days of a month, for `month` from 1 to 12.
pub open spec fn days_in_month(year: int, month: int) -> int {
    if month == 2 {
        if is_leap_year(year) {
            29
        } else {
            28
        }
    } else if month == 4 || month == 6 || month == 9 || month == 11 {
        30
    } else {
        31
    }
}

/// The number of days of `year` that lie before the first day of `month`.
pub open spec fn days_before_month(year: int, month: int) -> int
    decreases month,
{
    if month <= 1 {
        0
    } else {
        days_before_month(year, month - 1) + days_in_month(year, month - 1)
    }
}

/// A calendar date as three numbers: the mathematical model of a [`DateValue`].
pub struct CalendarDate {
    pub year: int,
    pub month: int,
    pub day: int,
}

/// The calendar date with the given year, month and day.
pub open spec fn calendar_date(year: int, month: int, day: int) -> CalendarDate {
    CalendarDate { year, month, day }
}

/// The number of days from the first of January of the year 1 to the first
/// of January of `year`; negative for the years before.
pub open spec fn days_before_year(year: int) -> int {
    365 * (year - 1) + (year - 1) / 4 - (year - 1) / 100 + (year - 1) / 400
}

/// The weekday at the position `index` of the week, `0` for Monday.
pub open spec fn weekday_with_index(index: int) -> Weekday {
    if index == 0 {
        Weekday::Mon
    } else if index == 1 {
        Weekday::Tue
    } else if index == 2 {
        Weekday::Wed
    } else if index == 3 {
        Weekday::Thu
    } else if index == 4 {
        Weekday::Fri
    } else if index == 5 {
        Weekday::Sat
    } else {
        Weekday::Sun
    }
}

impl CalendarDate {
    /// The date exists in the proleptic Gregorian calendar and its year is
    /// in the supported range.
    pub open spec fn is_valid(self) -> bool {
        &&& MIN_YEAR <= self.year <= MAX_YEAR
        &&& 1 <= self.month <= 12
        &&& 1 <= self.day <= days_in_month(self.year, self.month)
    }

    /// Position of the date in its own year, `1` for the first of January.
    pub open spec fn day_of_year(self) -> int {
        days_before_month(self.year, self.month) + self.day
    }

    /// The number of days from the first of January of the year 1 to the
    /// date.
    pub open spec fn day_number(self) -> int {
        days_before_year(self.year) + self.day_of_year() - 1
    }

    /// The day of the week of the date. The first of January of the year 1
    /// is a Monday, and the weekdays follow each other without a gap.
    pub open spec fn weekday(self) -> Weekday {
        weekday_with_index(self.day_number() % 7)
    }

    /// `self` is an earlier day than `other`.
    pub open spec fn is_before(self, other: CalendarDate) -> bool {
        ||| self.year < other.year
        ||| self.year == other.year && self.month < other.month
        ||| self.year == other.year && self.month == other.month && self.day < other.day
    }
}

/// The day of the year lies between 1 and 366 for every valid date.
pub proof fn lemma_day_of_year_bounds(date: CalendarDate)
    requires
        date.is_valid(),
    ensures
        1 <= date.day_of_year() <= 366,
{
    reveal_with_fuel(days_before_month, 13);
}

/// Within one year, a later date has a larger day of the year.
pub proof fn lemma_day_of_year_increases(earlier: CalendarDate, later: CalendarDate)
    requires
        earlier.is_valid(),
        later.is_valid(),
        earlier.year == later.year,
        earlier.is_before(later),
    ensures
        earlier.day_of_year() < later.day_of_year(),
{
    reveal_with_fuel(days_before_month, 13);
}

/// Calls `NaiveDate::from_ymd_opt` and, on the date it gives,
/// `Datelike::ordinal`. `chrono` makes a date exactly of the year, month and
/// day of a valid calendar date, and its ordinal is the day of the year.
#[verifier::external_body]
fn chrono_ordinal(year: i32, month: u32, day: u32) -> (ordinal: Option<u32>)
    ensures
        ordinal is Some <==> calendar_date(year as int, month as int, day as int).is_valid(),
        ordinal is Some ==> ordinal.unwrap() == calendar_date(
            year as int,
            month as int,
            day as int,
        ).day_of_year(),
{
    match NaiveDate::from_ymd_opt(year, month, day) {
        Some(date) => Some(date.ordinal()),
        None => None,
    }
}

/// Calls `NaiveDate::from_ymd_opt` and, on the date it gives,
/// `Datelike::weekday`. `chrono` makes a date exactly of the year, month and
/// day of a valid calendar date, and its weekday is the one that the date
/// has in the proleptic Gregorian calendar.
#[verifier::external_body]
fn chrono_weekday(year: i32, month: u32, day: u32) -> (weekday: Option<Weekday>)
    ensures
        weekday is Some <==> calendar_date(year as int, month as int, day as int).is_valid(),
        weekday is Some ==> weekday.unwrap() == calendar_date(
            year as int,
            month as int,
            day as int,
        ).weekday(),
{
    match NaiveDate::from_ymd_opt(year, month, day) {
        Some(date) => Some(match date.weekday() {
            chrono::Weekday::Mon => Weekday::Mon,
            chrono::Weekday::Tue => Weekday::Tue,
            chrono::Weekday::Wed => Weekday::Wed,
            chrono::Weekday::Thu => Weekday::Thu,
            chrono::Weekday::Fri => Weekday::Fri,
            chrono::Weekday::Sat => Weekday::Sat,
            chrono::Weekday::Sun => Weekday::Sun,
        }),
        None => None,
    }
}

/// Whether `format` is free of the letter `G`, with which a format asks for
/// the year of an ISO week date. Reading such a year at the limits of 32
/// bits makes `chrono` overflow, so these formats are not handed to it.
pub open spec fn has_no_iso_year(format: Seq<char>) -> bool {
    forall|i: int| 0 <= i < format.len() ==> format[i] != 'G'
}

/// What `chrono` makes of `text` when it reads it as a date in `format`: the
/// calendar date, or the reason for which it refuses the text.
pub uninterp spec fn parse_outcome(text: Seq<char>, format: Seq<char>) -> Result<
    CalendarDate,
    ParseErrorKind,
>;

/// Calls `NaiveDate::parse_from_str` and hands back the year, month and day
/// of the date it read, or the kind of its error. What `chrono` accepts in a
/// format is not stated here, only that the answer depends on the two texts
/// alone and that a date it gives is a valid one. A format that asks for an
/// ISO week year is left out, since `chrono` may panic on it.
#[verifier::external_body]
fn chrono_parse(text: &str, format: &str) -> (parsed: Result<DateValue, ParseErrorKind>)
    requires
        has_no_iso_year(format@),
    ensures
        date_outcome(parsed) == parse_outcome(text@, format@),
        parsed is Ok ==> parsed.unwrap()@.is_valid(),
{
    match NaiveDate::parse_from_str(text, format) {
        Ok(date) => Ok(DateValue { year: date.year(), month: date.month(), day: date.day() }),
        Err(error) => Err(match error.kind() {
            chrono::format::ParseErrorKind::OutOfRange => ParseErrorKind::OutOfRange,
            chrono::format::ParseErrorKind::Impossible => ParseErrorKind::Impossible,
            chrono::format::ParseErrorKind::NotEnough => ParseErrorKind::NotEnough,
            chrono::format::ParseErrorKind::Invalid => ParseErrorKind::Invalid,
            chrono::format::ParseErrorKind::TooShort => ParseErrorKind::TooShort,
            chrono::format::ParseErrorKind::TooLong => ParseErrorKind::TooLong,
            _ => ParseErrorKind::BadFormat,
        }),
    }
}

/// The outcome of reading a date, with the date taken by its model.
pub open spec fn date_outcome(parsed: Result<DateValue, ParseErrorKind>) -> Result<
    CalendarDate,
    ParseErrorKind,
> {
    match parsed {
        Ok(date) => Ok(date@),
        Err(kind) => Err(kind),
    }
}

/// Whether the three numbers are the year, month and day of a date.
fn is_calendar_date(year: i32, month: u32, day: u32) -> (valid: bool)
    ensures
        valid == calendar_date(year as int, month as int, day as int).is_valid(),
{
    if year < MIN_YEAR || year > MAX_YEAR || month < 1 || month > 12 || day < 1 {
        return false;
    }
    let leap = year % 4 == 0 && (year % 100 != 0 || year % 400 == 0);
    let last_day: u32 = if month == 2 {
        if leap {
            29
        } else {
            28
        }
    } else if month == 4 || month == 6 || month == 9 || month == 11 {
        30
    } else {
        31
    };
    day <= last_day
}

/// A date of the proleptic Gregorian calendar, without a time of day.
#[derive(Clone, Copy, Debug, PartialEq, Eq)]
pub struct DateValue {
    year: i32,
    month: u32,
    day: u32,
}

impl View for DateValue {
    type V = CalendarDate;

    closed spec fn view(&self) -> CalendarDate {
        calendar_date(self.year as int, self.month as int, self.day as int)
    }
}

impl DateValue {
    #[verifier::type_invariant]
    spec fn well_formed(self) -> bool {
        self@.is_valid()
    }

    /// The date with the given year, month and day, if there is one.
    pub fn from_ymd(year: i32, month: u32, day: u32) -> (date: Option<DateValue>)
        ensures
            date is Some <==> calendar_date(year as int, month as int, day as int).is_valid(),
            date is Some ==> date.unwrap()@ == calendar_date(
                year as int,
                month as int,
                day as int,
            ),
    {
        if is_calendar_date(year, month, day) {
            Some(DateValue { year, month, day })
        } else {
            None
        }
    }

    pub fn year(&self) -> (year: i32)
        ensures
            year == self@.year,
    {
        self.year
    }

    pub fn month(&self) -> (month: u32)
        ensures
            month == self@.month,
    {
        self.month
    }

    pub fn day(&self) -> (day: u32)
        ensures
            day == self@.day,
    {
        self.day
    }

    /// Reads `text` as a date written in `format`, in the notation of
    /// `chrono`'s `strftime` module. A text that is refused comes back in
    /// the error. The format may not hold the letter `G`.
    pub fn parse_from_str(text: &str, format: &str) -> (parsed: Result<DateValue, ParseError>)
        requires
            has_no_iso_year(format@),
        ensures
            parsed is Ok <==> parse_outcome(text@, format@) is Ok,
            parsed matches Ok(date) ==> parse_outcome(text@, format@) == Ok::<
                CalendarDate,
                ParseErrorKind,
            >(date@) && date@.is_valid(),
            parsed matches Err(error) ==> parse_outcome(text@, format@) == Err::<
                CalendarDate,
                ParseErrorKind,
            >(error.kind) && error.input@ == text@,
    {
        match chrono_parse(text, format) {
            Ok(date) => Ok(date),
            Err(kind) => Err(ParseError { kind, input: text.to_owned() }),
        }
    }

    /// Position of the date in its own year, starting from 1.
    pub fn day_of_year(&self) -> (ordinal: u32)
        ensures
            ordinal == self@.day_of_year(),
            1 <= ordinal <= 366,
            self@.is_valid(),
    {
        proof {
            use_type_invariant(self);
            lemma_day_of_year_bounds(self@);
        }
        match chrono_ordinal(self.year, self.month, self.day) {
            Some(ordinal) => ordinal,
            None => vstd::pervasive::unreached(),
        }
    }

    /// The day of the week of the date.
    pub fn weekday(&self) -> (weekday: Weekday)
        ensures
            weekday == self@.weekday(),
    {
        proof {
            use_type_invariant(self);
        }
        match chrono_weekday(self.year, self.month, self.day) {
            Some(weekday) => weekday,
            None => vstd::pervasive::unreached(),
        }
    }
}

/// How many of the `days` consecutive days that begin on a day with weekday
/// index `start` fall on the weekday with index `target`.
pub open spec fn occurrences(start: int, target: int, days: nat) -> nat
    decreases days,
{
    if days == 0 {
        0
    } else {
        let earlier = occurrences(start, target, (days - 1) as nat);
        if (start + days - 1) % 7 == target {
            earlier + 1
        } else {
            earlier
        }
    }
}

/// Days from a day with weekday index `start` to the first day on or after
/// it with weekday index `target`.
pub open spec fn start_offset(start: int, target: int) -> int {
    if target - start >= 0 {
        target - start
    } else {
        target - start + 7
    }
}

/// The count in closed form, for a range that spans `num_days` day steps.
pub open spec fn full_weeks_count(start: int, target: int, num_days: int) -> int {
    if start_offset(start, target) > num_days {
        0
    } else {
        (num_days - start_offset(start, target)) / 7 + 1
    }
}

/// The closed form counts exactly the days of the range that fall on the
/// target weekday.
pub proof fn lemma_full_weeks_count(start: int, target: int, num_days: nat)
    requires
        0 <= start <= 6,
        0 <= target <= 6,
    ensures
        occurrences(start, target, num_days + 1) == full_weeks_count(start, target, num_days as int),
    decreases num_days,
{
    if num_days == 0 {
        assert(occurrences(start, target, 0) == 0);
    } else {
        lemma_full_weeks_count(start, target, (num_days - 1) as nat);
    }
}

/// Two dates as the bounds of an inclusive range: the mathematical model of
/// a [`WeekdaysCounter`]. The end may lie before the start.
pub struct DateRange {
    pub start: CalendarDate,
    pub end: CalendarDate,
}

/// The number of days from the day of the year `from` to the day of the year
/// `to`, both included; none where `to` lies before `from`.
pub open spec fn days_between(from: int, to: int) -> nat {
    if to < from {
        0
    } else {
        (to - from + 1) as nat
    }
}

impl DateRange {
    /// The number of days of the range, both bounds included, going by the
    /// day of the year of each bound. A range that ends on an earlier day of
    /// the year than it starts on has no days, whatever the years are.
    pub open spec fn days(self) -> nat {
        days_between(self.start.day_of_year(), self.end.day_of_year())
    }

    /// The number of days of the range that fall on `target`.
    pub open spec fn count(self, target: Weekday) -> nat {
        occurrences(self.start.weekday().index(), target.index(), self.days())
    }
}

/// The number of days that fall on `target` among the days of one year from
/// the day of the year `year_day_from` to the day of the year `year_day_to`,
/// both included, where the first of them falls on `start`.
///
/// The first such day lies less than a week after the start; after it there
/// is one more for every full week that still fits into the range.
pub fn count_between(year_day_from: u32, year_day_to: u32, start: Weekday, target: Weekday) -> (count:
    u32)
    ensures
        count == occurrences(
            start.index(),
            target.index(),
            days_between(year_day_from as int, year_day_to as int),
        ),
        count <= days_between(year_day_from as int, year_day_to as int),
        year_day_from <= year_day_to ==> count == full_weeks_count(
            start.index(),
            target.index(),
            year_day_to - year_day_from,
        ),
{
    if year_day_to < year_day_from {
        return 0;
    }
    // the number of day steps from the first day to the last
    let num_days = year_day_to - year_day_from;

    // the days from the start to the first day that falls on the target
    let target = target.num_days_from_monday();
    let start = start.num_days_from_monday();
    let start_offset = if target >= start {
        target - start
    } else {
        7 + target - start
    };

    proof {
        lemma_full_weeks_count(start as int, target as int, num_days as nat);
        lemma_occurrences_bound(start as int, target as int, (num_days + 1) as nat);
    }

    // sometimes the first such day lies behind the end
    if num_days < start_offset {
        return 0;
    }
    // the last day is included, hence the `+ 1`
    (num_days - start_offset) / 7 + 1
}

/// Counts the days of a range of dates that fall on a weekday.
pub struct WeekdaysCounter {
    start_date: DateValue,
    end_date: DateValue,
}

impl View for WeekdaysCounter {
    type V = DateRange;

    closed spec fn view(&self) -> DateRange {
        DateRange { start: self.start_date@, end: self.end_date@ }
    }
}

impl WeekdaysCounter {
    /// The counter for the days from `start_date` to `end_date`, both
    /// included.
    pub fn new(start_date: DateValue, end_date: DateValue) -> (counter: Self)
        ensures
            counter@.start == start_date@,
            counter@.end == end_date@,
    {
        Self { start_date, end_date }
    }

    /// The number of days of the range that fall on `day_of_week`.
    pub fn count(&self, day_of_week: Weekday) -> (count: u32)
        ensures
            count == self@.count(day_of_week),
            count <= self@.days(),
            self@.days() > 0 ==> count == full_weeks_count(
                self@.start.weekday().index(),
                day_of_week.index(),
                self@.days() - 1,
            ),
    {
        let year_day_from = self.start_date.day_of_year();
        let year_day_to = self.end_date.day_of_year();
        count_between(year_day_from, year_day_to, self.start_date.weekday(), day_of_week)
    }
}

/// Reads the two bounds of a range, each as a date written in `format`,
/// which may not hold the letter `G`.
pub fn parse_range(text_start: &str, text_end: &str, format: &str) -> (range: Result<
    WeekdaysCounter,
    ParseError,
>)
    requires
        has_no_iso_year(format@),
    ensures
        range is Ok <==> parse_outcome(text_start@, format@) is Ok && parse_outcome(
            text_end@,
            format@,
        ) is Ok,
        range matches Ok(counter) ==> range_outcome(text_start@, text_end@, format@) == Ok::<
            DateRange,
            (ParseErrorKind, Seq<char>),
        >(counter@),
        range matches Err(error) ==> range_outcome(text_start@, text_end@, format@) == Err::<
            DateRange,
            (ParseErrorKind, Seq<char>),
        >((error.kind, error.input@)),
        range matches Ok(counter) ==> counter@.start.is_valid() && counter@.end.is_valid(),
{
    let start_date = match DateValue::parse_from_str(text_start, format) {
        Ok(date) => date,
        Err(error) => {
            return Err(error);
        },
    };
    let end_date = match DateValue::parse_from_str(text_end, format) {
        Ok(date) => date,
        Err(error) => {
            return Err(error);
        },
    };
    Ok(WeekdaysCounter::new(start_date, end_date))
}

/// What reading two bounds gives: the range, or the kind of the error and
/// the text of the first bound that is no date.
pub open spec fn range_outcome(text_start: Seq<char>, text_end: Seq<char>, format: Seq<char>)
    -> Result<DateRange, (ParseErrorKind, Seq<char>)> {
    match (parse_outcome(text_start, format), parse_outcome(text_end, format)) {
        (Ok(start), Ok(end)) => Ok(DateRange { start, end }),
        (Err(kind), _) => Err((kind, text_start)),
        (Ok(_), Err(kind)) => Err((kind, text_end)),
    }
}

/// The format of the dates that the counting functions read: day, month and
/// year, as in `01-05-2021`.
pub const DATE_FORMAT: &'static str = "%d-%m-%Y";

/// What counting the days that fall on `target` gives for two bounds written
/// in [`DATE_FORMAT`]: the count, or the kind of the error and the text of
/// the first bound that is no date.
pub open spec fn count_outcome(text_start: Seq<char>, text_end: Seq<char>, target: Weekday)
    -> Result<nat, (ParseErrorKind, Seq<char>)> {
    match range_outcome(text_start, text_end, DATE_FORMAT@) {
        Ok(range) => Ok(range.count(target)),
        Err(refused) => Err(refused),
    }
}

/// The number of days that fall on `target` in the range from the date
/// written in `text_start` to the one written in `text_end`, both included
/// and both written in [`DATE_FORMAT`].
pub fn count_target_weekday_in_range(text_start: &str, text_end: &str, target: Weekday) -> (count:
    Result<u32, ParseError>)
    ensures
        count is Ok <==> count_outcome(text_start@, text_end@, target) is Ok,
        count matches Ok(n) ==> n <= 366 && count_outcome(text_start@, text_end@, target) == Ok::<
            nat,
            (ParseErrorKind, Seq<char>),
        >(n as nat),
        count matches Err(error) ==> count_outcome(text_start@, text_end@, target) == Err::<
            nat,
            (ParseErrorKind, Seq<char>),
        >((error.kind, error.input@)),
{
    proof {
        reveal_strlit("%d-%m-%Y");
    }
    match parse_range(text_start, text_end, DATE_FORMAT) {
        Ok(counter) => {
            proof {
                lemma_day_of_year_bounds(counter@.start);
                lemma_day_of_year_bounds(counter@.end);
            }
            Ok(counter.count(target))
        },
        Err(error) => Err(error),
    }
}

/// The number of Sundays in the range of dates `dates`, which is inclusive
/// on both sides.
pub fn count_sundays(dates: (&str, &str)) -> (count: Result<u32, ParseError>)
    ensures
        count is Ok <==> count_outcome(dates.0@, dates.1@, Weekday::Sun) is Ok,
        count matches Ok(n) ==> n <= 366 && count_outcome(dates.0@, dates.1@, Weekday::Sun) == Ok::<
            nat,
            (ParseErrorKind, Seq<char>),
        >(n as nat),
        count matches Err(error) ==> count_outcome(dates.0@, dates.1@, Weekday::Sun) == Err::<
            nat,
            (ParseErrorKind, Seq<char>),
        >((error.kind, error.input@)),
{
    count_target_weekday_in_range(dates.0, dates.1, Weekday::Sun)
}

/// No more days fall on a weekday than there are days.
pub proof fn lemma_occurrences_bound(start: int, target: int, days: nat)
    ensures
        occurrences(start, target, days) <= days,
    decreases days,
{
    if days > 0 {
        lemma_occurrences_bound(start, target, (days - 1) as nat);
    }
}

/// Every day falls on exactly one weekday: over the seven weekdays the
/// occurrences add up to the number of days.
pub proof fn lemma_occurrences_sum(start: int, days: nat)
    ensures
        occurrences(start, 0, days) + occurrences(start, 1, days) + occurrences(start, 2, days)
            + occurrences(start, 3, days) + occurrences(start, 4, days) + occurrences(
            start,
            5,
            days,
        ) + occurrences(start, 6, days) == days,
    decreases days,
{
    if days > 0 {
        lemma_occurrences_sum(start, (days - 1) as nat);
    }
}

/// The count of a weekday in a range is never more than the number of days
/// of the range.
pub proof fn lemma_count_bound(range: DateRange, target: Weekday)
    ensures
        0 <= range.count(target) <= range.days(),
{
    lemma_occurrences_bound(range.start.weekday().index(), target.index(), range.days());
}

/// The counts of the seven weekdays add up to the number of days of the
/// range, which is zero where the range ends before it starts.
pub proof fn lemma_counts_sum_to_days(range: DateRange)
    ensures
        range.count(Weekday::Mon) + range.count(Weekday::Tue) + range.count(Weekday::Wed)
            + range.count(Weekday::Thu) + range.count(Weekday::Fri) + range.count(Weekday::Sat)
            + range.count(Weekday::Sun) == range.days(),
        range.end.day_of_year() >= range.start.day_of_year() ==> range.days()
            == range.end.day_of_year() - range.start.day_of_year() + 1,
        range.end.day_of_year() < range.start.day_of_year() ==> range.days() == 0,
{
    lemma_occurrences_sum(range.start.weekday().index(), range.days());
}

/// The count depends on nothing but the two dates and the weekday: counters
/// of the same range give the same count, however often they are asked.
pub proof fn lemma_count_is_repeatable(
    first: WeekdaysCounter,
    second: WeekdaysCounter,
    target: Weekday,
)
    requires
        first@ == second@,
    ensures
        first@.count(target) == second@.count(target),
{
}

/// Within one year the weekdays follow the days: a date falls as many
/// weekdays after another as its day of the year lies after the other's.
pub proof fn lemma_weekday_advances(first: CalendarDate, second: CalendarDate)
    requires
        first.year == second.year,
    ensures
        second.weekday().index() == (first.weekday().index() + second.day_of_year()
            - first.day_of_year()) % 7,
{
}

/// In a range of a single day the weekday of that day occurs once and every
/// other weekday never.
pub proof fn lemma_single_day(date: CalendarDate, target: Weekday)
    ensures
        (DateRange { start: date, end: date }).count(target) == if target == date.weekday() {
            1nat
        } else {
            0nat
        },
{
    let start = date.weekday().index();
    assert(occurrences(start, target.index(), 1) == if (start + 1 - 1) % 7 == target.index() {
        1nat
    } else {
        0nat
    }) by {
        assert(occurrences(start, target.index(), 0) == 0);
    }
}

/// In a range of seven days every weekday occurs exactly once.
pub proof fn lemma_one_week(range: DateRange, target: Weekday)
    requires
        range.days() == 7,
    ensures
        range.count(target) == 1,
{
    lemma_full_weeks_count(range.start.weekday().index(), target.index(), 6);
}

/// A range whose end is an earlier day of the same year than its start is
/// empty: no weekday occurs in it.
pub proof fn lemma_reversed_range(earlier: CalendarDate, later: CalendarDate, target: Weekday)
    requires
        earlier.is_valid(),
        later.is_valid(),
        earlier.year == later.year,
        earlier.is_before(later),
    ensures
        (DateRange { start: later, end: earlier }).days() == 0,
        (DateRange { start: later, end: earlier }).count(target) == 0,
{
    lemma_day_of_year_increases(earlier, later);
}

} // verus!
