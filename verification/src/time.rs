//! Instants and civil dates, with the time zone work done by `jiff`.

use vstd::prelude::*;

verus! {

/// Nanoseconds in a second.
pub const NANOS_PER_SECOND: i128 = 1_000_000_000;

/// Seconds since the Unix epoch of the earliest instant.
pub const FIRST_SECOND: i128 = -377_705_023_201;

/// Seconds since the Unix epoch of the last instant, to which a fraction may
/// still be added.
pub const LAST_SECOND: i128 = 253_402_207_200;

/// The largest distance of a time zone from UTC, in seconds.
pub const MAX_OFFSET: i128 = 93_599;

/// True of the nanosecond counts that an instant can have.
pub open spec fn in_range(nanos: int) -> bool {
    FIRST_SECOND * NANOS_PER_SECOND <= nanos < (LAST_SECOND + 1) * NANOS_PER_SECOND
}

/// Whole seconds of a nanosecond count, rounded towards zero.
pub open spec fn whole_seconds(nanos: int) -> int {
    if nanos >= 0 {
        nanos / (NANOS_PER_SECOND as int)
    } else {
        -((-nanos) / (NANOS_PER_SECOND as int))
    }
}

/// A nanosecond count moved by an offset in seconds.
pub open spec fn shifted(nanos: int, offset: int) -> int {
    nanos + offset * NANOS_PER_SECOND
}

/// An instant, counted in nanoseconds since the Unix epoch. Its view is that
/// count.
#[derive(Debug, Clone, Copy, PartialEq, Eq, Structural)]
pub struct Timestamp {
    nanos: i128,
}

impl View for Timestamp {
    type V = int;

    closed spec fn view(&self) -> int {
        self.nanos as int
    }
}

impl Timestamp {
    #[verifier::type_invariant]
    spec fn wf(self) -> bool {
        in_range(self.nanos as int)
    }

    /// The instant at a nanosecond count, if it is one that an instant can have.
    pub fn from_nanosecond(nanos: i128) -> (r: Option<Timestamp>)
        ensures
            r is Some == in_range(nanos as int),
            r matches Some(t) ==> t@ == nanos,
    {
        if -377_705_023_201_000_000_000 <= nanos && nanos < 253_402_207_201_000_000_000 {
            Some(Timestamp { nanos })
        } else {
            None
        }
    }

    /// The instant at the nanosecond count of an instant.
    pub(crate) fn at(nanos: i128) -> (r: Timestamp)
        requires
            in_range(nanos as int),
        ensures
            r@ == nanos,
    {
        Timestamp { nanos }
    }

    /// Nanoseconds since the Unix epoch.
    pub fn as_nanosecond(&self) -> (r: i128)
        ensures
            r == self@,
            in_range(self@),
    {
        proof {
            use_type_invariant(self);
        }
        self.nanos
    }

    /// Seconds since the Unix epoch, rounded towards zero.
    pub fn as_second(&self) -> (r: i64)
        ensures
            r == whole_seconds(self@),
    {
        seconds(self.as_nanosecond())
    }
}

/// Whole seconds of the nanosecond count of an instant, rounded towards zero.
pub fn seconds(nanos: i128) -> (r: i64)
    requires
        in_range(nanos as int),
    ensures
        r == whole_seconds(nanos as int),
{
    if nanos >= 0 {
        (nanos / 1_000_000_000) as i64
    } else {
        let past: i128 = -nanos;
        -((past / 1_000_000_000) as i64)
    }
}

/// A date and a time of day, without a time zone.
#[derive(Debug, Clone, Copy, PartialEq, Eq, Structural)]
pub struct CivilDateTime {
    /// Year of the Gregorian calendar.
    pub year: i16,
    /// Month, from 1.
    pub month: i8,
    /// Day of the month, from 1.
    pub day: i8,
    /// Hour of the day.
    pub hour: i8,
    /// Minute of the hour.
    pub minute: i8,
    /// Second of the minute.
    pub second: i8,
    /// Nanosecond of the second.
    pub nanosecond: i32,
}

/// True of a leap year of the Gregorian calendar.
pub open spec fn is_leap_year(year: int) -> bool {
    year % 4 == 0 && (year % 100 != 0 || year % 400 == 0)
}

/// Days of a month.
pub open spec fn days_in_month(year: int, month: int) -> int {
    if month == 2 {
        if is_leap_year(year) {
            29
        } else {
            28
        }
    } else if month == 4 || month == 6 || month == 9 || month == 11 {
        30
    } else {
        31
    }
}

/// Days of the year before the first of a month.
pub open spec fn days_before_month(year: int, month: int) -> int
    decreases month,
{
    if month <= 1 {
        0
    } else {
        days_before_month(year, month - 1) + days_in_month(year, month - 1)
    }
}

/// Days between 1 January of year 1 and 1 January of a year.
pub open spec fn days_before_year(year: int) -> int {
    let past = year - 1;
    365 * past + past / 4 - past / 100 + past / 400
}

impl CivilDateTime {
    /// True of a date that the calendar has and a time of day that a clock
    /// shows.
    pub open spec fn wf(self) -> bool {
        &&& -9999 <= self.year <= 9999
        &&& 1 <= self.month <= 12
        &&& 1 <= self.day <= days_in_month(self.year as int, self.month as int)
        &&& 0 <= self.hour <= 23
        &&& 0 <= self.minute <= 59
        &&& 0 <= self.second <= 59
        &&& 0 <= self.nanosecond <= 999_999_999
    }

    /// Days since 1 January 1970.
    pub open spec fn epoch_days(self) -> int {
        days_before_year(self.year as int) - days_before_year(1970) + days_before_month(
            self.year as int,
            self.month as int,
        ) + self.day - 1
    }

    /// Seconds since the Unix epoch of a clock in UTC that shows this time.
    pub open spec fn utc_seconds(self) -> int {
        self.epoch_days() * 86_400 + self.hour * 3_600 + self.minute * 60 + self.second
    }

    /// Nanoseconds since the Unix epoch of a clock in UTC that shows this time.
    pub open spec fn utc_nanos(self) -> int {
        self.utc_seconds() * NANOS_PER_SECOND + self.nanosecond
    }

    /// True where a clock that is ahead of UTC by an offset, which is one that a
    /// time zone can have, shows this time at the instant.
    pub open spec fn shown_with(self, nanos: int, offset: int) -> bool {
        -MAX_OFFSET <= offset <= MAX_OFFSET && self.utc_nanos() == shifted(nanos, offset)
    }

    /// True where a clock that is ahead of UTC by some offset that a time zone
    /// can have shows this time at the instant.
    pub open spec fn shown_at(self, nanos: int) -> bool {
        exists|offset: int| #[trigger] self.shown_with(nanos, offset)
    }

    /// True where every offset from UTC that a time zone can have gives an
    /// instant in range.
    pub open spec fn far_from_ends(self) -> bool {
        FIRST_SECOND + MAX_OFFSET <= self.utc_seconds() <= LAST_SECOND - MAX_OFFSET
    }
}

/// A number below 100 in two digits.
pub open spec fn two_digits(n: int) -> Seq<char> {
    seq![crate::text::digit_char((n / 10) as nat), crate::text::digit_char((n % 10) as nat)]
}

/// A number below 10000 in four digits.
pub open spec fn four_digits(n: int) -> Seq<char> {
    two_digits(n / 100) + two_digits(n % 100)
}

/// A year in four digits; one before year 0 with a sign, and with three digits
/// where they are enough.
pub open spec fn year_text(year: int) -> Seq<char> {
    if year >= 0 {
        four_digits(year)
    } else if year > -1000 {
        seq!['-'] + four_digits(-year).skip(1)
    } else {
        seq!['-'] + four_digits(-year)
    }
}

/// A date and time of day as `YYYY-MM-DD HH:MM:SS`.
pub open spec fn datetime_text(dt: CivilDateTime) -> Seq<char> {
    year_text(dt.year as int) + seq!['-'] + two_digits(dt.month as int) + seq!['-'] + two_digits(
        dt.day as int,
    ) + seq![' '] + two_digits(dt.hour as int) + seq![':'] + two_digits(dt.minute as int) + seq![
        ':',
    ] + two_digits(dt.second as int)
}

/// A date as `YYYY-MM-DD`; a year before year 0 as `-00YYYY`.
pub open spec fn date_text(dt: CivilDateTime) -> Seq<char> {
    let year = if dt.year < 0 {
        "-00"@ + four_digits(-dt.year)
    } else {
        four_digits(dt.year as int)
    };
    year + seq!['-'] + two_digits(dt.month as int) + seq!['-'] + two_digits(dt.day as int)
}

/// A time zone.
#[verifier::external_type_specification]
#[verifier::external_body]
pub struct ExTimeZone(jiff::tz::TimeZone);

/// By how many seconds `jiff` has a clock in a time zone ahead of UTC at an
/// instant: what `TimeZone::to_offset` gives.
pub uninterp spec fn offset_at(zone: jiff::tz::TimeZone, nanos: int) -> int;

/// The instant at which `jiff` has a clock in a time zone show a civil time, in
/// nanoseconds since the Unix epoch: what `DateTime::to_zoned` gives.
pub uninterp spec fn zoned_instant(zone: jiff::tz::TimeZone, dt: CivilDateTime) -> Option<i128>;

/// True of the date that a clock in a time zone shows at an instant.
pub open spec fn date_shown_in(s: Seq<char>, nanos: int, zone: jiff::tz::TimeZone) -> bool {
    exists|dt: CivilDateTime| #[trigger]
        dt.shown_with(nanos, offset_at(zone, nanos)) && dt.wf() && s == date_text(dt)
}

/// The instant that `jiff` reads from a text, in nanoseconds since the Unix
/// epoch.
pub uninterp spec fn parsed_instant(s: Seq<char>) -> Option<i128>;

/// The text that `jiff` writes for the instant at a nanosecond count.
pub uninterp spec fn instant_text(nanos: i128) -> Seq<char>;

/// The civil date and time that `jiff` reads from a text.
pub uninterp spec fn parsed_civil(s: Seq<char>) -> Option<CivilDateTime>;

/// The message of `jiff` when hours cannot be taken from an instant.
pub uninterp spec fn sub_hours_error(nanos: i128, hours: i64) -> Seq<char>;

/// Calls `<jiff::Timestamp as FromStr>::from_str`. Claimed of it: what it
/// gives depends on the text alone, an instant that it gives is in range, and
/// it gives none for a text of more than two words, as white space can stand
/// nowhere but between the date and the time of day.
#[verifier::external_body]
pub(crate) fn parse_instant(s: &str) -> (r: Option<i128>)
    ensures
        r == parsed_instant(s@),
        r matches Some(nanos) ==> in_range(nanos as int),
        crate::text::words(s@).len() > 2 ==> r is None,
{
    s.parse::<jiff::Timestamp>().ok().map(|t| t.as_nanosecond())
}

/// Calls the `Display` of `jiff::Timestamp`. Claimed of it: the text depends
/// on the instant alone, and reading it gives the instant back.
#[verifier::external_body]
pub(crate) fn print_instant(nanos: i128) -> (r: String)
    requires
        in_range(nanos as int),
    ensures
        r@ == instant_text(nanos),
        parsed_instant(r@) == Some(nanos),
{
    jiff::Timestamp::from_nanosecond(nanos).expect("instant in range").to_string()
}

/// Calls `<jiff::civil::DateTime as FromStr>::from_str`. Claimed of it: what
/// it gives depends on the text alone, is a date that the calendar has, and is
/// nothing for a text of more than two words, as white space can stand nowhere
/// but between the date and the time of day.
#[verifier::external_body]
pub(crate) fn parse_civil(s: &str) -> (r: Option<CivilDateTime>)
    ensures
        r == parsed_civil(s@),
        r matches Some(dt) ==> dt.wf(),
        crate::text::words(s@).len() > 2 ==> r is None,
{
    s.parse::<jiff::civil::DateTime>().ok().map(
        |d|
            CivilDateTime {
                year: d.year(),
                month: d.month(),
                day: d.day(),
                hour: d.hour(),
                minute: d.minute(),
                second: d.second(),
                nanosecond: d.subsec_nanosecond(),
            },
    )
}

/// Calls `jiff::civil::DateTime::new`. Claimed of it: it accepts exactly the
/// dates that the calendar has with a time of day that a clock shows.
#[verifier::external_body]
pub(crate) fn civil_datetime(dt: CivilDateTime) -> (r: Option<CivilDateTime>)
    ensures
        r == if dt.wf() {
            Some(dt)
        } else {
            None::<CivilDateTime>
        },
{
    let (y, mo, d, h, mi) = (dt.year, dt.month, dt.day, dt.hour, dt.minute);
    jiff::civil::DateTime::new(y, mo, d, h, mi, dt.second, dt.nanosecond).ok().map(
        |d|
            CivilDateTime {
                year: d.year(),
                month: d.month(),
                day: d.day(),
                hour: d.hour(),
                minute: d.minute(),
                second: d.second(),
                nanosecond: d.subsec_nanosecond(),
            },
    )
}

/// Calls `jiff::tz::TimeZone::system`. Nothing is claimed of it: which time
/// zone it gives depends on the machine.
#[verifier::external_body]
fn system_zone() -> jiff::tz::TimeZone {
    jiff::tz::TimeZone::system()
}

/// Calls `jiff::civil::DateTime::to_zoned`. Claimed of it: what it gives
/// depends on the time zone and the civil time alone, the instant is one at
/// which a clock at some offset from UTC shows the time, and there is one for
/// every time that lies further than an offset from the first and the last
/// instant. That the zone itself has that offset at the instant is not said:
/// it has not where its clocks skip the time, and the rules of a zone come from
/// files.
#[verifier::external_body]
pub(crate) fn local_instant(dt: CivilDateTime, zone: &jiff::tz::TimeZone) -> (r: Option<i128>)
    requires
        dt.wf(),
    ensures
        r == zoned_instant(*zone, dt),
        r matches Some(nanos) ==> in_range(nanos as int) && dt.shown_at(nanos as int),
        dt.far_from_ends() ==> r is Some,
{
    jiff::civil::date(dt.year, dt.month, dt.day).at(
        dt.hour,
        dt.minute,
        dt.second,
        dt.nanosecond,
    ).to_zoned(zone.clone()).ok().map(|z| z.timestamp().as_nanosecond())
}

/// Calls `jiff::Timestamp::to_zoned`. Claimed of it: the civil time is what a
/// clock shows at the instant that is ahead of UTC by the offset of the time
/// zone at it.
#[verifier::external_body]
pub(crate) fn local_civil(nanos: i128, zone: &jiff::tz::TimeZone) -> (r: CivilDateTime)
    requires
        in_range(nanos as int),
    ensures
        r.wf(),
        r.shown_with(nanos as int, offset_at(*zone, nanos as int)),
{
    let t = jiff::Timestamp::from_nanosecond(nanos).expect("instant in range");
    let d = t.to_zoned(zone.clone()).datetime();
    CivilDateTime {
        year: d.year(),
        month: d.month(),
        day: d.day(),
        hour: d.hour(),
        minute: d.minute(),
        second: d.second(),
        nanosecond: d.subsec_nanosecond(),
    }
}

/// Calls `jiff::civil::DateTime::strftime`. Claimed of it, for the one format
/// that is used: the text is `YYYY-MM-DD HH:MM:SS`, where a year before year 0
/// has a sign that counts as one of its four places.
#[verifier::external_body]
pub(crate) fn print_civil(dt: CivilDateTime, format: &str) -> (r: String)
    requires
        dt.wf(),
        format@ == "%Y-%m-%d %H:%M:%S"@,
    ensures
        r@ == datetime_text(dt),
{
    jiff::civil::date(dt.year, dt.month, dt.day).at(
        dt.hour,
        dt.minute,
        dt.second,
        dt.nanosecond,
    ).strftime(format).to_string()
}

/// Calls the `Display` of `jiff::civil::Date`. Claimed of it: the text is
/// `YYYY-MM-DD`, with a longer year where that lies before year 0.
#[verifier::external_body]
pub(crate) fn print_date(dt: CivilDateTime) -> (r: String)
    requires
        dt.wf(),
    ensures
        r@ == date_text(dt),
{
    jiff::civil::date(dt.year, dt.month, dt.day).to_string()
}

/// Calls `jiff::Timestamp::checked_sub` with a span of hours. Claimed of it:
/// it gives the instant that many hours earlier exactly where that one is in
/// range, and otherwise a message that depends on its arguments alone.
#[verifier::external_body]
pub(crate) fn checked_sub_hours(nanos: i128, hours: i64) -> (r: Result<i128, String>)
    requires
        in_range(nanos as int),
    ensures
        r is Ok == in_range(nanos - hours * 3_600 * NANOS_PER_SECOND),
        r matches Ok(t) ==> t == nanos - hours * 3_600 * NANOS_PER_SECOND,
        r matches Err(message) ==> message@ == sub_hours_error(nanos, hours),
{
    let t = jiff::Timestamp::from_nanosecond(nanos).expect("instant in range");
    let span = jiff::Span::new().try_hours(hours);
    span.and_then(|s| t.checked_sub(s)).map(|t| t.as_nanosecond()).map_err(|e| e.to_string())
}

/// Calls `jiff::Timestamp::checked_add` with a duration of whole seconds.
/// Claimed of it: it gives the instant that many seconds later exactly where
/// that one is in range.
#[verifier::external_body]
pub(crate) fn checked_add_seconds(nanos: i128, secs: i64) -> (r: Option<i128>)
    requires
        in_range(nanos as int),
    ensures
        r is Some == in_range(nanos + secs * NANOS_PER_SECOND),
        r matches Some(t) ==> t == nanos + secs * NANOS_PER_SECOND,
{
    let t = jiff::Timestamp::from_nanosecond(nanos).expect("instant in range");
    t.checked_add(jiff::SignedDuration::from_secs(secs)).ok().map(|t| t.as_nanosecond())
}

/// The time zone of the machine, whichever it is.
pub fn local_zone() -> jiff::tz::TimeZone {
    system_zone()
}

/// The date that a clock in a time zone shows at an instant.
pub fn local_date(now: &Timestamp, zone: &jiff::tz::TimeZone) -> (r: String)
    ensures
        date_shown_in(r@, now@, *zone),
{
    let dt = local_civil(now.as_nanosecond(), zone);
    assert(dt.shown_with(now@, offset_at(*zone, now@)));
    print_date(dt)
}

proof fn lemma_year_length(year: int)
    ensures
        days_before_year(year + 1) - days_before_year(year) == if is_leap_year(year) {
            366int
        } else {
            365int
        },
{
}

proof fn lemma_years_apart(first: int, second: int)
    requires
        first < second,
    ensures
        days_before_year(first + 1) <= days_before_year(second),
    decreases second - first,
{
    if first + 1 < second {
        lemma_years_apart(first, second - 1);
        lemma_year_length(second - 1);
    }
}

proof fn lemma_months_apart(year: int, first: int, second: int)
    requires
        1 <= first < second,
    ensures
        days_before_month(year, first) + days_in_month(year, first) <= days_before_month(
            year,
            second,
        ),
    decreases second - first,
{
    if first + 1 < second {
        lemma_months_apart(year, first, second - 1);
    }
}

/// A date lies within its year.
proof fn lemma_within_year(dt: CivilDateTime)
    requires
        dt.wf(),
    ensures
        ({
            let day = days_before_month(dt.year as int, dt.month as int) + dt.day - 1;
            0 <= day < days_before_year(dt.year + 1) - days_before_year(dt.year as int)
        }),
{
    let year = dt.year as int;
    reveal_with_fuel(days_before_month, 13);
    lemma_year_length(year);
    assert(days_before_month(year, 12) + 31 == if is_leap_year(year) {
        366int
    } else {
        365int
    });
    if dt.month < 12 {
        lemma_months_apart(year, dt.month as int, 12);
    }
    if dt.month > 1 {
        lemma_months_apart(year, 1, dt.month as int);
    }
}

/// A whole and a part of it that is below a unit are known from their sum.
proof fn lemma_split(unit: int, a: int, x: int, b: int, y: int)
    by (nonlinear_arith)
    requires
        0 <= x < unit,
        0 <= y < unit,
        a * unit + x == b * unit + y,
    ensures
        a == b,
        x == y,
{
}

/// No two dates lie equally far from the Unix epoch.
proof fn lemma_one_date(a: CivilDateTime, b: CivilDateTime)
    requires
        a.wf(),
        b.wf(),
        a.epoch_days() == b.epoch_days(),
    ensures
        a.year == b.year,
        a.month == b.month,
        a.day == b.day,
{
    lemma_within_year(a);
    lemma_within_year(b);
    if a.year < b.year {
        lemma_years_apart(a.year as int, b.year as int);
    } else if b.year < a.year {
        lemma_years_apart(b.year as int, a.year as int);
    }
    assert(a.year == b.year);
    let year = a.year as int;
    if a.month < b.month {
        lemma_months_apart(year, a.month as int, b.month as int);
    } else if b.month < a.month {
        lemma_months_apart(year, b.month as int, a.month as int);
    }
}

/// A clock shows one time at an instant: no two dates and times of day are
/// equally far from the Unix epoch.
pub proof fn lemma_one_time_shown(a: CivilDateTime, b: CivilDateTime, nanos: int, offset: int)
    requires
        a.wf(),
        b.wf(),
        a.shown_with(nanos, offset),
        b.shown_with(nanos, offset),
    ensures
        a == b,
{
    let (seconds, others) = (a.utc_seconds(), b.utc_seconds());
    lemma_split(
        NANOS_PER_SECOND as int,
        seconds,
        a.nanosecond as int,
        others,
        b.nanosecond as int,
    );
    let (x, y) = (a.minute * 60 + a.second, b.minute * 60 + b.second);
    lemma_split(86_400, a.epoch_days(), a.hour * 3_600 + x, b.epoch_days(), b.hour * 3_600 + y);
    lemma_split(3_600, a.hour as int, x, b.hour as int, y);
    lemma_split(60, a.minute as int, a.second as int, b.minute as int, b.second as int);
    lemma_one_date(a, b);
}

/// A date and time of day from year 0 on takes 19 characters.
pub proof fn lemma_datetime_text_length(dt: CivilDateTime)
    requires
        dt.wf(),
        dt.year >= 0,
    ensures
        datetime_text(dt).len() == 19,
{
}

/// The whole seconds of an instant are those that have passed since the Unix
/// epoch, or that lie before it, whatever fraction of a second comes on top.
pub proof fn lemma_fraction_dropped(seconds: nat, fraction: int)
    requires
        0 <= fraction < 1_000_000_000,
    ensures
        whole_seconds(seconds * 1_000_000_000 + fraction) == seconds,
        whole_seconds(-(seconds * 1_000_000_000 + fraction)) == -seconds,
{
}

/// An instant is one of the years from -9999 to 9999, with a day to spare at
/// either end for the offsets of time zones.
pub proof fn lemma_range(nanos: int)
    ensures
        in_range(nanos) == (-377_705_023_201_000_000_000 <= nanos < 253_402_207_201_000_000_000),
{
}

/// The date of an instant in a time zone is that of the date and time of day
/// that are as far from the Unix epoch as the instant and the offset of the time
/// zone together.
pub proof fn lemma_date_shown(s: Seq<char>, nanos: int, zone: jiff::tz::TimeZone)
    requires
        date_shown_in(s, nanos, zone),
    ensures
        exists|dt: CivilDateTime|
            dt.wf() && s == #[trigger] date_text(dt) && dt.utc_nanos() == nanos + offset_at(
                zone,
                nanos,
            ) * 1_000_000_000,
{
    let offset = offset_at(zone, nanos);
    let dt = choose|dt: CivilDateTime| #[trigger]
        dt.shown_with(nanos, offset) && dt.wf() && s == date_text(dt);
    assert(s == date_text(dt));
}

} // verus!
