//! The time of an optimizer's last measurement, as the portal writes it.

use vstd::prelude::*;

use crate::text;
use crate::text::{has_char, parse_between, same_text, split_pieces, split_words, trimmed};
use crate::time;
use crate::time::{
    civil_datetime, local_instant, local_zone, parse_civil, parse_instant, seconds, CivilDateTime,
};

verus! {

/// The number of a month by its English abbreviation.
pub open spec fn month_number(m: Seq<char>) -> Option<i8> {
    if m == "Jan"@ {
        Some(1i8)
    } else if m == "Feb"@ {
        Some(2i8)
    } else if m == "Mar"@ {
        Some(3i8)
    } else if m == "Apr"@ {
        Some(4i8)
    } else if m == "May"@ {
        Some(5i8)
    } else if m == "Jun"@ {
        Some(6i8)
    } else if m == "Jul"@ {
        Some(7i8)
    } else if m == "Aug"@ {
        Some(8i8)
    } else if m == "Sep"@ {
        Some(9i8)
    } else if m == "Oct"@ {
        Some(10i8)
    } else if m == "Nov"@ {
        Some(11i8)
    } else if m == "Dec"@ {
        Some(12i8)
    } else {
        None
    }
}

/// An integer that fits in an `i8`.
pub open spec fn small_integer(s: Seq<char>) -> Option<int> {
    text::integer_between(s, -128, 127)
}

/// The date and time of `Thu Apr 23 12:26:12 GMT 2026`: six words, of which
/// the first (the weekday) and the fifth (the time zone) are not read.
pub open spec fn legacy_form(s: Seq<char>) -> Option<CivilDateTime> {
    let parts = text::words(s);
    if parts.len() != 6 {
        None
    } else {
        let clock = text::pieces(parts[3], ':');
        if clock.len() != 3 {
            None
        } else {
            match (
                month_number(parts[1]),
                small_integer(parts[2]),
                small_integer(clock[0]),
                small_integer(clock[1]),
                small_integer(clock[2]),
                text::integer_between(parts[5], -32768, 32767),
            ) {
                (Some(month), Some(day), Some(hour), Some(minute), Some(second), Some(year)) => {
                    let dt = CivilDateTime {
                        year: year as i16,
                        month,
                        day: day as i8,
                        hour: hour as i8,
                        minute: minute as i8,
                        second: second as i8,
                        nanosecond: 0,
                    };
                    if dt.wf() {
                        Some(dt)
                    } else {
                        None
                    }
                },
                _ => None,
            }
        }
    }
}

/// The second at which a clock in a time zone shows a civil time.
pub open spec fn local_second(zone: jiff::tz::TimeZone, dt: Option<CivilDateTime>) -> Option<i64> {
    match dt {
        Some(dt) => optional_seconds(time::zoned_instant(zone, dt)),
        None => None,
    }
}

/// True where the second of a civil time in a time zone is that of an instant
/// at which a clock at some offset from UTC shows the time, and where there is
/// one unless the time lies at the ends of the calendar.
pub open spec fn sound_in(zone: jiff::tz::TimeZone, dt: CivilDateTime) -> bool {
    &&& local_second(zone, Some(dt)) matches Some(second) ==> exists|nanos: int|
        time::in_range(nanos) && #[trigger] dt.shown_at(nanos) && second == time::whole_seconds(nanos)
    &&& dt.far_from_ends() ==> local_second(zone, Some(dt)) is Some
}

/// What an ISO 8601 text gives: nothing without a `T`, else the instant that
/// it names, else what came of reading it on a local clock.
pub open spec fn iso_choice(
    s: Seq<char>,
    instant: Option<i64>,
    local: Option<i64>,
) -> Option<i64> {
    if !s.contains('T') {
        None
    } else if instant is Some {
        instant
    } else {
        local
    }
}

/// What a measurement text gives: nothing where it is blank, else what its
/// ISO 8601 form gave, else what its legacy form gave.
pub open spec fn measurement_choice(
    s: Seq<char>,
    iso: Option<i64>,
    legacy: Option<i64>,
) -> Option<i64> {
    if text::trim(s).len() == 0 {
        None
    } else if iso is Some {
        iso
    } else {
        legacy
    }
}

/// The whole seconds of an optional instant.
pub open spec fn optional_seconds(instant: Option<i128>) -> Option<i64> {
    match instant {
        Some(nanos) => Some(time::whole_seconds(nanos as int) as i64),
        None => None,
    }
}

/// What an ISO 8601 text gives in a time zone.
pub open spec fn iso_reading(zone: jiff::tz::TimeZone, s: Seq<char>) -> Option<i64> {
    iso_choice(
        s,
        optional_seconds(time::parsed_instant(s)),
        local_second(zone, time::parsed_civil(s)),
    )
}

/// What a measurement text gives in a time zone.
pub open spec fn measurement_reading(zone: jiff::tz::TimeZone, s: Seq<char>) -> Option<i64> {
    let t = text::trim(s);
    measurement_choice(s, iso_reading(zone, t), local_second(zone, legacy_form(t)))
}

/// True where reading an ISO 8601 text in a time zone gives a result. A text of
/// more than two words is none of that form.
pub open spec fn iso_read(zone: jiff::tz::TimeZone, s: Seq<char>, r: Option<i64>) -> bool {
    &&& r == iso_reading(zone, s)
    &&& text::words(s).len() > 2 ==> time::parsed_instant(s) is None && time::parsed_civil(
        s,
    ) is None
    &&& time::parsed_civil(s) matches Some(dt) ==> sound_in(zone, dt)
}

/// True where reading a measurement text in a time zone gives a result.
pub open spec fn measurement_read(zone: jiff::tz::TimeZone, s: Seq<char>, r: Option<i64>) -> bool {
    let t = text::trim(s);
    &&& r == measurement_reading(zone, s)
    &&& iso_read(zone, t, iso_reading(zone, t))
    &&& legacy_form(t) matches Some(dt) ==> sound_in(zone, dt)
}

/// Looks up a month by its English abbreviation.
pub fn month_to_num(m: &str) -> (r: Option<i8>)
    ensures
        r == month_number(m@),
{
    if same_text(m, "Jan") {
        Some(1)
    } else if same_text(m, "Feb") {
        Some(2)
    } else if same_text(m, "Mar") {
        Some(3)
    } else if same_text(m, "Apr") {
        Some(4)
    } else if same_text(m, "May") {
        Some(5)
    } else if same_text(m, "Jun") {
        Some(6)
    } else if same_text(m, "Jul") {
        Some(7)
    } else if same_text(m, "Aug") {
        Some(8)
    } else if same_text(m, "Sep") {
        Some(9)
    } else if same_text(m, "Oct") {
        Some(10)
    } else if same_text(m, "Nov") {
        Some(11)
    } else if same_text(m, "Dec") {
        Some(12)
    } else {
        None
    }
}

fn parse_small(s: &str) -> (r: Option<i8>)
    ensures
        match r {
            Some(v) => small_integer(s@) == Some(v as int),
            None => small_integer(s@) is None,
        },
{
    match parse_between(s, -128, 127) {
        Some(v) => Some(v as i8),
        None => None,
    }
}

/// Reads the date and time of `Thu Apr 23 12:26:12 GMT 2026`.
pub fn parse_legacy(s: &str) -> (r: Option<CivilDateTime>)
    ensures
        r == legacy_form(s@),
{
    let parts = split_words(s);
    if parts.len() != 6 {
        return None;
    }
    let ghost p = text::words(s@);
    assert(forall|i: int| 0 <= i < 6 ==> #[trigger] p[i] == text::slices(parts@)[i]);
    let clock = split_pieces(parts[3], ':');
    let ghost c = text::pieces(p[3], ':');
    assert(c == text::slices(clock@));
    if clock.len() != 3 {
        return None;
    }
    assert(c[0] == clock@[0]@ && c[1] == clock@[1]@ && c[2] == clock@[2]@);
    match (
        month_to_num(parts[1]),
        parse_small(parts[2]),
        parse_small(clock[0]),
        parse_small(clock[1]),
        parse_small(clock[2]),
        parse_between(parts[5], -32768, 32767),
    ) {
        (Some(month), Some(day), Some(hour), Some(minute), Some(second), Some(year)) => {
            civil_datetime(
                CivilDateTime {
                    year: year as i16,
                    month,
                    day,
                    hour,
                    minute,
                    second,
                    nanosecond: 0,
                },
            )
        },
        _ => None,
    }
}

fn local_seconds(dt: Option<CivilDateTime>, zone: &jiff::tz::TimeZone) -> (r: Option<i64>)
    requires
        dt matches Some(d) ==> d.wf(),
    ensures
        r == local_second(*zone, dt),
        dt matches Some(d) ==> sound_in(*zone, d),
{
    match dt {
        Some(d) => match local_instant(d, zone) {
            Some(nanos) => {
                assert(time::in_range(nanos as int) && d.shown_at(nanos as int));
                Some(seconds(nanos))
            },
            None => None,
        },
        None => None,
    }
}

/// Picks between an instant and a local time for an ISO 8601 text.
pub fn choose_iso(s: &str, instant: Option<i64>, local: Option<i64>) -> (r: Option<i64>)
    ensures
        r == iso_choice(s@, instant, local),
{
    if !has_char(s, 'T') {
        None
    } else if instant.is_some() {
        instant
    } else {
        local
    }
}

/// Picks between the ISO 8601 and the legacy reading of a measurement text.
pub fn choose_measurement(s: &str, iso: Option<i64>, legacy: Option<i64>) -> (r: Option<i64>)
    ensures
        r == measurement_choice(s@, iso, legacy),
{
    if trimmed(s).is_empty() {
        None
    } else if iso.is_some() {
        iso
    } else {
        legacy
    }
}

/// Reads an ISO 8601 text with `Z`, with a numeric offset, or without either,
/// which is then a time on a clock in the time zone. Gives seconds since the
/// Unix epoch.
pub fn parse_iso_timestamp_in(s: &str, zone: &jiff::tz::TimeZone) -> (r: Option<i64>)
    ensures
        iso_read(*zone, s@, r),
{
    let instant = match parse_instant(s) {
        Some(nanos) => Some(seconds(nanos)),
        None => None,
    };
    let local = local_seconds(parse_civil(s), zone);
    choose_iso(s, instant, local)
}

/// Reads the portal's last-measurement text: ISO 8601, or
/// `Thu Apr 23 12:26:12 GMT 2026` with the time zone label ignored, which is
/// then a time on a clock in the time zone. Gives seconds since the Unix epoch.
pub fn parse_last_measurement_in(s: &str, zone: &jiff::tz::TimeZone) -> (r: Option<i64>)
    ensures
        measurement_read(*zone, s@, r),
{
    let t = trimmed(s);
    let iso = parse_iso_timestamp_in(t, zone);
    let legacy = local_seconds(parse_legacy(t), zone);
    choose_measurement(s, iso, legacy)
}

/// Reads an ISO 8601 text; one without an offset is a time on a clock of this
/// machine.
pub fn parse_iso_timestamp(s: &str) -> (r: Option<i64>)
    ensures
        exists|zone: jiff::tz::TimeZone| iso_read(zone, s@, r),
{
    let zone = local_zone();
    parse_iso_timestamp_in(s, &zone)
}

/// Reads the portal's last-measurement text; one without an offset is a time on
/// a clock of this machine.
pub fn parse_last_measurement(s: &str) -> (r: Option<i64>)
    ensures
        exists|zone: jiff::tz::TimeZone| measurement_read(zone, s@, r),
{
    let zone = local_zone();
    parse_last_measurement_in(s, &zone)
}

/// A blank text names no instant.
pub proof fn lemma_blank_measurement(zone: jiff::tz::TimeZone, s: Seq<char>)
    requires
        text::trim(s).len() == 0,
    ensures
        measurement_reading(zone, s) is None,
{
}

/// The weekday and the time zone label of the legacy form are not read: two
/// texts that differ in nothing else name the same civil time.
pub proof fn lemma_legacy_ignores_labels(a: Seq<char>, b: Seq<char>)
    requires
        text::words(a).len() == 6,
        text::words(b).len() == 6,
        text::words(a)[1] == text::words(b)[1],
        text::words(a)[2] == text::words(b)[2],
        text::words(a)[3] == text::words(b)[3],
        text::words(a)[5] == text::words(b)[5],
    ensures
        legacy_form(a) == legacy_form(b),
{
}

/// In one time zone the legacy form of a civil time, whatever its labels, and
/// its ISO 8601 form without an offset give the same second: one at which a
/// clock shows that time. There is one unless the time lies at the ends of the
/// calendar.
pub proof fn lemma_forms_agree(
    zone: jiff::tz::TimeZone,
    legacy: Seq<char>,
    iso: Seq<char>,
    dt: CivilDateTime,
    from_legacy: Option<i64>,
    from_iso: Option<i64>,
)
    requires
        legacy_form(text::trim(legacy)) == Some(dt),
        text::trim(iso).contains('T'),
        time::parsed_instant(text::trim(iso)) is None,
        time::parsed_civil(text::trim(iso)) == Some(dt),
        measurement_read(zone, legacy, from_legacy),
        measurement_read(zone, iso, from_iso),
    ensures
        from_legacy == from_iso,
        from_iso == local_second(zone, Some(dt)),
        dt.far_from_ends() ==> from_iso is Some,
        from_iso matches Some(second) ==> exists|nanos: int|
            time::in_range(nanos) && #[trigger] dt.shown_at(nanos) && second
                == time::whole_seconds(nanos),
{
    let (a, b) = (text::trim(legacy), text::trim(iso));
    assert(text::words(a).len() == 6);
    assert(a.len() > 0 && b.len() > 0);
    assert(legacy_form(b) is None);
}

/// White space at the ends of a text makes no difference.
pub proof fn lemma_ends_ignored(zone: jiff::tz::TimeZone, a: Seq<char>, b: Seq<char>)
    requires
        text::trim(a) == text::trim(b),
    ensures
        measurement_reading(zone, a) == measurement_reading(zone, b),
{
}

/// An ISO 8601 text that names an instant gives the seconds of that instant, in
/// every time zone.
pub proof fn lemma_instant_ignores_zone(zone: jiff::tz::TimeZone, s: Seq<char>, nanos: i128)
    requires
        text::trim(s).contains('T'),
        time::parsed_instant(text::trim(s)) == Some(nanos),
    ensures
        measurement_reading(zone, s) == Some(time::whole_seconds(nanos as int) as i64),
{
}

/// The months go by the three letters that they have in order, and by nothing
/// else.
pub proof fn lemma_months(m: Seq<char>, n: int)
    requires
        1 <= n <= 12,
    ensures
        (month_number(m) == Some(n as i8)) == (m == "JanFebMarAprMayJunJulAugSepOctNovDec"@.subrange(
            3 * n - 3,
            3 * n,
        )),
        month_number(m) matches Some(found) ==> 1 <= found <= 12,
{
    reveal_strlit("JanFebMarAprMayJunJulAugSepOctNovDec");
    reveal_strlit("Jan");
    reveal_strlit("Feb");
    reveal_strlit("Mar");
    reveal_strlit("Apr");
    reveal_strlit("May");
    reveal_strlit("Jun");
    reveal_strlit("Jul");
    reveal_strlit("Aug");
    reveal_strlit("Sep");
    reveal_strlit("Oct");
    reveal_strlit("Nov");
    reveal_strlit("Dec");
    let names = "JanFebMarAprMayJunJulAugSepOctNovDec"@;
    assert("Jan"@ =~= names.subrange(0, 3));
    assert("Feb"@ =~= names.subrange(3, 6));
    assert("Mar"@ =~= names.subrange(6, 9));
    assert("Apr"@ =~= names.subrange(9, 12));
    assert("May"@ =~= names.subrange(12, 15));
    assert("Jun"@ =~= names.subrange(15, 18));
    assert("Jul"@ =~= names.subrange(18, 21));
    assert("Aug"@ =~= names.subrange(21, 24));
    assert("Sep"@ =~= names.subrange(24, 27));
    assert("Oct"@ =~= names.subrange(27, 30));
    assert("Nov"@ =~= names.subrange(30, 33));
    assert("Dec"@ =~= names.subrange(33, 36));
    assert("Jan"@[0] == 'J' && "Jan"@[1] == 'a');
    assert("Feb"@[0] == 'F');
    assert("Mar"@[0] == 'M' && "Mar"@[2] == 'r');
    assert("Apr"@[0] == 'A' && "Apr"@[1] == 'p');
    assert("May"@[0] == 'M' && "May"@[2] == 'y');
    assert("Jun"@[0] == 'J' && "Jun"@[1] == 'u' && "Jun"@[2] == 'n');
    assert("Jul"@[0] == 'J' && "Jul"@[1] == 'u' && "Jul"@[2] == 'l');
    assert("Aug"@[0] == 'A' && "Aug"@[1] == 'u');
    assert("Sep"@[0] == 'S');
    assert("Oct"@[0] == 'O');
    assert("Nov"@[0] == 'N');
    assert("Dec"@[0] == 'D');
}

/// True of a text that can stand as a word: it is not empty and holds no white
/// space.
pub open spec fn is_word(s: Seq<char>) -> bool {
    s.len() > 0 && forall|i: int| 0 <= i < s.len() ==> !text::is_space(#[trigger] s[i])
}

/// A date and time of day as the portal writes them: the weekday, the month, the
/// day, the time of day, a label for the time zone, and the year, with a space
/// between any two.
pub open spec fn legacy_text(
    weekday: Seq<char>,
    month: Seq<char>,
    day: Seq<char>,
    hour: Seq<char>,
    minute: Seq<char>,
    second: Seq<char>,
    label: Seq<char>,
    year: Seq<char>,
) -> Seq<char> {
    weekday + seq![' '] + (month + seq![' '] + (day + seq![' '] + (hour + seq![':'] + (minute + seq![
        ':',
    ] + second) + seq![' '] + (label + seq![' '] + year))))
}

proof fn lemma_next_word(word: Seq<char>, rest: Seq<char>)
    requires
        is_word(word),
    ensures
        text::words(word + seq![' '] + rest) == seq![word] + text::words(rest),
{
    let none = Seq::<char>::empty();
    text::lemma_first_word(none, word, ' ', rest);
    assert(none + word + seq![' '] + rest =~= word + seq![' '] + rest);
}

proof fn lemma_digits_are_a_word(s: Seq<char>)
    requires
        text::is_number(s),
    ensures
        is_word(s),
        !s.contains(':'),
        text::integer_value(s) == Some(text::number_value(s) as int),
{
    assert forall|i: int| 0 <= i < s.len() implies !text::is_space(#[trigger] s[i]) by {
        assert(text::is_digit(s[i]));
    }
    if s.contains(':') {
        let i = choose|i: int| 0 <= i < s.len() && s[i] == ':';
        assert(text::is_digit(s[i]));
    }
    assert(text::is_digit(s[0]));
}

proof fn lemma_clock(hour: Seq<char>, minute: Seq<char>, second: Seq<char>)
    requires
        text::is_number(hour),
        text::is_number(minute),
        text::is_number(second),
    ensures
        ({
            let clock = hour + seq![':'] + (minute + seq![':'] + second);
            is_word(clock) && text::pieces(clock, ':') == seq![hour, minute, second]
        }),
{
    let clock = hour + seq![':'] + (minute + seq![':'] + second);
    lemma_digits_are_a_word(hour);
    lemma_digits_are_a_word(minute);
    lemma_digits_are_a_word(second);
    text::lemma_one_piece(hour, ':');
    text::lemma_one_piece(minute, ':');
    text::lemma_one_piece(second, ':');
    text::lemma_pieces_in_two(minute, ':', second);
    text::lemma_pieces_in_two(hour, ':', minute + seq![':'] + second);
    assert(seq![hour] + (seq![minute] + seq![second]) =~= seq![hour, minute, second]);
    let (h, m) = (hour.len() as int, minute.len() as int);
    assert forall|i: int| 0 <= i < clock.len() implies !text::is_space(#[trigger] clock[i]) by {
        if i < h {
            assert(clock[i] == hour[i]);
        } else if i == h {
            assert(clock[i] == ':');
        } else if i < h + 1 + m {
            assert(clock[i] == minute[i - h - 1]);
        } else if i == h + 1 + m {
            assert(clock[i] == ':');
        } else {
            assert(clock[i] == second[i - h - m - 2]);
        }
    }
}

/// What the portal writes of a date and time of day is what is read of it: the
/// day, the hour, the minute, the second and the year that their digits write,
/// and the month by its name, whatever the weekday and the label are. Only one
/// that the calendar or the clock lacks is not read.
pub proof fn lemma_written_time_read(
    weekday: Seq<char>,
    month: int,
    day: Seq<char>,
    hour: Seq<char>,
    minute: Seq<char>,
    second: Seq<char>,
    label: Seq<char>,
    year: Seq<char>,
)
    requires
        is_word(weekday),
        is_word(label),
        1 <= month <= 12,
        text::is_number(day),
        text::is_number(hour),
        text::is_number(minute),
        text::is_number(second),
        text::is_number(year),
    ensures
        ({
            let name = "JanFebMarAprMayJunJulAugSepOctNovDec"@.subrange(3 * month - 3, 3 * month);
            let s = legacy_text(weekday, name, day, hour, minute, second, label, year);
            let (y, d) = (text::number_value(year), text::number_value(day));
            let (h, m) = (text::number_value(hour), text::number_value(minute));
            let sec = text::number_value(second);
            if y <= 9999 && 1 <= d <= time::days_in_month(y as int, month) && h <= 23 && m <= 59 && sec
                <= 59 {
                legacy_form(s) == Some(
                    CivilDateTime {
                        year: y as i16,
                        month: month as i8,
                        day: d as i8,
                        hour: h as i8,
                        minute: m as i8,
                        second: sec as i8,
                        nanosecond: 0,
                    },
                )
            } else {
                legacy_form(s) is None
            }
        }),
{
    let names = "JanFebMarAprMayJunJulAugSepOctNovDec"@;
    let name = names.subrange(3 * month - 3, 3 * month);
    let clock = hour + seq![':'] + (minute + seq![':'] + second);
    let s = legacy_text(weekday, name, day, hour, minute, second, label, year);
    lemma_months(name, month);
    assert(is_word(name)) by {
        reveal_strlit("JanFebMarAprMayJunJulAugSepOctNovDec");
        assert forall|i: int| 0 <= i < name.len() implies !text::is_space(#[trigger] name[i]) by {
            assert(name[i] == names[3 * month - 3 + i]);
        }
    }
    lemma_digits_are_a_word(day);
    lemma_digits_are_a_word(hour);
    lemma_digits_are_a_word(minute);
    lemma_digits_are_a_word(second);
    lemma_digits_are_a_word(year);
    lemma_clock(hour, minute, second);
    let from_label = label + seq![' '] + year;
    let from_clock = clock + seq![' '] + from_label;
    let from_day = day + seq![' '] + from_clock;
    let from_month = name + seq![' '] + from_day;
    text::lemma_last_word(Seq::empty(), year);
    assert(Seq::<char>::empty() + year =~= year);
    lemma_next_word(label, year);
    lemma_next_word(clock, from_label);
    lemma_next_word(day, from_clock);
    lemma_next_word(name, from_day);
    lemma_next_word(weekday, from_month);
    assert(text::words(s) =~= seq![weekday, name, day, clock, label, year]);
}

/// A text that names an instant gives the whole seconds of that instant, in
/// every time zone, with white space round it or without.
pub proof fn lemma_instant_read(
    zone: jiff::tz::TimeZone,
    before: Seq<char>,
    s: Seq<char>,
    after: Seq<char>,
    seconds: nat,
    fraction: int,
)
    requires
        text::is_blank(before),
        text::is_blank(after),
        s.contains('T'),
        !text::is_space(s[0]),
        !text::is_space(s.last()),
        0 <= fraction < 1_000_000_000,
        seconds <= 253_402_207_200,
        time::parsed_instant(s) == Some((seconds * 1_000_000_000 + fraction) as i128),
    ensures
        measurement_reading(zone, before + s + after) == Some(seconds as i64),
{
    text::lemma_trimmed(before, s, after);
    time::lemma_fraction_dropped(seconds, fraction);
}

/// Only a text that names neither an instant nor a civil time, each with a `T`,
/// is read in the portal's own form, and it is read in no other.
pub proof fn lemma_own_form_read(zone: jiff::tz::TimeZone, s: Seq<char>)
    requires
        s.len() > 0,
        !text::is_space(s[0]),
        !text::is_space(s.last()),
        !s.contains('T') || (time::parsed_instant(s) is None && time::parsed_civil(s) is None),
    ensures
        measurement_reading(zone, s) == match legacy_form(s) {
            Some(dt) => match time::zoned_instant(zone, dt) {
                Some(nanos) => Some(time::whole_seconds(nanos as int) as i64),
                None => None,
            },
            None => None,
        },
{
    let none = Seq::<char>::empty();
    text::lemma_trimmed(none, s, none);
    assert(none + s + none =~= s);
}

/// A text in the portal's own form names a date and time of day exactly where it
/// has six words, the fourth of three parts between colons, and the month by its
/// name and the numbers of day, hour, minute, second and year stand in their
/// places.
pub proof fn lemma_own_form(s: Seq<char>, dt: CivilDateTime)
    ensures
        legacy_form(s) == Some(dt) <==> {
            let parts = text::words(s);
            let clock = text::pieces(parts[3], ':');
            &&& parts.len() == 6
            &&& clock.len() == 3
            &&& 1 <= dt.month <= 12
            &&& parts[1] == "JanFebMarAprMayJunJulAugSepOctNovDec"@.subrange(
                3 * dt.month - 3,
                3 * dt.month as int,
            )
            &&& text::integer_value(parts[2]) == Some(dt.day as int)
            &&& text::integer_value(clock[0]) == Some(dt.hour as int)
            &&& text::integer_value(clock[1]) == Some(dt.minute as int)
            &&& text::integer_value(clock[2]) == Some(dt.second as int)
            &&& text::integer_value(parts[5]) == Some(dt.year as int)
            &&& dt.nanosecond == 0
            &&& dt.wf()
        },
{
    let parts = text::words(s);
    if 1 <= dt.month <= 12 {
        lemma_months(parts[1], dt.month as int);
    }
}

/// An ISO 8601 text names an instant, or else a time on a clock in the time
/// zone, and nothing without a `T`.
pub proof fn lemma_iso(zone: jiff::tz::TimeZone, s: Seq<char>)
    ensures
        !s.contains('T') ==> iso_reading(zone, s) is None,
        s.contains('T') ==> (time::parsed_instant(s) matches Some(nanos) ==> iso_reading(zone, s)
            == Some(time::whole_seconds(nanos as int) as i64)),
        s.contains('T') && time::parsed_instant(s) is None ==> (
        time::parsed_civil(s) matches Some(dt) ==> iso_reading(zone, s) == match time::zoned_instant(
            zone,
            dt,
        ) {
            Some(nanos) => Some(time::whole_seconds(nanos as int) as i64),
            None => None,
        }),
        time::parsed_instant(s) is None && time::parsed_civil(s) is None ==> iso_reading(
            zone,
            s,
        ) is None,
{
}

} // verus!
