//! Fleet: the table of the Satellites in a Constellation.

use vstd::prelude::*;

use crate::beacon::Beacon;
use crate::console;
use crate::console::Line;
use crate::path::FsPath;
use crate::satellite::SatelliteEntry;
use crate::text;

verus! {

/// Which Constellation is to be listed.
pub struct FleetConfig {
    /// The ticket to the Constellation.
    pub beacon: Beacon,
    /// The directory with the identity of the node.
    pub data_dir: FsPath,
}

/// How a time is written in the table.
pub const TIME_FORMAT: &'static str = "%Y-%m-%d %H:%M:%S";

/// The first second, counted from 1970, of the year 10000.
pub const YEAR_10000: u64 = 253_402_300_800;

/// A day of the Gregorian calendar. Months and days count from 1.
pub struct Date {
    pub year: int,
    pub month: int,
    pub day: int,
}

/// Whether a year has a leap day.
pub open spec fn is_leap_year(year: int) -> bool {
    year % 4 == 0 && (year % 100 != 0 || year % 400 == 0)
}

/// How many days a month has.
pub open spec fn days_in_month(year: int, month: int) -> int {
    if month == 2 {
        if is_leap_year(year) {
            29
        } else {
            28
        }
    } else if month == 4 || month == 6 || month == 9 || month == 11 {
        30
    } else {
        31
    }
}

/// The day after `date`.
pub open spec fn next_day(date: Date) -> Date {
    if date.day < days_in_month(date.year, date.month) {
        Date { day: date.day + 1, ..date }
    } else if date.month < 12 {
        Date { month: date.month + 1, day: 1, ..date }
    } else {
        Date { year: date.year + 1, month: 1, day: 1 }
    }
}

/// The day that is `n` days after the first of January 1970.
pub open spec fn date_after(n: nat) -> Date
    decreases n,
{
    if n == 0 {
        Date { year: 1970, month: 1, day: 1 }
    } else {
        next_day(date_after((n - 1) as nat))
    }
}

/// `n`, which is less than 100, in two decimal digits.
pub open spec fn two_digits(n: int) -> Seq<char> {
    seq![text::digit((n / 10) as nat), text::digit((n % 10) as nat)]
}

/// The date and the time of day that are `secs` seconds after the beginning of 1970 in UTC, for
/// years of four digits, as in `1970-01-01 00:00:00`.
pub open spec fn civil_text(secs: int) -> Seq<char> {
    let date = date_after((secs / 86_400) as nat);
    let time = secs % 86_400;
    two_digits(date.year / 100) + two_digits(date.year % 100) + "-"@ + two_digits(date.month)
        + "-"@ + two_digits(date.day) + " "@ + two_digits(time / 3_600) + ":"@ + two_digits(
        time / 60 % 60,
    ) + ":"@ + two_digits(time % 60)
}

/// How `chrono::DateTime::format` writes the time that is `secs` seconds after 1970, in UTC, in
/// the given format; `None` where `chrono::DateTime::from_timestamp` does not take `secs`.
pub uninterp spec fn utc_text(secs: i64, format: Seq<char>) -> Option<Seq<char>>;

/// Calls `chrono::DateTime::from_timestamp`, and `chrono::DateTime::format` on what it returns.
/// Claimed: the result depends on the arguments alone, and from 1970 up to the year 9999 it is
/// the date and the time of day of the Gregorian calendar, in the form `1970-01-01 00:00:00`.
/// How other times are written is left unsaid.
#[verifier::external_body]
fn format_utc(secs: i64, format: &str) -> (res: Option<String>)
    requires
        format@ == TIME_FORMAT@,
    ensures
        match res {
            Some(time) => utc_text(secs, format@) == Some(time@),
            None => utc_text(secs, format@) is None,
        },
        res matches Some(time) ==> (0 <= secs && secs < YEAR_10000 ==> time@ == civil_text(
            secs as int,
        )),
        res is None ==> secs < 0 || secs >= YEAR_10000,
{
    match chrono::DateTime::from_timestamp(secs, 0) {
        Some(time) => Some(time.format(format).to_string()),
        None => None,
    }
}

/// How a time is written in the table: as a date and a time of day in UTC, or as the number of
/// seconds after 1970 where there is no such date. From the year 10000 on the date is what
/// `chrono` makes of it.
pub open spec fn timestamp_text(ts: u64) -> Seq<char> {
    if ts < YEAR_10000 {
        civil_text(ts as int)
    } else if ts > i64::MAX {
        text::decimal(ts as nat)
    } else {
        match utc_text(ts as i64, TIME_FORMAT@) {
            Some(time) => time,
            None => text::decimal(ts as nat),
        }
    }
}

/// How many days of a year, leap days included, come before a month.
pub open spec fn days_before_month(year: int, month: int) -> int
    decreases month,
{
    if month <= 1 {
        0
    } else {
        days_before_month(year, month - 1) + days_in_month(year, month - 1)
    }
}

/// How many days there are from the first of January 1970 to `date`: those of the whole years,
/// with a leap day every fourth year but for three in four hundred years, those of the whole
/// months, and those before `date` in its month.
pub open spec fn days_since_1970(date: Date) -> int {
    let past = date.year - 1;
    365 * (date.year - 1970) + (past / 4 - past / 100 + past / 400 - 477) + days_before_month(
        date.year,
        date.month,
    ) + date.day - 1
}

/// Whether there is such a day, in 1970 or later.
pub open spec fn is_date(date: Date) -> bool {
    &&& date.year >= 1970
    &&& 1 <= date.month <= 12
    &&& 1 <= date.day <= days_in_month(date.year, date.month)
}

/// The day that is `n` days after the beginning of 1970 exists, and has `n` days before it.
pub proof fn dates_count_days(n: nat)
    ensures
        is_date(date_after(n)),
        days_since_1970(date_after(n)) == n,
    decreases n,
{
    if n == 0 {
        assert(days_before_month(1970, 1) == 0);
    } else {
        let before = date_after((n - 1) as nat);
        dates_count_days((n - 1) as nat);
        reveal_with_fuel(days_before_month, 13);
    }
}

/// Every day from 1970 on is the day that comes so many days after the beginning of 1970.
pub proof fn every_date_is_reached(date: Date)
    requires
        is_date(date),
    ensures
        days_since_1970(date) >= 0,
        date_after(days_since_1970(date) as nat) == date,
    decreases date.year, date.month, date.day,
{
    reveal_with_fuel(days_before_month, 13);
    let first = Date { year: 1970, month: 1, day: 1 };
    if date != first {
        let before = if date.day > 1 {
            Date { day: date.day - 1, ..date }
        } else if date.month > 1 {
            Date {
                month: date.month - 1,
                day: days_in_month(date.year, date.month - 1),
                ..date
            }
        } else {
            Date { year: date.year - 1, month: 12, day: 31 }
        };
        every_date_is_reached(before);
        assert(next_day(before) == date);
        assert(days_since_1970(before) + 1 == days_since_1970(date));
    }
}

/// Before the year 10000 the year has four digits, and a time is written in nineteen
/// characters.
pub proof fn four_digit_years_take_nineteen_characters(secs: int)
    requires
        0 <= secs < YEAR_10000,
    ensures
        1970 <= date_after((secs / 86_400) as nat).year <= 9999,
        civil_text(secs).len() == 19,
{
    let date = date_after((secs / 86_400) as nat);
    dates_count_days((secs / 86_400) as nat);
    reveal_with_fuel(days_before_month, 13);
    assert(days_before_month(date.year, date.month) >= 0);
    reveal_strlit("-");
    reveal_strlit(" ");
    reveal_strlit(":");
}

/// `formatted`, or the number `ts` where there is no such text.
pub fn time_or_number(formatted: Option<String>, ts: u64) -> (time: String)
    ensures
        time@ == match formatted {
            Some(text) => text@,
            None => text::decimal(ts as nat),
        },
{
    match formatted {
        Some(text) => text,
        None => text::decimal_text(ts),
    }
}

/// How the time that is `ts` seconds after 1970 is written in the table.
pub fn format_timestamp(ts: u64) -> (time: String)
    ensures
        time@ == timestamp_text(ts),
{
    let formatted: Option<String> = if ts <= i64::MAX as u64 {
        format_utc(ts as i64, TIME_FORMAT)
    } else {
        None
    };
    time_or_number(formatted, ts)
}

/// A row of the table: three columns, filled up to their widths, and a fourth.
pub open spec fn row_text(
    node_id: Seq<char>,
    arch: Seq<char>,
    status: Seq<char>,
    time: Seq<char>,
) -> Seq<char> {
    text::padded(node_id, 52) + " "@ + text::padded(arch, 8) + " "@ + text::padded(status, 10)
        + " "@ + time
}

/// The row about a Satellite.
pub open spec fn satellite_row(node_id: Seq<char>, entry: SatelliteEntry) -> Seq<char> {
    row_text(node_id, entry.arch@, entry.status@, timestamp_text(entry.registered_at))
}

/// What the table says.
pub open spec fn table_text(satellites: Seq<(String, SatelliteEntry)>) -> Seq<console::LineView> {
    if satellites.len() == 0 {
        seq![console::out("No satellites found in the Constellation."@)]
    } else {
        seq![console::out(row_text("NODE ID"@, "ARCH"@, "STATUS"@, "REGISTERED"@))]
            + satellites.map_values(
            |s: (String, SatelliteEntry)| console::out(satellite_row(s.0@, s.1)),
        )
    }
}

/// A row of the table.
pub fn format_row(node_id: &str, arch: &str, status: &str, time: &str) -> (row: String)
    ensures
        row@ == row_text(node_id@, arch@, status@, time@),
{
    text::pad(node_id, 52).concat(" ").concat(text::pad(arch, 8).as_str()).concat(" ").concat(
        text::pad(status, 10).as_str(),
    ).concat(" ").concat(time)
}

/// The row about a Satellite.
pub fn format_satellite_row(node_id: &str, entry: &SatelliteEntry) -> (row: String)
    ensures
        row@ == satellite_row(node_id@, *entry),
{
    let time: String = format_timestamp(entry.registered_at);
    format_row(node_id, entry.arch.as_str(), entry.status.as_str(), time.as_str())
}

/// The table of the Satellites, or a message that there are none.
pub fn print_fleet_table(satellites: &[(String, SatelliteEntry)]) -> (lines: Vec<Line>)
    ensures
        console::printed(lines@) == table_text(satellites@),
        satellites@.len() > 0 ==> lines@.len() == satellites@.len() + 1,
        satellites@.len() == 0 ==> lines@.len() == 1,
{
    proof {
        table_lists_every_satellite(satellites@);
    }
    if satellites.len() == 0 {
        let lines: Vec<Line> = vec![
            Line::Stdout("No satellites found in the Constellation.".to_owned()),
        ];
        assert(console::printed(lines@) =~= table_text(satellites@));
        return lines;
    }
    let mut lines: Vec<Line> = vec![
        Line::Stdout(format_row("NODE ID", "ARCH", "STATUS", "REGISTERED")),
    ];
    let mut i: usize = 0;
    while i < satellites.len()
        invariant
            i <= satellites@.len(),
            lines@.len() == i + 1,
            lines@[0]@ == console::out(row_text("NODE ID"@, "ARCH"@, "STATUS"@, "REGISTERED"@)),
            forall|j: int|
                0 <= j < i ==> (#[trigger] lines@[j + 1])@ == console::out(
                    satellite_row(satellites@[j].0@, satellites@[j].1),
                ),
        decreases satellites@.len() - i,
    {
        lines.push(
            Line::Stdout(format_satellite_row(satellites[i].0.as_str(), &satellites[i].1)),
        );
        i = i + 1;
    }
    proof {
        let want = table_text(satellites@);
        assert(console::printed(lines@).len() == want.len());
        assert forall|k: int| 0 <= k < want.len() implies console::printed(lines@)[k]
            == want[k] by {
            if k > 0 {
                assert(lines@[(k - 1) + 1]@ == want[k]);
            }
        }
        assert(console::printed(lines@) =~= want);
    }
    lines
}

/// The table has one line for each Satellite, in order, under a line with the names of the
/// columns; only where there is no Satellite there is a message in its place. All of it goes to
/// the standard output.
pub proof fn table_lists_every_satellite(satellites: Seq<(String, SatelliteEntry)>)
    ensures
        satellites.len() > 0 ==> {
            &&& table_text(satellites).len() == satellites.len() + 1
            &&& table_text(satellites)[0] == console::out(
                row_text("NODE ID"@, "ARCH"@, "STATUS"@, "REGISTERED"@),
            )
            &&& forall|i: int|
                0 <= i < satellites.len() ==> table_text(satellites)[i + 1] == console::out(
                    row_text(
                        (#[trigger] satellites[i]).0@,
                        satellites[i].1.arch@,
                        satellites[i].1.status@,
                        timestamp_text(satellites[i].1.registered_at),
                    ),
                )
        },
        satellites.len() == 0 ==> {
            &&& table_text(satellites).len() == 1
            &&& table_text(satellites)[0] == console::out(
                "No satellites found in the Constellation."@,
            )
        },
        table_text(satellites).len() == 1 <==> satellites.len() == 0,
{
}

/// A row holds its four texts one behind the other, the first three each filled up with blanks to
/// the width of its column, and a blank between each two of them. Where the texts fit, the columns
/// begin at the same place in every row.
pub proof fn rows_have_four_columns(
    node_id: Seq<char>,
    arch: Seq<char>,
    status: Seq<char>,
    time: Seq<char>,
)
    ensures
        row_text(node_id, arch, status, time) == text::padded(node_id, 52).push(' ')
            + text::padded(arch, 8).push(' ') + text::padded(status, 10).push(' ') + time,
        node_id.len() <= 52 && arch.len() <= 8 && status.len() <= 10 ==> {
            let row = row_text(node_id, arch, status, time);
            &&& row.len() == 73 + time.len()
            &&& row.subrange(0, node_id.len() as int) == node_id
            &&& row.subrange(53, 53int + arch.len()) == arch
            &&& row.subrange(62, 62int + status.len()) == status
            &&& row.subrange(73, 73int + time.len()) == time
            &&& row[52] == ' ' && row[61] == ' ' && row[72] == ' '
        },
{
    let row = row_text(node_id, arch, status, time);
    reveal_strlit(" ");
    assert(row =~= text::padded(node_id, 52).push(' ') + text::padded(arch, 8).push(' ')
        + text::padded(status, 10).push(' ') + time);
    if node_id.len() <= 52 && arch.len() <= 8 && status.len() <= 10 {
        assert(row.len() == 73 + time.len());
        assert(row.subrange(0, node_id.len() as int) =~= node_id);
        assert(row.subrange(53, 53int + arch.len()) =~= arch);
        assert(row.subrange(62, 62int + status.len()) =~= status);
        assert(row.subrange(73, 73int + time.len()) =~= time);
    }
}

/// A time before the year 10000 is written as a date and a time of day; one that is beyond what a
/// signed number of seconds can hold is written as the number.
pub proof fn times_are_dates_or_numbers(ts: u64)
    ensures
        ts < 253_402_300_800 ==> timestamp_text(ts) == civil_text(ts as int),
        ts > 9_223_372_036_854_775_807 ==> timestamp_text(ts) == text::decimal(ts as nat),
        253_402_300_800 <= ts <= 9_223_372_036_854_775_807 ==> timestamp_text(ts) == match utc_text(
            ts as i64,
            TIME_FORMAT@,
        ) {
            Some(time) => time,
            None => text::decimal(ts as nat),
        },
{
}

/// Two decimal digits write a number below 100.
proof fn lemma_two_digits(n: int)
    requires
        0 <= n < 100,
    ensures
        two_digits(n).len() == 2,
        10 * (two_digits(n)[0] as int - '0' as int) + (two_digits(n)[1] as int - '0' as int) == n,
        '0' <= two_digits(n)[0] <= '9',
        '0' <= two_digits(n)[1] <= '9',
{
}

/// The number that the two characters from the place `i` on write.
pub open spec fn pair_at(text: Seq<char>, i: int) -> int {
    10 * (text[i] as int - '0' as int) + (text[i + 1] as int - '0' as int)
}

/// Before the year 10000 a time is written as year, month, day, hour, minute and second, each at
/// its place: the day is the one that so many whole days after the beginning of 1970 is, and the
/// rest makes up the time of day.
pub proof fn times_are_written_field_by_field(secs: int)
    requires
        0 <= secs < 253_402_300_800,
    ensures
        ({
            let time = civil_text(secs);
            let date = date_after((secs / 86_400) as nat);
            &&& time.len() == 19
            &&& 100 * pair_at(time, 0) + pair_at(time, 2) == date.year
            &&& pair_at(time, 5) == date.month && pair_at(time, 8) == date.day
            &&& 0 <= pair_at(time, 11) < 24 && 0 <= pair_at(time, 14) < 60 && 0 <= pair_at(
                time,
                17,
            ) < 60
            &&& 86_400 * days_since_1970(date) + 3_600 * pair_at(time, 11) + 60 * pair_at(time, 14)
                + pair_at(time, 17) == secs
            &&& time[4] == '-' && time[7] == '-' && time[10] == ' ' && time[13] == ':' && time[16]
                == ':'
        }),
{
    let date = date_after((secs / 86_400) as nat);
    let rest = secs % 86_400;
    dates_count_days((secs / 86_400) as nat);
    four_digit_years_take_nineteen_characters(secs);
    reveal_strlit("-");
    reveal_strlit(" ");
    reveal_strlit(":");
    lemma_two_digits(date.year / 100);
    lemma_two_digits(date.year % 100);
    lemma_two_digits(date.month);
    lemma_two_digits(date.day);
    lemma_two_digits(rest / 3_600);
    lemma_two_digits(rest / 60 % 60);
    lemma_two_digits(rest % 60);
    let time = civil_text(secs);
    assert(time[0] == two_digits(date.year / 100)[0] && time[1] == two_digits(date.year / 100)[1]);
    assert(time[2] == two_digits(date.year % 100)[0] && time[3] == two_digits(date.year % 100)[1]);
    assert(time[5] == two_digits(date.month)[0] && time[6] == two_digits(date.month)[1]);
    assert(time[8] == two_digits(date.day)[0] && time[9] == two_digits(date.day)[1]);
    assert(time[11] == two_digits(rest / 3_600)[0] && time[12] == two_digits(rest / 3_600)[1]);
    assert(time[14] == two_digits(rest / 60 % 60)[0] && time[15] == two_digits(rest / 60 % 60)[1]);
    assert(time[17] == two_digits(rest % 60)[0] && time[18] == two_digits(rest % 60)[1]);
    assert(rest == 3_600 * (rest / 3_600) + 60 * (rest / 60 % 60) + rest % 60);
}

/// How many days the months have, and which years have a leap day.
pub proof fn months_have_their_days(year: int, month: int)
    requires
        1 <= month <= 12,
    ensures
        is_leap_year(year) <==> year % 400 == 0 || (year % 4 == 0 && year % 100 != 0),
        days_in_month(year, month) == seq![
            31int,
            if is_leap_year(year) {
                29int
            } else {
                28
            },
            31,
            30,
            31,
            30,
            31,
            31,
            30,
            31,
            30,
            31,
        ][month - 1],
{
}

} // verus!
