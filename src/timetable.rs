use vstd::prelude::*;

use chrono::{Datelike, NaiveDate};

verus! {

/// The shape of a school day.
#[derive(Clone, Debug, PartialEq, Eq, Structural)]
pub struct BasicInfo {
    /// Periods per day.
    pub total_lessons: u32,
    /// Length of a period, in minutes.
    pub lesson_duration: u32,
}

#[derive(Clone, Debug, PartialEq, Eq, Structural)]
pub struct Schedule {
    pub basic_info: BasicInfo,
}

impl Default for Schedule {
    fn default() -> (r: Schedule)
        ensures
            r.basic_info.total_lessons == 10,
            r.basic_info.lesson_duration == 45,
    {
        Schedule { basic_info: BasicInfo { total_lessons: 10, lesson_duration: 45 } }
    }
}

/// The school's fixed day: ten periods of 45 minutes.
pub fn get_school_schedule() -> (r: Schedule)
    ensures
        r.basic_info.total_lessons == 10,
        r.basic_info.lesson_duration == 45,
{
    Schedule::default()
}

/// Which of the two daily timetables applies.
#[derive(Clone, Copy, Debug, PartialEq, Eq, Structural)]
pub enum Season {
    Winter,
    Summer,
}

impl Season {
    /// The season's name as the service reports it.
    pub fn as_string(&self) -> (r: String)
        ensures
            r@ == season_name(*self),
    {
        match self {
            Season::Winter => String::from_str("winter"),
            Season::Summer => String::from_str("summer"),
        }
    }
}

pub open spec fn season_name(s: Season) -> Seq<char> {
    match s {
        Season::Winter => "winter"@,
        Season::Summer => "summer"@,
    }
}

/// The start and end times of the periods of a day.
#[derive(Clone, Debug, PartialEq, Eq)]
pub struct CourseTimeTable {
    pub times: Vec<(String, String)>,
}

pub open spec fn times_view(v: Seq<(String, String)>) -> Seq<(Seq<char>, Seq<char>)> {
    v.map_values(|p: (String, String)| (p.0@, p.1@))
}

pub open spec fn winter_times() -> Seq<(Seq<char>, Seq<char>)> {
    seq![
        ("08:00"@, "08:45"@),
        ("08:55"@, "09:40"@),
        ("10:00"@, "10:45"@),
        ("10:55"@, "11:40"@),
        ("14:00"@, "14:45"@),
        ("14:55"@, "15:40"@),
        ("16:00"@, "16:45"@),
        ("16:55"@, "17:40"@),
        ("19:00"@, "19:45"@),
        ("19:55"@, "20:40"@),
    ]
}

pub open spec fn summer_times() -> Seq<(Seq<char>, Seq<char>)> {
    seq![
        ("08:00"@, "08:45"@),
        ("08:55"@, "09:40"@),
        ("10:00"@, "10:45"@),
        ("10:55"@, "11:40"@),
        ("14:30"@, "15:15"@),
        ("15:25"@, "16:10"@),
        ("16:30"@, "17:15"@),
        ("17:25"@, "18:10"@),
        ("19:20"@, "20:05"@),
        ("20:15"@, "21:00"@),
    ]
}

pub open spec fn season_times(s: Season) -> Seq<(Seq<char>, Seq<char>)> {
    match s {
        Season::Winter => winter_times(),
        Season::Summer => summer_times(),
    }
}

fn period(start: &str, end: &str) -> (r: (String, String))
    ensures
        r.0@ == start@,
        r.1@ == end@,
{
    (String::from_str(start), String::from_str(end))
}

/// The winter timetable, from October to May.
pub fn get_winter_course_time_table() -> (r: CourseTimeTable)
    ensures
        times_view(r.times@) == winter_times(),
{
    let mut times: Vec<(String, String)> = Vec::new();
    times.push(period("08:00", "08:45"));
    times.push(period("08:55", "09:40"));
    times.push(period("10:00", "10:45"));
    times.push(period("10:55", "11:40"));
    times.push(period("14:00", "14:45"));
    times.push(period("14:55", "15:40"));
    times.push(period("16:00", "16:45"));
    times.push(period("16:55", "17:40"));
    times.push(period("19:00", "19:45"));
    times.push(period("19:55", "20:40"));
    assert(times_view(times@) =~= winter_times());
    CourseTimeTable { times }
}

/// The summer timetable, from June to September.
pub fn get_summer_course_time_table() -> (r: CourseTimeTable)
    ensures
        times_view(r.times@) == summer_times(),
{
    let mut times: Vec<(String, String)> = Vec::new();
    times.push(period("08:00", "08:45"));
    times.push(period("08:55", "09:40"));
    times.push(period("10:00", "10:45"));
    times.push(period("10:55", "11:40"));
    times.push(period("14:30", "15:15"));
    times.push(period("15:25", "16:10"));
    times.push(period("16:30", "17:15"));
    times.push(period("17:25", "18:10"));
    times.push(period("19:20", "20:05"));
    times.push(period("20:15", "21:00"));
    assert(times_view(times@) =~= summer_times());
    CourseTimeTable { times }
}

/// The timetable of a season.
pub fn timetable_for(season: Season) -> (r: CourseTimeTable)
    ensures
        times_view(r.times@) == season_times(season),
{
    match season {
        Season::Winter => get_winter_course_time_table(),
        Season::Summer => get_summer_course_time_table(),
    }
}

/// A calendar date.
#[derive(Clone, Copy, Debug, PartialEq, Eq, Structural)]
pub struct CalendarDate {
    pub year: i32,
    pub month: u32,
    pub day: u32,
}

/// The date that a text in the form `YYYY-MM-DD` denotes, as year, month
/// and day, or `None` where it denotes none.
pub uninterp spec fn ymd_of(s: Seq<char>) -> Option<(int, int, int)>;

/// Relies on `chrono::NaiveDate::parse_from_str` with `%Y-%m-%d`, and on
/// `Datelike`: a parsed date has a month from 1 to 12 and a day from 1 to 31.
#[verifier::external_body]
fn parse_ymd(s: &str) -> (r: Option<CalendarDate>)
    ensures
        match r {
            Some(d) => {
                &&& ymd_of(s@) == Some((d.year as int, d.month as int, d.day as int))
                &&& 1 <= d.month <= 12
                &&& 1 <= d.day <= 31
            },
            None => ymd_of(s@) is None,
        },
{
    match NaiveDate::parse_from_str(s, "%Y-%m-%d") {
        Ok(d) => Some(CalendarDate { year: d.year(), month: d.month(), day: d.day() }),
        Err(_) => None,
    }
}

/// Summer runs from June 1 to September 30, both included.
pub open spec fn is_summer_day(month: int, day: int) -> bool {
    (month == 6 && day >= 1) || (7 <= month <= 9)
}

/// The season of a month and day.
pub fn season_of(month: u32, day: u32) -> (r: Season)
    ensures
        r == (if is_summer_day(month as int, day as int) {
            Season::Summer
        } else {
            Season::Winter
        }),
{
    if (month == 6 && day >= 1) || (month >= 7 && month <= 9) {
        Season::Summer
    } else {
        Season::Winter
    }
}

/// The season of a date text, or `None` where the text is no date.
pub open spec fn season_of_text(s: Seq<char>) -> Option<Season> {
    match ymd_of(s) {
        Some(d) => Some(
            if is_summer_day(d.1, d.2) {
                Season::Summer
            } else {
                Season::Winter
            },
        ),
        None => None,
    }
}

/// The season of a date text, `None` where it is no date.
pub fn season_for(date: &str) -> (r: Option<Season>)
    ensures
        r == season_of_text(date@),
{
    match parse_ymd(date) {
        Some(d) => Some(season_of(d.month, d.day)),
        None => None,
    }
}

/// Whether the summer timetable applies on a date; a text that is no date
/// counts as winter.
pub fn is_summer_schedule(date: &str) -> (r: bool)
    ensures
        r == (season_of_text(date@) == Some(Season::Summer)),
{
    match season_for(date) {
        Some(Season::Summer) => true,
        _ => false,
    }
}

/// The timetable for a date: summer's from June to September, winter's
/// otherwise, and winter's where the text is no date.
pub fn get_course_time_table(date: &str) -> (r: CourseTimeTable)
    ensures
        times_view(r.times@) == (if season_of_text(date@) == Some(Season::Summer) {
            summer_times()
        } else {
            winter_times()
        }),
{
    if is_summer_schedule(date) {
        get_summer_course_time_table()
    } else {
        get_winter_course_time_table()
    }
}

} // verus!
