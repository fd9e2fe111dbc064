use vstd::prelude::*;

use std::collections::HashMap;

use crate::auth::UserInfo;
use crate::schedule::{DayCourse, SchoolYear, WeekInfo};
use crate::timetable::{
    season_name, season_of_text, season_times, times_view, timetable_for, season_for, Season,
};

verus! {

/// The envelope of every answer of the service.
pub struct ApiResponse<T> {
    pub code: u16,
    /// `success` or `error`.
    pub status: String,
    pub data: T,
    pub message: String,
}

impl<T> ApiResponse<T> {
    pub fn success(code: u16, data: T, message: String) -> (r: ApiResponse<T>)
        ensures
            r.code == code,
            r.status@ == "success"@,
            r.data == data,
            r.message == message,
    {
        ApiResponse { code, status: String::from_str("success"), data, message }
    }

    pub fn error(code: u16, data: T, message: String) -> (r: ApiResponse<T>)
        ensures
            r.code == code,
            r.status@ == "error"@,
            r.data == data,
            r.message == message,
    {
        ApiResponse { code, status: String::from_str("error"), data, message }
    }
}

/// A request for a user's schedule.
#[derive(Clone, Debug)]
pub struct ScheduleRequest {
    pub ucode: String,
    /// Fetch the weeks concurrently; yes where unset.
    pub parallel: Option<bool>,
    /// Answer from the cache where it holds the user; yes where unset.
    pub use_cache: Option<bool>,
}

impl ScheduleRequest {
    pub fn wants_parallel(&self) -> (r: bool)
        ensures
            r == (match self.parallel {
                Some(b) => b,
                None => true,
            }),
    {
        match self.parallel {
            Some(b) => b,
            None => true,
        }
    }

    pub fn wants_cache(&self) -> (r: bool)
        ensures
            r == (match self.use_cache {
                Some(b) => b,
                None => true,
            }),
    {
        match self.use_cache {
            Some(b) => b,
            None => true,
        }
    }
}

/// A user's schedule: the weeks by number, the timetable of the day and its season.
#[derive(Clone, Debug)]
pub struct ScheduleResponse {
    pub weeks: HashMap<u32, Vec<DayCourse>>,
    pub time_table: Vec<(String, String)>,
    /// `winter` or `summer`.
    pub season: String,
}

/// The season whose timetable a day uses: a text that is no date counts as winter.
pub open spec fn season_of_day(today: Seq<char>) -> Season {
    match season_of_text(today) {
        Some(s) => s,
        None => Season::Winter,
    }
}

fn season_or_winter(today: &str) -> (r: Season)
    ensures
        r == season_of_day(today@),
{
    match season_for(today) {
        Some(s) => s,
        None => Season::Winter,
    }
}

/// Attaches to the weeks the timetable and season of `today`.
pub fn build_schedule_response(weeks: HashMap<u32, Vec<DayCourse>>, today: &str) -> (r:
    ScheduleResponse)
    ensures
        r.weeks == weeks,
        times_view(r.time_table@) == season_times(season_of_day(today@)),
        r.season@ == season_name(season_of_day(today@)),
{
    let season = season_or_winter(today);
    let table = timetable_for(season);
    ScheduleResponse { weeks, time_table: table.times, season: season.as_string() }
}

/// The timetable of a date and its season.
#[derive(Clone, Debug)]
pub struct TimeTableResponse {
    pub time_table: Vec<(String, String)>,
    /// `winter` or `summer`.
    pub season: String,
}

/// The season of a date.
#[derive(Clone, Debug)]
pub struct SeasonResponse {
    /// `winter` or `summer`.
    pub season: String,
}

/// The season and timetable of a date in the form `YYYY-MM-DD`; `None`
/// where the text is no date.
pub fn season_and_timetable(date: &str) -> (r: Option<TimeTableResponse>)
    ensures
        match season_of_text(date@) {
            Some(s) => r is Some && times_view(r->0.time_table@) == season_times(s)
                && r->0.season@ == season_name(s),
            None => r is None,
        },
{
    match season_for(date) {
        Some(s) => {
            let table = timetable_for(s);
            Some(TimeTableResponse { time_table: table.times, season: s.as_string() })
        },
        None => None,
    }
}

/// The season of a date in the form `YYYY-MM-DD`; `None` where the text is no date.
pub fn season_response(date: &str) -> (r: Option<SeasonResponse>)
    ensures
        match season_of_text(date@) {
            Some(s) => r is Some && r->0.season@ == season_name(s),
            None => r is None,
        },
{
    match season_for(date) {
        Some(s) => Some(SeasonResponse { season: s.as_string() }),
        None => None,
    }
}

/// The terms on record and the weeks of the current one.
#[derive(Clone, Debug)]
pub struct ScheduleMeta {
    pub years: Vec<SchoolYear>,
    pub weeks: Vec<WeekInfo>,
}

/// Usage counters.
#[derive(Clone, Copy, Debug, PartialEq, Eq, Structural)]
pub struct StatsResponse {
    pub total_requests: i32,
    pub unique_users: i32,
    /// Milliseconds since the Unix epoch.
    pub last_updated_at: i64,
}

/// The code of the user that tests run for.
#[derive(Clone, Debug)]
pub struct CourseData {
    pub ucode: String,
}

#[derive(Clone, Copy, Debug, PartialEq, Eq, Structural)]
pub struct PingData {
    pub pong: bool,
}

pub struct ScheduleApiResponse {
    pub code: u16,
    pub status: String,
    pub data: ScheduleResponse,
    pub message: String,
}

pub struct UserInfoApiResponse {
    pub code: u16,
    pub status: String,
    pub data: UserInfo,
    pub message: String,
}

pub struct ScheduleMetaApiResponse {
    pub code: u16,
    pub status: String,
    pub data: ScheduleMeta,
    pub message: String,
}

pub struct PingApiResponse {
    pub code: u16,
    pub status: String,
    pub data: PingData,
    pub message: String,
}

pub struct StatsApiResponse {
    pub code: u16,
    pub status: String,
    pub data: StatsResponse,
    pub message: String,
}

pub struct SeasonApiResponse {
    pub code: u16,
    pub status: String,
    pub data: SeasonResponse,
    pub message: String,
}

pub struct TimeTableApiResponse {
    pub code: u16,
    pub status: String,
    pub data: TimeTableResponse,
    pub message: String,
}

/// Why a schedule or metadata request could not be answered; each carries
/// the upstream detail where there is one.
#[derive(Clone, Debug, PartialEq, Eq)]
pub enum ScheduleFailure {
    CreateClient(String),
    UserInfo(String),
    SchoolYear(String),
    NoCurrentSemester,
    Semester(String),
    AllCourses(String),
}

pub open spec fn failure_status(f: ScheduleFailure) -> u16 {
    match f {
        ScheduleFailure::NoCurrentSemester => 404,
        _ => 500,
    }
}

pub open spec fn failure_message(f: ScheduleFailure) -> Seq<char> {
    match f {
        ScheduleFailure::CreateClient(d) => "Create client failed: "@ + d@,
        ScheduleFailure::UserInfo(d) => "Get user info failed: "@ + d@,
        ScheduleFailure::SchoolYear(d) => "Get school year failed: "@ + d@,
        ScheduleFailure::NoCurrentSemester => "No current semester found"@,
        ScheduleFailure::Semester(d) => "Get semester failed: "@ + d@,
        ScheduleFailure::AllCourses(d) => "Get all courses failed: "@ + d@,
    }
}

impl ScheduleFailure {
    /// The HTTP status of the failure: 404 where the user has no current
    /// term, 500 where a step upstream failed.
    pub fn status(&self) -> (r: u16)
        ensures
            r == failure_status(*self),
    {
        match self {
            ScheduleFailure::NoCurrentSemester => 404,
            _ => 500,
        }
    }

    /// The message of the failure: which step failed, and its detail.
    pub fn message(&self) -> (r: String)
        ensures
            r@ == failure_message(*self),
    {
        match self {
            ScheduleFailure::CreateClient(d) => String::from_str("Create client failed: ").concat(d.as_str()),
            ScheduleFailure::UserInfo(d) => String::from_str("Get user info failed: ").concat(d.as_str()),
            ScheduleFailure::SchoolYear(d) => String::from_str("Get school year failed: ").concat(d.as_str()),
            ScheduleFailure::NoCurrentSemester => String::from_str("No current semester found"),
            ScheduleFailure::Semester(d) => String::from_str("Get semester failed: ").concat(d.as_str()),
            ScheduleFailure::AllCourses(d) => String::from_str("Get all courses failed: ").concat(d.as_str()),
        }
    }

    /// The error envelope of the failure.
    pub fn to_response<T>(&self, data: T) -> (r: ApiResponse<T>)
        ensures
            r.code == failure_status(*self),
            r.status@ == "error"@,
            r.message@ == failure_message(*self),
            r.data == data,
    {
        ApiResponse::error(self.status(), data, self.message())
    }
}

/// The counters after one more request; a first visit also counts one
/// more user. A counter at its largest value stays there.
pub fn count_request(stats: StatsResponse, is_new_user: bool, now_ms: i64) -> (r: StatsResponse)
    ensures
        r.total_requests == (if stats.total_requests < i32::MAX {
            stats.total_requests + 1
        } else {
            stats.total_requests as int
        }),
        r.unique_users == (if is_new_user && stats.unique_users < i32::MAX {
            stats.unique_users + 1
        } else {
            stats.unique_users as int
        }),
        r.last_updated_at == now_ms,
{
    let total_requests = if stats.total_requests < i32::MAX {
        stats.total_requests + 1
    } else {
        stats.total_requests
    };
    let unique_users = if is_new_user && stats.unique_users < i32::MAX {
        stats.unique_users + 1
    } else {
        stats.unique_users
    };
    StatsResponse { total_requests, unique_users, last_updated_at: now_ms }
}

} // verus!
