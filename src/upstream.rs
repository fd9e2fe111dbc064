use vstd::prelude::*;

verus! {

/// The upstream endpoints that the service calls.
#[derive(Clone, Copy, Debug, PartialEq, Eq, Structural)]
pub enum Endpoint {
    /// Token exchange for a user code.
    Token,
    /// The terms on record.
    SchoolYears,
    /// The weeks of one term.
    SemesterWeeks,
    /// The courses of one week.
    WeekCourses,
}

pub open spec fn endpoint_path(e: Endpoint) -> Seq<char> {
    match e {
        Endpoint::Token => "/gateway/auth/oauth/token"@,
        Endpoint::SchoolYears => "/gateway/xgwork/appCourseTable/getXn"@,
        Endpoint::SemesterWeeks => "/gateway/xgwork/appCourseTable/getSemesterbyXn"@,
        Endpoint::WeekCourses => "/gateway/xgwork/appCourseTable/getListByNoWeek2"@,
    }
}

impl Endpoint {
    pub fn path(&self) -> (r: &'static str)
        ensures
            r@ == endpoint_path(*self),
    {
        match self {
            Endpoint::Token => "/gateway/auth/oauth/token",
            Endpoint::SchoolYears => "/gateway/xgwork/appCourseTable/getXn",
            Endpoint::SemesterWeeks => "/gateway/xgwork/appCourseTable/getSemesterbyXn",
            Endpoint::WeekCourses => "/gateway/xgwork/appCourseTable/getListByNoWeek2",
        }
    }
}

/// The address of an endpoint under the upstream base URL.
pub fn endpoint_url(base_url: &str, endpoint: Endpoint) -> (r: String)
    ensures
        r@ == base_url@ + endpoint_path(endpoint),
{
    String::from_str(base_url).concat(endpoint.path())
}

/// The address of a user's timetable page in the upstream web app, which a
/// browser session opens.
pub fn timetable_page_url(base_url: &str, ucode: &str) -> (r: String)
    ensures
        r@ == base_url@ + "/czmobile/mytimetableIndexNew?uid="@ + ucode@,
{
    String::from_str(base_url).concat("/czmobile/mytimetableIndexNew?uid=").concat(ucode)
}

/// The query of a token exchange for an upstream user id: the id, then
/// `state=1`, `grant_type=ucode` and `scope=server`.
pub fn token_query(ucode: &str) -> (r: Vec<(String, String)>)
    ensures
        r@.len() == 4,
        r@[0].0@ == "ucode"@ && r@[0].1@ == ucode@,
        r@[1].0@ == "state"@ && r@[1].1@ == "1"@,
        r@[2].0@ == "grant_type"@ && r@[2].1@ == "ucode"@,
        r@[3].0@ == "scope"@ && r@[3].1@ == "server"@,
{
    let mut q: Vec<(String, String)> = Vec::new();
    q.push((String::from_str("ucode"), String::from_str(ucode)));
    q.push((String::from_str("state"), String::from_str("1")));
    q.push((String::from_str("grant_type"), String::from_str("ucode")));
    q.push((String::from_str("scope"), String::from_str("server")));
    q
}

/// How long a resolved address of the school's host is reused: seven days.
pub const DNS_CACHE_TTL_SECONDS: u64 = 604800;

/// A resolved address of the given age, in seconds, may still be reused.
pub fn dns_entry_fresh(age_seconds: u64) -> (r: bool)
    ensures
        r == (age_seconds < DNS_CACHE_TTL_SECONDS),
{
    age_seconds < DNS_CACHE_TTL_SECONDS
}

} // verus!
