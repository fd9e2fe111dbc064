use vstd::prelude::*;

use crate::text::{parse_unsigned, parse_unsigned_spec};

verus! {

/// The environment the service runs in.
#[derive(Clone, Copy, Debug, PartialEq, Eq, Structural)]
pub enum AppEnv {
    Development,
    Production,
}

/// The text in lower case, as `str::to_lowercase` gives it.
pub uninterp spec fn lower_of(s: Seq<char>) -> Seq<char>;

/// Relies on `str::to_lowercase`: the result depends on the characters alone.
#[verifier::external_body]
fn lowercase(s: &str) -> (r: String)
    ensures
        r@ == lower_of(s@),
{
    s.to_lowercase()
}

/// The environment that a lower-case name selects.
pub open spec fn env_of_lower(s: Seq<char>) -> AppEnv {
    if s == "production"@ || s == "prod"@ {
        AppEnv::Production
    } else {
        AppEnv::Development
    }
}

fn same_text(a: &str, b: &str) -> (r: bool)
    ensures
        r == (a@ == b@),
{
    let n = a.unicode_len();
    if n != b.unicode_len() {
        return false;
    }
    let mut i: usize = 0;
    while i < n
        invariant
            n == a@.len() == b@.len(),
            i <= n,
            forall|j: int| 0 <= j < i ==> a@[j] == b@[j],
        decreases n - i,
    {
        if a.get_char(i) != b.get_char(i) {
            return false;
        }
        i = i + 1;
    }
    assert(a@ =~= b@);
    true
}

impl AppEnv {
    /// The environment named by an already lower-case text: `production`
    /// or `prod` select production, anything else development.
    pub fn from_lowercase(s: &str) -> (r: AppEnv)
        ensures
            r == env_of_lower(s@),
    {
        if same_text(s, "production") || same_text(s, "prod") {
            AppEnv::Production
        } else {
            AppEnv::Development
        }
    }

    /// The environment named by a text, in any case.
    pub fn from_str(s: &str) -> (r: AppEnv)
        ensures
            r == env_of_lower(lower_of(s@)),
    {
        let lower = lowercase(s);
        AppEnv::from_lowercase(lower.as_str())
    }

    pub fn is_development(&self) -> (r: bool)
        ensures
            r == (*self == AppEnv::Development),
    {
        match self {
            AppEnv::Development => true,
            AppEnv::Production => false,
        }
    }

    pub fn is_production(&self) -> (r: bool)
        ensures
            r == (*self == AppEnv::Production),
    {
        match self {
            AppEnv::Development => false,
            AppEnv::Production => true,
        }
    }
}

/// The port used where none is configured or it does not parse.
pub const DEFAULT_PORT: u16 = 8080;

/// The service's settings.
#[derive(Clone, Debug)]
pub struct AppConfig {
    pub app_env: AppEnv,
    pub port: u16,
    pub college_app_base_url: String,
    pub test_student_ucode: Option<String>,
}

/// The port that a configured text gives.
pub open spec fn port_of(s: Option<Seq<char>>) -> u16 {
    match s {
        Some(t) => match parse_unsigned_spec(t, u16::MAX as nat) {
            Some(v) => v as u16,
            None => DEFAULT_PORT,
        },
        None => DEFAULT_PORT,
    }
}

pub open spec fn optional_text(o: Option<&str>) -> Option<Seq<char>> {
    match o {
        Some(s) => Some(s@),
        None => None,
    }
}

impl AppConfig {
    /// Builds the settings from configured values, each possibly unset: the
    /// environment name (development where unset), the port (8080 where
    /// unset or not a port number), the upstream base URL (the school's
    /// public address where unset) and the user code used by tests.
    pub fn from_settings(
        app_env: Option<&str>,
        port: Option<&str>,
        base_url: Option<String>,
        test_student_ucode: Option<String>,
    ) -> (r: AppConfig)
        ensures
            r.app_env == (match app_env {
                Some(s) => env_of_lower(lower_of(s@)),
                None => AppEnv::Development,
            }),
            r.port == port_of(optional_text(port)),
            r.college_app_base_url@ == (match base_url {
                Some(u) => u@,
                None => "https://app.fjcpc.edu.cn"@,
            }),
            r.test_student_ucode == test_student_ucode,
    {
        let env = match app_env {
            Some(s) => AppEnv::from_str(s),
            None => AppEnv::Development,
        };
        let port_number = match port {
            Some(p) => match parse_unsigned(p, 0xffff) {
                Some(v) => v as u16,
                None => DEFAULT_PORT,
            },
            None => DEFAULT_PORT,
        };
        let url = match base_url {
            Some(u) => u,
            None => String::from_str("https://app.fjcpc.edu.cn"),
        };
        AppConfig {
            app_env: env,
            port: port_number,
            college_app_base_url: url,
            test_student_ucode,
        }
    }

    pub fn is_development(&self) -> (r: bool)
        ensures
            r == (self.app_env == AppEnv::Development),
    {
        self.app_env.is_development()
    }

    pub fn is_production(&self) -> (r: bool)
        ensures
            r == (self.app_env == AppEnv::Production),
    {
        self.app_env.is_production()
    }
}

} // verus!
