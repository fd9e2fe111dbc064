use fjcpc_schedule::api::{count_request, ApiResponse, ScheduleFailure, ScheduleRequest, StatsResponse};
use fjcpc_schedule::config::{AppConfig, AppEnv};
use fjcpc_schedule::crypto::hash_ucode;
use fjcpc_schedule::upstream::{dns_entry_fresh, endpoint_url, timetable_page_url, token_query, Endpoint};

#[test]
fn environment_names() {
    assert_eq!(AppEnv::from_str("production"), AppEnv::Production);
    assert_eq!(AppEnv::from_str("PROD"), AppEnv::Production);
    assert_eq!(AppEnv::from_str("Production"), AppEnv::Production);
    assert_eq!(AppEnv::from_str("dev"), AppEnv::Development);
    assert_eq!(AppEnv::from_str(""), AppEnv::Development);
    assert!(AppEnv::Development.is_development());
    assert!(!AppEnv::Development.is_production());
    assert!(AppEnv::Production.is_production());
}

#[test]
fn settings_defaults() {
    let c = AppConfig::from_settings(None, None, None, None);
    assert_eq!(c.app_env, AppEnv::Development);
    assert_eq!(c.port, 8080);
    assert_eq!(c.college_app_base_url, "https://app.fjcpc.edu.cn");
    assert!(c.is_development());
    let p = AppConfig::from_settings(Some("prod"), Some("9000"), Some("http://x".to_string()), Some("T".to_string()));
    assert!(p.is_production());
    assert_eq!(p.port, 9000);
    assert_eq!(p.college_app_base_url, "http://x");
    assert_eq!(p.test_student_ucode, Some("T".to_string()));
    assert_eq!(AppConfig::from_settings(None, Some("70000"), None, None).port, 8080);
    assert_eq!(AppConfig::from_settings(None, Some("http"), None, None).port, 8080);
}

#[test]
fn user_code_hash_is_sha256_hex() {
    assert_eq!(hash_ucode("abc"), "ba7816bf8f01cfea414140de5dae2223b00361a396177a9cb410ff61f20015ad");
    assert_eq!(hash_ucode("").len(), 64);
}

#[test]
fn response_envelopes() {
    let ok = ApiResponse::success(200, 5u8, "OK".to_string());
    assert_eq!((ok.code, ok.status.as_str(), ok.data, ok.message.as_str()), (200, "success", 5, "OK"));
    let err = ApiResponse::error(404, (), "No current semester found".to_string());
    assert_eq!((err.code, err.status.as_str()), (404, "error"));
}

#[test]
fn request_defaults() {
    let r = ScheduleRequest { ucode: "u".to_string(), parallel: None, use_cache: None };
    assert!(r.wants_parallel() && r.wants_cache());
    let s = ScheduleRequest { ucode: "u".to_string(), parallel: Some(false), use_cache: Some(false) };
    assert!(!s.wants_parallel() && !s.wants_cache());
}

#[test]
fn counters_advance() {
    let s = StatsResponse { total_requests: 3, unique_users: 1, last_updated_at: 0 };
    assert_eq!(count_request(s, true, 99), StatsResponse { total_requests: 4, unique_users: 2, last_updated_at: 99 });
    assert_eq!(count_request(s, false, 7), StatsResponse { total_requests: 4, unique_users: 1, last_updated_at: 7 });
    let full = StatsResponse { total_requests: i32::MAX, unique_users: i32::MAX, last_updated_at: 0 };
    assert_eq!(count_request(full, true, 1).total_requests, i32::MAX);
}

#[test]
fn resolved_addresses_expire_after_seven_days() {
    assert!(dns_entry_fresh(0));
    assert!(dns_entry_fresh(604_799));
    assert!(!dns_entry_fresh(604_800));
    assert_eq!(endpoint_url("https://h", Endpoint::Token), "https://h/gateway/auth/oauth/token");
    assert_eq!(endpoint_url("https://h", Endpoint::WeekCourses), "https://h/gateway/xgwork/appCourseTable/getListByNoWeek2");
    assert_eq!(timetable_page_url("https://h", "U1"), "https://h/czmobile/mytimetableIndexNew?uid=U1");
    let q = token_query("HUA_TENG-U1");
    assert_eq!(q[0], ("ucode".to_string(), "HUA_TENG-U1".to_string()));
    assert_eq!(q[3], ("scope".to_string(), "server".to_string()));
}

#[test]
fn failures_map_to_status_and_message() {
    let missing = ScheduleFailure::NoCurrentSemester;
    assert_eq!(missing.status(), 404);
    assert_eq!(missing.message(), "No current semester found");
    let user = ScheduleFailure::UserInfo("401 Unauthorized".to_string());
    assert_eq!(user.status(), 500);
    assert_eq!(user.message(), "Get user info failed: 401 Unauthorized");
    let resp = ScheduleFailure::Semester("timeout".to_string()).to_response(());
    assert_eq!((resp.code, resp.status.as_str(), resp.message.as_str()), (500, "error", "Get semester failed: timeout"));
    assert_eq!(ScheduleFailure::CreateClient("dns".to_string()).message(), "Create client failed: dns");
    assert_eq!(ScheduleFailure::SchoolYear("x".to_string()).message(), "Get school year failed: x");
    assert_eq!(ScheduleFailure::AllCourses("EmptyInput".to_string()).message(), "Get all courses failed: EmptyInput");
}
