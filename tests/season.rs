use fjcpc_schedule::api::{build_schedule_response, season_and_timetable, season_response};
use fjcpc_schedule::timetable::{
    get_course_time_table, get_school_schedule, get_summer_course_time_table,
    get_winter_course_time_table, is_summer_schedule, season_for, season_of, Season,
};
use std::collections::HashMap;

#[test]
fn season_boundaries() {
    assert_eq!(season_for("2025-06-01"), Some(Season::Summer));
    assert_eq!(season_for("2025-09-30"), Some(Season::Summer));
    assert_eq!(season_for("2025-10-01"), Some(Season::Winter));
    assert_eq!(season_for("2025-05-31"), Some(Season::Winter));
    assert_eq!(Season::Summer.as_string(), "summer");
    assert_eq!(Season::Winter.as_string(), "winter");
}

#[test]
fn season_of_month_and_day() {
    assert_eq!(season_of(6, 1), Season::Summer);
    assert_eq!(season_of(7, 15), Season::Summer);
    assert_eq!(season_of(9, 30), Season::Summer);
    assert_eq!(season_of(10, 1), Season::Winter);
    assert_eq!(season_of(1, 1), Season::Winter);
    assert_eq!(season_of(5, 31), Season::Winter);
}

#[test]
fn text_that_is_no_date_is_winter() {
    assert_eq!(season_for("not a date"), None);
    assert_eq!(season_for("2025-02-30"), None);
    assert!(!is_summer_schedule("garbage"));
    assert!(is_summer_schedule("2024-08-08"));
}

#[test]
fn timetables_hold_the_fixed_periods() {
    let w = get_winter_course_time_table().times;
    let s = get_summer_course_time_table().times;
    assert_eq!(w.len(), 10);
    assert_eq!(s.len(), 10);
    assert_eq!(w[0], ("08:00".to_string(), "08:45".to_string()));
    assert_eq!(w[4], ("14:00".to_string(), "14:45".to_string()));
    assert_eq!(w[9], ("19:55".to_string(), "20:40".to_string()));
    assert_eq!(s[4], ("14:30".to_string(), "15:15".to_string()));
    assert_eq!(s[9], ("20:15".to_string(), "21:00".to_string()));
    assert_eq!(get_course_time_table("2025-07-01").times, s);
    assert_eq!(get_course_time_table("2025-12-01").times, w);
    assert_eq!(get_course_time_table("?").times, w);
}

#[test]
fn school_day_shape() {
    let s = get_school_schedule();
    assert_eq!(s.basic_info.total_lessons, 10);
    assert_eq!(s.basic_info.lesson_duration, 45);
}

#[test]
fn season_answers() {
    let r = season_and_timetable("2025-06-01").unwrap();
    assert_eq!(r.season, "summer");
    assert_eq!(r.time_table, get_summer_course_time_table().times);
    assert!(season_and_timetable("2025/06/01").is_none());
    assert_eq!(season_response("2025-10-01").unwrap().season, "winter");
    assert!(season_response("").is_none());
    let resp = build_schedule_response(HashMap::new(), "2025-09-30");
    assert_eq!(resp.season, "summer");
    assert_eq!(resp.time_table, get_summer_course_time_table().times);
    let fallback = build_schedule_response(HashMap::new(), "bad");
    assert_eq!(fallback.season, "winter");
}
