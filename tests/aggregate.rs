use fjcpc_schedule::aggregate::{
    assemble_weeks, check_aggregate_request, sort_days_by_weekday, AggregateError, WeekOutcome,
};
use fjcpc_schedule::schedule::{CourseSlot, DayCourse, WeekInfo};

fn day(weekday: u32, slots: u32) -> DayCourse {
    DayCourse {
        weekday,
        course: (1..=slots).map(|n| CourseSlot { course_number: n, course_info: None }).collect(),
    }
}

fn week_days() -> Vec<DayCourse> {
    (1..=7).map(|d| day(d, 2)).collect()
}

fn week(n: u32) -> WeekInfo {
    WeekInfo { week: n, start_time: format!("2025-03-{:02}", n), end_time: String::new() }
}

#[test]
fn failed_week_is_left_out() {
    let outcomes = vec![
        WeekOutcome { week: 1, days: Some(week_days()) },
        WeekOutcome { week: 2, days: None },
        WeekOutcome { week: 3, days: Some(week_days()) },
    ];
    let map = assemble_weeks(outcomes);
    let mut keys: Vec<u32> = map.keys().copied().collect();
    keys.sort();
    assert_eq!(keys, vec![1, 3]);
    assert_eq!(map[&1].len(), 7);
}

#[test]
fn days_come_out_sorted_by_weekday() {
    let shuffled = vec![day(3, 1), day(1, 2), day(7, 0), day(2, 3), day(1, 4)];
    let sorted = sort_days_by_weekday(shuffled);
    let order: Vec<(u32, usize)> = sorted.iter().map(|d| (d.weekday, d.course.len())).collect();
    assert_eq!(order, vec![(1, 2), (1, 4), (2, 3), (3, 1), (7, 0)]);
    let map = assemble_weeks(vec![WeekOutcome { week: 9, days: Some(vec![day(5, 0), day(2, 0), day(4, 0)]) }]);
    let weekdays: Vec<u32> = map[&9].iter().map(|d| d.weekday).collect();
    assert_eq!(weekdays, vec![2, 4, 5]);
}

#[test]
fn completion_order_does_not_change_the_result() {
    let in_order = vec![
        WeekOutcome { week: 1, days: Some(vec![day(2, 1), day(1, 1)]) },
        WeekOutcome { week: 2, days: None },
        WeekOutcome { week: 3, days: Some(week_days()) },
    ];
    let mut reversed = in_order.clone();
    reversed.reverse();
    assert_eq!(assemble_weeks(in_order), assemble_weeks(reversed));
}

#[test]
fn empty_term_is_refused() {
    assert_eq!(check_aggregate_request("tok", "245810101", &Vec::new()), Err(AggregateError::EmptyInput));
    assert_eq!(check_aggregate_request("", "", &Vec::new()), Err(AggregateError::EmptyInput));
}

#[test]
fn missing_credentials_are_refused() {
    let weeks = vec![week(1)];
    assert_eq!(check_aggregate_request("", "245810101", &weeks), Err(AggregateError::MissingCredentials));
    assert_eq!(check_aggregate_request("tok", "", &weeks), Err(AggregateError::MissingCredentials));
    assert_eq!(check_aggregate_request("tok", "245810101", &weeks), Ok(()));
}
