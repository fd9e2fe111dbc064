use fjcpc_schedule::schedule::SchoolYear;
use fjcpc_schedule::term::current_semester_index;

fn term(year: &str, semester: u32, current: bool) -> SchoolYear {
    SchoolYear {
        school_year: year.to_string(),
        semester,
        is_current_semester: current,
        start_time: String::new(),
        end_time: String::new(),
    }
}

#[test]
fn last_current_term_wins() {
    let years = vec![term("2024-2025", 1, false), term("2024-2025", 1, true), term("2024-2025", 1, true)];
    assert_eq!(current_semester_index(&years), Some(2));
}

#[test]
fn last_current_term_wins_over_later_non_current() {
    let years = vec![term("2023-2024", 2, true), term("2024-2025", 1, true), term("2024-2025", 2, false)];
    assert_eq!(current_semester_index(&years), Some(1));
}

#[test]
fn no_current_term() {
    let years = vec![term("2024-2025", 1, false)];
    assert_eq!(current_semester_index(&years), None);
    assert_eq!(current_semester_index(&Vec::new()), None);
}
