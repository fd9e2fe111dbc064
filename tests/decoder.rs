use fjcpc_schedule::schedule::{
    decode_week, parse_course_string, school_year_from_raw, week_info_from_row,
};
use fjcpc_schedule::text::{parse_u32_or_zero, parse_unsigned, split_on};

fn strings(items: &[&str]) -> Vec<String> {
    items.iter().map(|s| s.to_string()).collect()
}

#[test]
fn decodes_full_record_field_by_field() {
    let info = parse_course_string("高等数学|A101|计算机1班|张三;李四|3|2|#ff0000|2|MATH01").unwrap();
    assert_eq!(info.name, "高等数学");
    assert_eq!(info.classroom, Some("A101".to_string()));
    assert_eq!(info.class, "计算机1班");
    assert_eq!(info.teacher, strings(&["张三", "李四"]));
    assert_eq!(info.course_number, 3);
    assert_eq!(info.weekday, 2);
    assert_eq!(info.color, "#ff0000");
    assert_eq!(info.continuous_course, 2);
    assert_eq!(info.code, "MATH01");
}

#[test]
fn placeholder_classroom_is_absent() {
    let info = parse_course_string("体育|无|班|王五|1|1|blue|1|PE").unwrap();
    assert_eq!(info.classroom, None);
    assert_eq!(info.teacher, strings(&["王五"]));
}

#[test]
fn classroom_merely_containing_placeholder_is_kept() {
    let info = parse_course_string("体育|无人|班|王五|1|1|blue|1|PE").unwrap();
    assert_eq!(info.classroom, Some("无人".to_string()));
}

#[test]
fn empty_record_is_free_period() {
    assert_eq!(parse_course_string(""), None);
}

#[test]
fn short_record_is_free_period() {
    assert_eq!(parse_course_string("a|b|c|d|1|2|red|1"), None);
    assert_eq!(parse_course_string("no pipes at all"), None);
}

#[test]
fn extra_fields_are_ignored() {
    let info = parse_course_string("n|r|c|t|1|2|col|3|code|extra").unwrap();
    assert_eq!(info.code, "code");
}

#[test]
fn unreadable_numbers_read_as_zero() {
    let info = parse_course_string("n|r|c|t|x|-1||c|code").unwrap();
    assert_eq!(info.course_number, 0);
    assert_eq!(info.weekday, 0);
    assert_eq!(info.continuous_course, 0);
    assert_eq!(info.teacher, strings(&["t"]));
}

#[test]
fn empty_fields_are_kept_empty() {
    let info = parse_course_string("||||||||").unwrap();
    assert_eq!(info.name, "");
    assert_eq!(info.classroom, Some(String::new()));
    assert_eq!(info.teacher, strings(&[""]));
}

#[test]
fn split_matches_std_split() {
    for text in ["", "a", "a|b", "|", "a||b|", "无|有"] {
        let expected: Vec<String> = text.split('|').map(|s| s.to_string()).collect();
        assert_eq!(split_on(text, '|'), expected);
    }
}

#[test]
fn numbers_parse_as_std_does() {
    assert_eq!(parse_u32_or_zero("42"), 42);
    assert_eq!(parse_u32_or_zero("+7"), 7);
    assert_eq!(parse_u32_or_zero("+"), 0);
    assert_eq!(parse_u32_or_zero(""), 0);
    assert_eq!(parse_u32_or_zero("4294967295"), 4294967295);
    assert_eq!(parse_u32_or_zero("4294967296"), 0);
    assert_eq!(parse_u32_or_zero("007"), 7);
    assert_eq!(parse_u32_or_zero(" 7"), 0);
    assert_eq!(parse_unsigned("65535", 65535), Some(65535));
    assert_eq!(parse_unsigned("65536", 65535), None);
    assert_eq!(parse_unsigned("3", 3), Some(3));
    assert_eq!(parse_unsigned("5", 3), None);
    assert_eq!(parse_unsigned("0", 0), Some(0));
    assert_eq!(parse_unsigned("1", 0), None);
}

#[test]
fn week_days_and_slots_are_numbered_from_one() {
    let raw = vec![
        strings(&["", "课|无|班|师|2|1|c|1|K"]),
        strings(&[]),
        strings(&["bad"]),
    ];
    let days = decode_week(&raw);
    assert_eq!(days.len(), 3);
    assert_eq!(days[0].weekday, 1);
    assert_eq!(days[1].weekday, 2);
    assert_eq!(days[2].weekday, 3);
    assert_eq!(days[0].course.len(), 2);
    assert_eq!(days[0].course[0].course_number, 1);
    assert_eq!(days[0].course[0].course_info, None);
    assert_eq!(days[0].course[1].course_number, 2);
    assert_eq!(days[0].course[1].course_info.as_ref().unwrap().name, "课");
    assert!(days[1].course.is_empty());
    assert_eq!(days[2].course[0].course_info, None);
}

#[test]
fn term_fields_are_read_from_upstream_text() {
    let y = school_year_from_raw("2024-2025".to_string(), "2", "1", "2025-02-17".to_string(), "2025-07-06".to_string());
    assert_eq!(y.school_year, "2024-2025");
    assert_eq!(y.semester, 2);
    assert!(y.is_current_semester);
    let z = school_year_from_raw("2023-2024".to_string(), "x", "0", String::new(), String::new());
    assert_eq!(z.semester, 0);
    assert!(!z.is_current_semester);
}

#[test]
fn week_rows_fill_missing_parts() {
    let w = week_info_from_row(&strings(&["5", "2025-03-17", "2025-03-23"]));
    assert_eq!(w.week, 5);
    assert_eq!(w.start_time, "2025-03-17");
    assert_eq!(w.end_time, "2025-03-23");
    let short = week_info_from_row(&strings(&["x"]));
    assert_eq!(short.week, 0);
    assert_eq!(short.start_time, "");
    assert_eq!(short.end_time, "");
}

#[test]
fn decoded_record_writes_back_to_itself() {
    let record = "高等数学|无|计算机1班|张三;李四|3|2|#ff0000|2|MATH01";
    let c = parse_course_string(record).unwrap();
    let rewritten = [
        c.name.clone(),
        c.classroom.clone().unwrap_or_else(|| "无".to_string()),
        c.class.clone(),
        c.teacher.join(";"),
        c.course_number.to_string(),
        c.weekday.to_string(),
        c.color.clone(),
        c.continuous_course.to_string(),
        c.code.clone(),
    ]
    .join("|");
    assert_eq!(rewritten, record);
}
