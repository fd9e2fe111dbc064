use vstd::prelude::*;

use crate::text::{
    decimal_of, free_of, join_spec, lemma_decimal_parses, lemma_join_split, lemma_split_join,
    parse_u32_or_zero, split_on, split_spec, strings_view, u32_or_zero,
};

verus! {

/// One academic term as the upstream service lists it.
#[derive(Clone, Debug, PartialEq, Eq)]
pub struct SchoolYear {
    pub school_year: String,
    pub semester: u32,
    pub is_current_semester: bool,
    pub start_time: String,
    pub end_time: String,
}

/// One week of a term: its number and the dates it spans.
#[derive(Clone, Debug, PartialEq, Eq)]
pub struct WeekInfo {
    pub week: u32,
    pub start_time: String,
    pub end_time: String,
}

/// The slots of one calendar day; `weekday` runs from 1 (Monday) to 7.
#[derive(Clone, Debug, PartialEq, Eq)]
pub struct DayCourse {
    pub weekday: u32,
    pub course: Vec<CourseSlot>,
}

/// One period of a day; no course in it means a free period.
#[derive(Clone, Debug, PartialEq, Eq)]
pub struct CourseSlot {
    pub course_number: u32,
    pub course_info: Option<CourseInfo>,
}

/// A course decoded from its pipe-delimited record.
#[derive(Clone, Debug, PartialEq, Eq)]
pub struct CourseInfo {
    pub name: String,
    pub classroom: Option<String>,
    pub class: String,
    pub teacher: Vec<String>,
    pub course_number: u32,
    pub weekday: u32,
    pub color: String,
    pub continuous_course: u32,
    pub code: String,
}

/// The number of fields of a course record.
pub const COURSE_FIELD_COUNT: usize = 9;

/// The classroom placeholder that stands for "no classroom".
pub open spec fn no_classroom() -> Seq<char> {
    seq!['无']
}

/// The fields of a course record, or `None` where the record is empty or
/// has fewer than nine fields.
pub open spec fn course_fields(s: Seq<char>) -> Option<Seq<Seq<char>>> {
    let f = split_spec(s, '|');
    if s.len() == 0 || f.len() < 9 {
        None
    } else {
        Some(f)
    }
}

/// The classroom that a classroom field names.
pub open spec fn classroom_of(field: Seq<char>) -> Option<Seq<char>> {
    if field == no_classroom() {
        None
    } else {
        Some(field)
    }
}

pub open spec fn optional_view(o: Option<String>) -> Option<Seq<char>> {
    match o {
        Some(s) => Some(s@),
        None => None,
    }
}

/// `c` holds what the fields `f` of a record say.
pub open spec fn describes(c: CourseInfo, f: Seq<Seq<char>>) -> bool {
    &&& f.len() >= 9
    &&& c.name@ == f[0]
    &&& optional_view(c.classroom) == classroom_of(f[1])
    &&& c.class@ == f[2]
    &&& strings_view(c.teacher@) == split_spec(f[3], ';')
    &&& c.course_number == u32_or_zero(f[4])
    &&& c.weekday == u32_or_zero(f[5])
    &&& c.color@ == f[6]
    &&& c.continuous_course == u32_or_zero(f[7])
    &&& c.code@ == f[8]
}

/// `info` is what the record `s` decodes to.
pub open spec fn decodes_to(s: Seq<char>, info: Option<CourseInfo>) -> bool {
    match course_fields(s) {
        None => info is None,
        Some(f) => info is Some && describes(info->0, f),
    }
}

/// Decodes one course record
/// `name|classroom|class|teachers|number|weekday|color|span|code`.
/// An empty or short record is a free period, never an error.
pub fn parse_course_string(string: &str) -> (r: Option<CourseInfo>)
    ensures
        decodes_to(string@, r),
        string@.len() == 0 ==> r is None,
        split_spec(string@, '|').len() < 9 ==> r is None,
{
    if string.unicode_len() == 0 {
        return None;
    }
    let fields = split_on(string, '|');
    if fields.len() < COURSE_FIELD_COUNT {
        return None;
    }
    let ghost f = strings_view(fields@);
    assert(f[1] == fields[1]@);
    let room = fields[1].as_str();
    let classroom = if room.unicode_len() == 1 && room.get_char(0) == '无' {
        assert(room@ =~= no_classroom());
        None
    } else {
        assert(room@ != no_classroom());
        Some(fields[1].clone())
    };
    let teacher = split_on(fields[3].as_str(), ';');
    let info = CourseInfo {
        name: fields[0].clone(),
        classroom,
        class: fields[2].clone(),
        teacher,
        course_number: parse_u32_or_zero(fields[4].as_str()),
        weekday: parse_u32_or_zero(fields[5].as_str()),
        color: fields[6].clone(),
        continuous_course: parse_u32_or_zero(fields[7].as_str()),
        code: fields[8].clone(),
    };
    assert(describes(info, f));
    Some(info)
}

proof fn lemma_join_len(pieces: Seq<Seq<char>>, sep: char)
    requires
        pieces.len() >= 1,
    ensures
        join_spec(pieces, sep).len() >= pieces.len() - 1,
    decreases pieces.len(),
{
    if pieces.len() > 1 {
        lemma_join_len(pieces.drop_last(), sep);
    }
}

/// Nine fields without a `|`, joined by `|`, decode back to exactly those
/// fields: the text fields as they are, the teachers split at `;`, the
/// numbers read as numbers, and the classroom absent exactly where it is
/// the placeholder.
pub proof fn lemma_course_round_trip(f: Seq<Seq<char>>)
    requires
        f.len() == 9,
        forall|i: int| 0 <= i < 9 ==> free_of(#[trigger] f[i], '|'),
    ensures
        course_fields(join_spec(f, '|')) == Some(f),
        forall|c: CourseInfo|
            decodes_to(join_spec(f, '|'), Some(c)) ==> {
                &&& describes(c, f)
                &&& (c.classroom is None <==> f[1] == no_classroom())
            },
{
    lemma_split_join(f, '|');
    lemma_join_len(f, '|');
}

/// The classroom field that writes a classroom: the placeholder for none.
pub open spec fn classroom_field(room: Option<Seq<char>>) -> Seq<char> {
    match room {
        Some(r) => r,
        None => no_classroom(),
    }
}

/// The nine fields that write a course back: teachers joined by `;`,
/// numbers in canonical decimal.
pub open spec fn fields_of(c: CourseInfo) -> Seq<Seq<char>> {
    seq![
        c.name@,
        classroom_field(optional_view(c.classroom)),
        c.class@,
        join_spec(strings_view(c.teacher@), ';'),
        decimal_of(c.course_number as nat),
        decimal_of(c.weekday as nat),
        c.color@,
        decimal_of(c.continuous_course as nat),
        c.code@,
    ]
}

/// A field holds a `u32` in canonical decimal.
pub open spec fn canonical_u32(f: Seq<char>) -> bool {
    exists|v: nat| v <= u32::MAX && f == #[trigger] decimal_of(v)
}

/// A record of exactly nine fields whose numbers are written canonically
/// decodes to a course that writes back to the very same record.
pub proof fn lemma_course_reencodes(s: Seq<char>, c: CourseInfo)
    requires
        split_spec(s, '|').len() == 9,
        canonical_u32(split_spec(s, '|')[4]),
        canonical_u32(split_spec(s, '|')[5]),
        canonical_u32(split_spec(s, '|')[7]),
        decodes_to(s, Some(c)),
    ensures
        join_spec(fields_of(c), '|') == s,
{
    let f = split_spec(s, '|');
    if s.len() == 0 {
        assert(f.len() == 1);
    }
    assert(describes(c, f));
    lemma_join_split(f[3], ';');
    let v4 = choose|v: nat| v <= u32::MAX && f[4] == #[trigger] decimal_of(v);
    let v5 = choose|v: nat| v <= u32::MAX && f[5] == #[trigger] decimal_of(v);
    let v7 = choose|v: nat| v <= u32::MAX && f[7] == #[trigger] decimal_of(v);
    lemma_decimal_parses(v4, u32::MAX as nat);
    lemma_decimal_parses(v5, u32::MAX as nat);
    lemma_decimal_parses(v7, u32::MAX as nat);
    assert(fields_of(c) =~= f);
    lemma_join_split(s, '|');
}

/// The slots of one day decode from `raw`: slot `j` is period `j + 1`.
pub open spec fn day_decodes(raw: Seq<String>, slots: Seq<CourseSlot>) -> bool {
    &&& slots.len() == raw.len()
    &&& forall|j: int|
        0 <= j < raw.len() ==> {
            &&& (#[trigger] slots[j]).course_number == j + 1
            &&& decodes_to(raw[j]@, slots[j].course_info)
        }
}

/// The days of one week decode from `raw`: day `i` has weekday `i + 1`.
pub open spec fn week_decodes(raw: Seq<Vec<String>>, days: Seq<DayCourse>) -> bool {
    &&& days.len() == raw.len()
    &&& forall|i: int|
        0 <= i < raw.len() ==> {
            &&& (#[trigger] days[i]).weekday == i + 1
            &&& day_decodes(raw[i]@, days[i].course@)
        }
}

/// Decodes the course records of one day.
pub fn decode_day(raw: &Vec<String>) -> (r: Vec<CourseSlot>)
    requires
        raw@.len() < u32::MAX,
    ensures
        day_decodes(raw@, r@),
{
    let mut slots: Vec<CourseSlot> = Vec::new();
    let mut j: usize = 0;
    while j < raw.len()
        invariant
            j <= raw@.len() < u32::MAX,
            slots@.len() == j,
            forall|k: int|
                0 <= k < j ==> {
                    &&& (#[trigger] slots@[k]).course_number == k + 1
                    &&& decodes_to(raw@[k]@, slots@[k].course_info)
                },
        decreases raw@.len() - j,
    {
        let info = parse_course_string(raw[j].as_str());
        slots.push(CourseSlot { course_number: (j + 1) as u32, course_info: info });
        j = j + 1;
    }
    slots
}

/// Decodes one week of upstream data: a list of days, each a list of
/// course records.
pub fn decode_week(raw: &Vec<Vec<String>>) -> (r: Vec<DayCourse>)
    requires
        raw@.len() < u32::MAX,
        forall|i: int| 0 <= i < raw@.len() ==> (#[trigger] raw@[i])@.len() < u32::MAX,
    ensures
        week_decodes(raw@, r@),
{
    let mut days: Vec<DayCourse> = Vec::new();
    let mut i: usize = 0;
    while i < raw.len()
        invariant
            i <= raw@.len() < u32::MAX,
            forall|k: int| 0 <= k < raw@.len() ==> (#[trigger] raw@[k])@.len() < u32::MAX,
            days@.len() == i,
            forall|k: int|
                0 <= k < i ==> {
                    &&& (#[trigger] days@[k]).weekday == k + 1
                    &&& day_decodes(raw@[k]@, days@[k].course@)
                },
        decreases raw@.len() - i,
    {
        let slots = decode_day(&raw[i]);
        days.push(DayCourse { weekday: (i + 1) as u32, course: slots });
        i = i + 1;
    }
    days
}

/// The flag of a term record marks it current where it reads as a non-zero number.
pub open spec fn flag_is_set(flag: Seq<char>) -> bool {
    u32_or_zero(flag) != 0
}

/// Builds a term from the upstream fields: year, term number, current flag,
/// start and end date. A number that does not parse reads as zero.
pub fn school_year_from_raw(
    school_year: String,
    semester: &str,
    current_flag: &str,
    start_time: String,
    end_time: String,
) -> (r: SchoolYear)
    ensures
        r.school_year == school_year,
        r.semester == u32_or_zero(semester@),
        r.is_current_semester == flag_is_set(current_flag@),
        r.start_time == start_time,
        r.end_time == end_time,
{
    SchoolYear {
        school_year,
        semester: parse_u32_or_zero(semester),
        is_current_semester: parse_u32_or_zero(current_flag) != 0,
        start_time,
        end_time,
    }
}

/// The text at `i` of an upstream row, empty where the row is shorter.
pub open spec fn row_text(row: Seq<String>, i: int) -> Seq<char> {
    if i < row.len() {
        row[i]@
    } else {
        Seq::<char>::empty()
    }
}

fn row_text_at(row: &Vec<String>, i: usize) -> (r: String)
    ensures
        r@ == row_text(row@, i as int),
{
    if i < row.len() {
        row[i].clone()
    } else {
        String::new()
    }
}

/// Builds a week from an upstream row `[number, start, end]`; a missing or
/// unreadable number reads as zero and a missing date as empty.
pub fn week_info_from_row(row: &Vec<String>) -> (r: WeekInfo)
    ensures
        r.week == u32_or_zero(row_text(row@, 0)),
        r.start_time@ == row_text(row@, 1),
        r.end_time@ == row_text(row@, 2),
{
    let number = row_text_at(row, 0);
    WeekInfo {
        week: parse_u32_or_zero(number.as_str()),
        start_time: row_text_at(row, 1),
        end_time: row_text_at(row, 2),
    }
}

} // verus!
