use vstd::prelude::*;
use vstd::seq_lib::to_multiset_build;

use std::collections::HashMap;

use crate::schedule::{DayCourse, WeekInfo};

verus! {

broadcast use vstd::std_specs::hash::group_hash_axioms;

/// Why an aggregation request is refused before any week is fetched.
#[derive(PartialEq, Eq, Structural, Debug, Clone, Copy)]
pub enum AggregateError {
    /// The term has no weeks.
    EmptyInput,
    /// The access token or the student id is empty.
    MissingCredentials,
}

/// Checks an aggregation request: weeks first, then the credentials.
pub fn check_aggregate_request(user_token: &str, student_id: &str, weeks: &Vec<WeekInfo>) -> (r:
    Result<(), AggregateError>)
    ensures
        weeks@.len() == 0 ==> r == Err::<(), AggregateError>(AggregateError::EmptyInput),
        weeks@.len() > 0 && (user_token@.len() == 0 || student_id@.len() == 0) ==> r == Err::<
            (),
            AggregateError,
        >(AggregateError::MissingCredentials),
        weeks@.len() > 0 && user_token@.len() > 0 && student_id@.len() > 0 ==> r is Ok,
{
    if weeks.len() == 0 {
        return Err(AggregateError::EmptyInput);
    }
    if student_id.unicode_len() == 0 || user_token.unicode_len() == 0 {
        return Err(AggregateError::MissingCredentials);
    }
    Ok(())
}

/// What fetching one week gave: its days, or `None` where the fetch failed.
#[derive(Clone, Debug)]
pub struct WeekOutcome {
    pub week: u32,
    pub days: Option<Vec<DayCourse>>,
}

/// `d` placed into `sorted` after every day whose weekday is not larger.
pub open spec fn insert_by_weekday(sorted: Seq<DayCourse>, d: DayCourse) -> Seq<DayCourse>
    decreases sorted.len(),
{
    if sorted.len() == 0 {
        seq![d]
    } else if sorted.last().weekday <= d.weekday {
        sorted.push(d)
    } else {
        insert_by_weekday(sorted.drop_last(), d).push(sorted.last())
    }
}

/// The days in ascending weekday order; days with the same weekday keep
/// their order.
pub open spec fn sort_by_weekday(s: Seq<DayCourse>) -> Seq<DayCourse>
    decreases s.len(),
{
    if s.len() == 0 {
        s
    } else {
        insert_by_weekday(sort_by_weekday(s.drop_last()), s.last())
    }
}

pub open spec fn sorted_by_weekday(s: Seq<DayCourse>) -> bool {
    forall|i: int, j: int| 0 <= i < j < s.len() ==> s[i].weekday <= s[j].weekday
}

proof fn lemma_insert_at(t: Seq<DayCourse>, d: DayCourse, k: int)
    requires
        0 <= k <= t.len(),
        k == 0 || t[k - 1].weekday <= d.weekday,
        forall|j: int| k <= j < t.len() ==> (#[trigger] t[j]).weekday > d.weekday,
    ensures
        insert_by_weekday(t, d) == t.insert(k, d),
    decreases t.len(),
{
    if t.len() == 0 {
        assert(t.insert(k, d) =~= seq![d]);
    } else if k == t.len() {
        assert(t.insert(k, d) =~= t.push(d));
    } else {
        assert(t[t.len() - 1].weekday > d.weekday);
        let init = t.drop_last();
        lemma_insert_at(init, d, k);
        assert(init.insert(k, d).push(t.last()) =~= t.insert(k, d));
    }
}

proof fn lemma_insert_keeps(t: Seq<DayCourse>, d: DayCourse)
    requires
        sorted_by_weekday(t),
    ensures
        sorted_by_weekday(insert_by_weekday(t, d)),
        insert_by_weekday(t, d).to_multiset() == t.to_multiset().insert(d),
        insert_by_weekday(t, d).len() == t.len() + 1,
        t.len() > 0 ==> insert_by_weekday(t, d).last().weekday >= t.last().weekday,
        insert_by_weekday(t, d).last().weekday >= d.weekday,
    decreases t.len(),
{
    broadcast use to_multiset_build;

    if t.len() == 0 {
        assert(seq![d] =~= t.push(d));
    } else if t.last().weekday <= d.weekday {
    } else {
        let init = t.drop_last();
        lemma_insert_keeps(init, d);
        assert(init.push(t.last()) =~= t);
        let u = insert_by_weekday(init, d);
        assert(u.push(t.last()).to_multiset() =~= init.to_multiset().insert(d).insert(t.last()));
        assert(t.to_multiset() =~= init.to_multiset().insert(t.last()));
        assert(init.to_multiset().insert(d).insert(t.last()) =~= init.to_multiset().insert(
            t.last(),
        ).insert(d));
        assert forall|i: int, j: int| 0 <= i < j < u.len() + 1 implies u.push(
            t.last(),
        )[i].weekday <= u.push(t.last())[j].weekday by {
            if j == u.len() {
                if init.len() > 0 {
                    assert(u[i].weekday <= u.last().weekday);
                } else {
                    assert(u =~= seq![d]);
                }
            }
        }
    }
}

/// Sorting by weekday leaves the days in ascending weekday order and keeps
/// every day: the result is a permutation of the input.
pub proof fn lemma_sort_by_weekday(s: Seq<DayCourse>)
    ensures
        sorted_by_weekday(sort_by_weekday(s)),
        sort_by_weekday(s).to_multiset() == s.to_multiset(),
        sort_by_weekday(s).len() == s.len(),
    decreases s.len(),
{
    broadcast use to_multiset_build;

    if s.len() > 0 {
        lemma_sort_by_weekday(s.drop_last());
        lemma_insert_keeps(sort_by_weekday(s.drop_last()), s.last());
        assert(s.drop_last().push(s.last()) =~= s);
    }
}

/// Sorts the days of one week by weekday, keeping the order of equal weekdays.
pub fn sort_days_by_weekday(days: Vec<DayCourse>) -> (r: Vec<DayCourse>)
    ensures
        r@ == sort_by_weekday(days@),
{
    let ghost orig = days@;
    let total = days.len();
    let mut rest = days;
    let mut out: Vec<DayCourse> = Vec::new();
    let mut n: usize = 0;
    assert(orig.subrange(0, 0) =~= Seq::<DayCourse>::empty());
    while rest.len() > 0
        invariant
            n <= orig.len(),
            orig.len() == total,
            rest@ == orig.subrange(n as int, orig.len() as int),
            out@ == sort_by_weekday(orig.subrange(0, n as int)),
        decreases rest@.len(),
    {
        let d = rest.remove(0);
        proof {
            lemma_sort_by_weekday(orig.subrange(0, n as int));
        }
        let mut k: usize = out.len();
        while k > 0 && out[k - 1].weekday > d.weekday
            invariant
                k <= out@.len(),
                forall|j: int| k <= j < out@.len() ==> (#[trigger] out@[j]).weekday > d.weekday,
            decreases k,
        {
            k = k - 1;
        }
        proof {
            lemma_insert_at(out@, d, k as int);
            let next = orig.subrange(0, n as int + 1);
            assert(next.drop_last() =~= orig.subrange(0, n as int));
            assert(next.last() == d);
        }
        out.insert(k, d);
        n = n + 1;
        assert(rest@ =~= orig.subrange(n as int, orig.len() as int));
    }
    assert(orig.subrange(0, n as int) =~= orig);
    out
}

/// The weeks that a sequence of outcomes assembles to: each fetched week
/// under its number with its days sorted by weekday; a failed week is left out.
pub open spec fn assembled(outcomes: Seq<WeekOutcome>) -> Map<u32, Seq<DayCourse>>
    decreases outcomes.len(),
{
    if outcomes.len() == 0 {
        Map::empty()
    } else {
        let before = assembled(outcomes.drop_last());
        let o = outcomes.last();
        match o.days {
            Some(days) => before.insert(o.week, sort_by_weekday(days@)),
            None => before,
        }
    }
}

/// No two outcomes are for the same week number.
pub open spec fn distinct_weeks(outcomes: Seq<WeekOutcome>) -> bool {
    forall|i: int, j: int|
        0 <= i < outcomes.len() && 0 <= j < outcomes.len() && i != j ==> outcomes[i].week
            != outcomes[j].week
}

pub open spec fn weeks_view(m: Map<u32, Vec<DayCourse>>) -> Map<u32, Seq<DayCourse>> {
    Map::new(|k: u32| m.contains_key(k), |k: u32| m[k]@)
}

/// Assembles the fetched weeks into a map from week number to days. A week
/// whose fetch failed is left out rather than failing the whole term, and
/// each week's days are sorted by weekday.
pub fn assemble_weeks(outcomes: Vec<WeekOutcome>) -> (r: HashMap<u32, Vec<DayCourse>>)
    ensures
        weeks_view(r@) == assembled(outcomes@),
{
    let ghost orig = outcomes@;
    let total = outcomes.len();
    let mut rest = outcomes;
    let mut map: HashMap<u32, Vec<DayCourse>> = HashMap::new();
    let mut n: usize = 0;
    assert(orig.subrange(0, 0) =~= Seq::<WeekOutcome>::empty());
    assert(weeks_view(map@) =~= Map::<u32, Seq<DayCourse>>::empty());
    while rest.len() > 0
        invariant
            n <= orig.len(),
            orig.len() == total,
            rest@ == orig.subrange(n as int, orig.len() as int),
            weeks_view(map@) == assembled(orig.subrange(0, n as int)),
        decreases rest@.len(),
    {
        let o = rest.remove(0);
        let ghost next = orig.subrange(0, n as int + 1);
        assert(next.drop_last() =~= orig.subrange(0, n as int));
        assert(next.last() == o);
        let ghost before = map@;
        match o.days {
            Some(days) => {
                let sorted = sort_days_by_weekday(days);
                map.insert(o.week, sorted);
                assert(weeks_view(map@) =~= weeks_view(before).insert(o.week, sorted@));
            },
            None => {},
        }
        n = n + 1;
        assert(rest@ =~= orig.subrange(n as int, orig.len() as int));
    }
    assert(orig.subrange(0, n as int) =~= orig);
    map
}

/// A week number is in the assembled map exactly where some outcome for it
/// holds days.
pub proof fn lemma_assembled_keys(outcomes: Seq<WeekOutcome>, k: u32)
    ensures
        assembled(outcomes).contains_key(k) <==> exists|i: int|
            0 <= i < outcomes.len() && (#[trigger] outcomes[i]).week == k
                && outcomes[i].days is Some,
    decreases outcomes.len(),
{
    if outcomes.len() > 0 {
        let init = outcomes.drop_last();
        lemma_assembled_keys(init, k);
        if assembled(outcomes).contains_key(k) {
            if !assembled(init).contains_key(k) {
                let i = outcomes.len() - 1;
                assert(outcomes[i].week == k && outcomes[i].days is Some);
            } else {
                let i = choose|i: int|
                    0 <= i < init.len() && (#[trigger] init[i]).week == k && init[i].days is Some;
                assert(outcomes[i] == init[i]);
            }
        } else {
            assert forall|i: int| 0 <= i < outcomes.len() && (#[trigger] outcomes[i]).week == k
                implies outcomes[i].days is None by {
                if i < init.len() {
                    assert(outcomes[i] == init[i]);
                }
            }
        }
    }
}

/// Where week numbers are distinct, the days assembled under a week are
/// those of its outcome, sorted by weekday.
pub proof fn lemma_assembled_entry(outcomes: Seq<WeekOutcome>, i: int)
    requires
        distinct_weeks(outcomes),
        0 <= i < outcomes.len(),
        outcomes[i].days is Some,
    ensures
        assembled(outcomes).contains_key(outcomes[i].week),
        assembled(outcomes)[outcomes[i].week] == sort_by_weekday(outcomes[i].days->0@),
    decreases outcomes.len(),
{
    let init = outcomes.drop_last();
    if i < outcomes.len() - 1 {
        assert(distinct_weeks(init)) by {
            assert forall|a: int, b: int|
                0 <= a < init.len() && 0 <= b < init.len() && a != b implies init[a].week
                != init[b].week by {
                assert(init[a] == outcomes[a] && init[b] == outcomes[b]);
            }
        }
        assert(init[i] == outcomes[i]);
        lemma_assembled_entry(init, i);
        assert(outcomes.last().week != outcomes[i].week);
    }
}

proof fn lemma_key_carries(a: Seq<WeekOutcome>, b: Seq<WeekOutcome>, k: u32)
    requires
        distinct_weeks(a),
        distinct_weeks(b),
        forall|x: WeekOutcome| a.contains(x) ==> b.contains(x),
        assembled(a).contains_key(k),
    ensures
        assembled(b).contains_key(k),
        assembled(b)[k] == assembled(a)[k],
{
    lemma_assembled_keys(a, k);
    let i = choose|i: int| 0 <= i < a.len() && (#[trigger] a[i]).week == k && a[i].days is Some;
    assert(a.contains(a[i]));
    let j = choose|j: int| 0 <= j < b.len() && b[j] == a[i];
    lemma_assembled_entry(a, i);
    lemma_assembled_entry(b, j);
}

/// The assembled weeks do not depend on the order in which the outcomes
/// arrived: two sequences that hold the same outcomes, each with distinct
/// week numbers, assemble to the same map. So fetching the weeks in
/// parallel, in completion order, gives what fetching them one by one does.
pub proof fn lemma_assembled_order_free(a: Seq<WeekOutcome>, b: Seq<WeekOutcome>)
    requires
        distinct_weeks(a),
        distinct_weeks(b),
        forall|x: WeekOutcome| a.contains(x) <==> b.contains(x),
    ensures
        assembled(a) == assembled(b),
{
    assert forall|k: u32| #[trigger] assembled(a).dom().contains(k) == assembled(b).dom().contains(
        k,
    ) by {
        if assembled(a).contains_key(k) {
            lemma_key_carries(a, b, k);
        }
        if assembled(b).contains_key(k) {
            lemma_key_carries(b, a, k);
        }
    }
    assert(assembled(a).dom() =~= assembled(b).dom());
    assert forall|k: u32| #[trigger] assembled(a).contains_key(k) implies assembled(b)[k]
        == assembled(a)[k] by {
        lemma_key_carries(a, b, k);
    }
    assert(assembled(a) =~= assembled(b));
}

/// Each week of the assembled map has its days in ascending weekday order,
/// and holds exactly the days that were fetched for it.
pub proof fn lemma_assembled_sorted(outcomes: Seq<WeekOutcome>, i: int)
    requires
        distinct_weeks(outcomes),
        0 <= i < outcomes.len(),
        outcomes[i].days is Some,
    ensures
        sorted_by_weekday(assembled(outcomes)[outcomes[i].week]),
        assembled(outcomes)[outcomes[i].week].to_multiset() == outcomes[i].days->0@.to_multiset(),
{
    lemma_assembled_entry(outcomes, i);
    lemma_sort_by_weekday(outcomes[i].days->0@);
}

} // verus!
