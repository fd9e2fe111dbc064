use vstd::prelude::*;

use crate::schedule::SchoolYear;

verus! {

/// `i` is the last term of `years` that is flagged current.
pub open spec fn is_last_current(years: Seq<SchoolYear>, i: int) -> bool {
    &&& 0 <= i < years.len()
    &&& years[i].is_current_semester
    &&& forall|j: int| i < j < years.len() ==> !(#[trigger] years[j]).is_current_semester
}

pub open spec fn has_current(years: Seq<SchoolYear>) -> bool {
    exists|i: int| 0 <= i < years.len() && (#[trigger] years[i]).is_current_semester
}

/// Finds the current term: the last one flagged current, since upstream may
/// list a superseded flag before the one that counts. `None` where no term
/// is flagged current.
pub fn current_semester_index(years: &Vec<SchoolYear>) -> (r: Option<usize>)
    ensures
        match r {
            Some(i) => is_last_current(years@, i as int),
            None => !has_current(years@),
        },
{
    let mut i: usize = years.len();
    while i > 0
        invariant
            i <= years@.len(),
            forall|j: int| i <= j < years@.len() ==> !(#[trigger] years@[j]).is_current_semester,
        decreases i,
    {
        if years[i - 1].is_current_semester {
            return Some(i - 1);
        }
        i = i - 1;
    }
    None
}

} // verus!
