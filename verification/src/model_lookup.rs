//! Finding a parameter or a part of a model by its identifier.

use vstd::prelude::*;
use vstd::string::*;

verus! {

/// Whether `at` is the first place in `ids` that holds `wanted`.
pub open spec fn is_first_place_of(ids: Seq<String>, wanted: Seq<char>, at: int) -> bool {
    &&& 0 <= at < ids.len()
    &&& ids[at]@ == wanted
    &&& forall|j: int| 0 <= j < at ==> (#[trigger] ids[j])@ != wanted
}

/// Whether `wanted` stands nowhere in `ids`.
pub open spec fn is_missing_from(ids: Seq<String>, wanted: Seq<char>) -> bool {
    forall|j: int| 0 <= j < ids.len() ==> (#[trigger] ids[j])@ != wanted
}

/// The first place in `ids` that holds `wanted`, if there is one.
pub fn find_id(ids: &Vec<String>, wanted: &str) -> (found: Option<usize>)
    ensures
        match found {
            Some(at) => is_first_place_of(ids@, wanted@, at as int),
            None => is_missing_from(ids@, wanted@),
        },
{
    let wanted_id = String::from_str(wanted);
    let mut at: usize = 0;
    while at < ids.len()
        invariant
            at <= ids.len(),
            wanted_id@ == wanted@,
            forall|j: int| 0 <= j < at ==> (#[trigger] ids@[j])@ != wanted@,
        decreases ids.len() - at,
    {
        if ids[at] == wanted_id {
            return Some(at);
        }
        at += 1;
    }
    None
}

} // verus!
