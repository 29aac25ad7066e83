use vstd::prelude::*;

verus! {

/// The text of each name in a list.
pub open spec fn name_texts(names: Seq<String>) -> Seq<Seq<char>> {
    names.map_values(|s: String| s@)
}

/// `name` equals, character for character, some entry of `available`.
pub open spec fn is_listed(name: Seq<char>, available: Seq<String>) -> bool {
    exists|j: int| 0 <= j < available.len() && #[trigger] available[j]@ == name
}

/// Every requested name is listed among the available ones.
pub open spec fn all_listed(requested: Seq<String>, available: Seq<String>) -> bool {
    forall|i: int| 0 <= i < requested.len() ==> is_listed(#[trigger] requested[i]@, available)
}

/// Whether `name` appears in `available`, by exact, case-sensitive comparison.
fn is_available(name: &String, available: &Vec<String>) -> (r: bool)
    ensures
        r == is_listed(name@, available@),
{
    let mut j: usize = 0;
    while j < available.len()
        invariant
            j <= available@.len(),
            forall|k: int| 0 <= k < j ==> available@[k]@ != name@,
        decreases available@.len() - j,
    {
        if available[j] == *name {
            return true;
        }
        j = j + 1;
    }
    false
}

/// Whether every requested capability (layer) name is among those that the
/// runtime reports as available. Names match only as whole strings, case
/// included; an empty request is always satisfied. The scan stops at the
/// first name that is missing.
pub fn has_required_capabilities(requested: &Vec<String>, available: &Vec<String>) -> (r: bool)
    ensures
        r == all_listed(requested@, available@),
        requested@.len() == 0 ==> r,
{
    let mut i: usize = 0;
    while i < requested.len()
        invariant
            i <= requested@.len(),
            forall|k: int| 0 <= k < i ==> is_listed(#[trigger] requested@[k]@, available@),
        decreases requested@.len() - i,
    {
        if !is_available(&requested[i], available) {
            return false;
        }
        i = i + 1;
    }
    true
}

/// The requested names are all available exactly when the set of requested
/// names is a subset of the set of available names; in particular an empty
/// request is satisfied whatever is available.
pub proof fn lemma_capabilities_subset_law(requested: Seq<String>, available: Seq<String>)
    ensures
        all_listed(requested, available) <==> name_texts(requested).to_set().subset_of(
            name_texts(available).to_set(),
        ),
        requested.len() == 0 ==> all_listed(requested, available),
{
    let rs = name_texts(requested).to_set();
    let avs = name_texts(available).to_set();
    if all_listed(requested, available) {
        assert forall|x: Seq<char>| rs.contains(x) implies avs.contains(x) by {
            let i = choose|i: int| 0 <= i < name_texts(requested).len() && name_texts(requested)[i] == x;
            assert(is_listed(requested[i]@, available));
            let j = choose|j: int| 0 <= j < available.len() && #[trigger] available[j]@ == x;
            assert(name_texts(available)[j] == x);
        }
    }
    if rs.subset_of(avs) {
        assert forall|i: int| 0 <= i < requested.len() implies is_listed(#[trigger] requested[i]@, available) by {
            assert(name_texts(requested)[i] == requested[i]@);
            assert(rs.contains(requested[i]@));
            let j = choose|j: int| 0 <= j < name_texts(available).len() && name_texts(available)[j] == requested[i]@;
            assert(available[j]@ == requested[i]@);
        }
    }
}

} // verus!
