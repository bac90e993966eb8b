use vstd::prelude::*;

verus! {

/// `i` is the first position of `names` that holds `name`.
pub open spec fn is_first_of(names: Seq<Seq<char>>, name: Seq<char>, i: int) -> bool {
    &&& 0 <= i < names.len()
    &&& names[i] == name
    &&& forall|j: int| 0 <= j < i ==> #[trigger] names[j] != name
}

/// The first position of `names` that holds `name`, if any.
pub open spec fn first_of(names: Seq<Seq<char>>, name: Seq<char>) -> Option<int> {
    if exists|i: int| is_first_of(names, name, i) {
        Some(choose|i: int| is_first_of(names, name, i))
    } else {
        None
    }
}

/// The first position holding `name` is the one `is_first_of` describes.
pub proof fn lemma_first_of_is(names: Seq<Seq<char>>, name: Seq<char>, i: int)
    requires
        is_first_of(names, name, i),
    ensures
        first_of(names, name) == Some(i),
{
    let j = choose|j: int| is_first_of(names, name, j);
    assert(is_first_of(names, name, j));
    if j < i {
        assert(names[j] != name);
    } else if i < j {
        assert(names[i] != name);
    }
}

proof fn lemma_first_of_exists(names: Seq<Seq<char>>, name: Seq<char>, k: int)
    requires
        0 <= k < names.len(),
        names[k] == name,
    ensures
        first_of(names, name) is Some,
    decreases k,
{
    if exists|j: int| 0 <= j < k && #[trigger] names[j] == name {
        let j = choose|j: int| 0 <= j < k && #[trigger] names[j] == name;
        lemma_first_of_exists(names, name, j);
    } else {
        assert(is_first_of(names, name, k));
    }
}

/// A first position holding `name` exists exactly when some position holds it.
pub proof fn lemma_first_of_iff(names: Seq<Seq<char>>, name: Seq<char>)
    ensures
        first_of(names, name) is Some <==> exists|k: int| 0 <= k < names.len() && #[trigger] names[k] == name,
        first_of(names, name) matches Some(i) ==> is_first_of(names, name, i),
{
    if exists|k: int| 0 <= k < names.len() && #[trigger] names[k] == name {
        let k = choose|k: int| 0 <= k < names.len() && #[trigger] names[k] == name;
        lemma_first_of_exists(names, name, k);
    }
    if first_of(names, name) is Some {
        let i = choose|i: int| is_first_of(names, name, i);
        assert(names[i] == name);
    }
}

} // verus!
