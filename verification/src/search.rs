//! Finding the first occurrence of a name in a list of names.
use vstd::prelude::*;

verus! {

/// `i` is the first position of `s` that holds `x`.
pub open spec fn is_first_index<A>(s: Seq<A>, x: A, i: int) -> bool {
    &&& 0 <= i < s.len()
    &&& s[i] == x
    &&& forall|j: int| 0 <= j < i ==> #[trigger] s[j] != x
}

/// The first position of `s` that holds `x`, if any does.
pub open spec fn first_index<A>(s: Seq<A>, x: A) -> Option<int> {
    if exists|i: int| is_first_index(s, x, i) {
        Some(choose|i: int| is_first_index(s, x, i))
    } else {
        None
    }
}

/// The first position is unique, and there is one exactly when `x` occurs in `s`.
pub proof fn lemma_first_index<A>(s: Seq<A>, x: A, i: int)
    ensures
        is_first_index(s, x, i) ==> first_index(s, x) == Some(i),
        s.contains(x) == (first_index(s, x) is Some),
        first_index(s, x) matches Some(p) ==> is_first_index(s, x, p),
{
    if s.contains(x) {
        let k: int = choose|k: int| 0 <= k < s.len() && s[k] == x;
        lemma_first_exists(s, x, k);
    }
    if is_first_index(s, x, i) {
        let p: int = choose|p: int| is_first_index(s, x, p);
        if p < i {
            assert(s[p] != x);
        }
        if i < p {
            assert(s[i] != x);
        }
    }
}

proof fn lemma_first_exists<A>(s: Seq<A>, x: A, k: int)
    requires
        0 <= k < s.len(),
        s[k] == x,
    ensures
        exists|i: int| is_first_index(s, x, i),
    decreases k,
{
    if forall|j: int| 0 <= j < k ==> #[trigger] s[j] != x {
        assert(is_first_index(s, x, k));
    } else {
        let j: int = choose|j: int| 0 <= j < k && #[trigger] s[j] == x;
        lemma_first_exists(s, x, j);
    }
}

/// The views of a list of strings.
pub open spec fn string_views(v: Seq<String>) -> Seq<Seq<char>> {
    v.map_values(|s: String| s@)
}

/// The first position of `items` that holds `x`.
pub fn position_of(items: &Vec<String>, x: &str) -> (res: Option<usize>)
    ensures
        match res {
            Some(i) => first_index(string_views(items@), x@) == Some(i as int),
            None => first_index(string_views(items@), x@) is None,
        },
{
    let ghost views = string_views(items@);
    let mut i: usize = 0;
    while i < items.len()
        invariant
            views == string_views(items@),
            i <= items@.len(),
            forall|j: int| 0 <= j < i ==> #[trigger] views[j] != x@,
        decreases items@.len() - i,
    {
        if items[i] == *x {
            proof {
                lemma_first_index(views, x@, i as int);
            }
            return Some(i);
        }
        i += 1;
    }
    proof {
        lemma_first_index(views, x@, 0);
        if views.contains(x@) {
            let k: int = choose|k: int| 0 <= k < views.len() && views[k] == x@;
            assert(views[k] != x@);
        }
    }
    None
}

} // verus!
