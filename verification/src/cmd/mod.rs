//! The decisions behind the `context`, `namespace` and `info` commands.
pub mod context;
pub mod namespace;

use vstd::prelude::*;

use crate::search::{first_index, lemma_first_index, position_of, string_views};

verus! {

/// Which entry a selection list starts on: the first one equal to `current`, else the first entry.
pub open spec fn spec_default_index(items: Seq<Seq<char>>, current: Seq<char>) -> int {
    match first_index(items, current) {
        Some(i) => i,
        None => 0,
    }
}

/// The entry a selection list starts on: the first one equal to `current`, else the first entry.
pub fn default_index(items: &Vec<String>, current: &str) -> (res: usize)
    ensures
        res == spec_default_index(string_views(items@), current@),
        items@.len() > 0 ==> res < items@.len(),
{
    match position_of(items, current) {
        Some(i) => i,
        None => 0,
    }
}

/// A selection list starts on an entry equal to `current` with no equal entry
/// before it; when no entry equals `current`, it starts on the first entry.
pub proof fn lemma_default_index_starts_on_current(items: Seq<Seq<char>>, current: Seq<char>)
    ensures
        items.contains(current) ==> {
            &&& 0 <= spec_default_index(items, current) < items.len()
            &&& items[spec_default_index(items, current)] == current
            &&& forall|j: int| 0 <= j < spec_default_index(items, current) ==> #[trigger] items[j] != current
        },
        !items.contains(current) ==> spec_default_index(items, current) == 0,
{
    lemma_first_index(items, current, 0);
}

} // verus!
