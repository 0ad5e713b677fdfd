//! Finding the first entry of a sequence that has a property.

use vstd::prelude::*;

verus! {

/// The index of the first `true` at or after `from`, if there is one.
pub open spec fn first_from(flags: Seq<bool>, from: int) -> Option<int>
    decreases flags.len() - from,
{
    if from < 0 || from >= flags.len() {
        None
    } else if flags[from] {
        Some(from)
    } else {
        first_from(flags, from + 1)
    }
}

/// The index of the first `true`, if there is one.
pub open spec fn first_true(flags: Seq<bool>) -> Option<int> {
    first_from(flags, 0)
}

/// The first `true` at or after `from` is `true`, and nothing between `from`
/// and it is; there is none exactly when nothing from `from` on is `true`.
pub proof fn lemma_first_from(flags: Seq<bool>, from: int)
    requires
        0 <= from,
    ensures
        match first_from(flags, from) {
            Some(index) => from <= index < flags.len() && flags[index] && forall|j: int|
                from <= j < index ==> !flags[j],
            None => forall|j: int| from <= j < flags.len() ==> !flags[j],
        },
    decreases flags.len() - from,
{
    if from < flags.len() && !flags[from] {
        lemma_first_from(flags, from + 1);
    }
}

} // verus!
