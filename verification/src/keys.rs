//! Facts about the order in which a `BTreeMap` with integer keys is walked.

use vstd::laws_cmp::obeys_cmp;
use vstd::prelude::*;
use vstd::std_specs::btree::{increasing_seq, key_obeys_cmp_spec};
use vstd::std_specs::cmp::OrdSpec;

verus! {

/// Whether the keys of a map of lines are compared as integers are.
pub open spec fn obeys_key_order() -> bool {
    obeys_cmp::<i128>() && key_obeys_cmp_spec::<i128>()
}

/// Integer keys are compared as integers are.
pub proof fn lemma_keys_are_ordered()
    ensures
        obeys_key_order(),
{
}

/// Whether each key is smaller than the one after it.
pub open spec fn rising(keys: Seq<i128>) -> bool {
    forall|i: int, j: int| 0 <= i < j < keys.len() ==> keys[i] < keys[j]
}

/// The keys of a map come out smallest first.
pub proof fn lemma_walk_is_rising(keys: Seq<i128>)
    requires
        increasing_seq(keys),
    ensures
        rising(keys),
{
    assert(obeys_cmp::<i128>());
    assert forall|i: int, j: int| 0 <= i < j < keys.len() implies keys[i] < keys[j] by {
        assert(keys[i].cmp_spec(&keys[j]) is Less);
    }
}

} // verus!
