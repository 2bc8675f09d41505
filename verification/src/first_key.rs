//! The lowest key of a map keyed by height.

use vstd::prelude::*;
use std::collections::BTreeMap;
use vstd::std_specs::iter::IteratorSpec;
use vstd::std_specs::cmp::OrdSpec;

verus! {

broadcast use vstd::std_specs::btree::group_btree_axioms;

/// Heights, as keys of a `BTreeMap`, are ordered as integers are.
pub proof fn heights_ordered()
    ensures
        vstd::laws_cmp::obeys_cmp::<u32>(),
{
    broadcast use vstd::laws_cmp::group_laws_cmp;
}

/// The first key that the map's iterator yields, which is its lowest.
pub fn first_key<V>(m: &BTreeMap<u32, V>) -> (r: Option<u32>)
    ensures
        r is None ==> m@.dom().is_empty(),
        r matches Some(k) ==> m@.contains_key(k) && forall|j: u32| #[trigger]
            m@.contains_key(j) ==> k <= j,
{
    broadcast use vstd::laws_cmp::group_laws_cmp;

    let ghost keys = m.keys().remaining();
    for k in it: m.keys()
        invariant
            it.index() == 0,
            keys == m.keys().remaining(),
            keys.unref().to_set() == m@.dom(),
    {
        assert(it.seq() == keys);
        assert(m@.contains_key(*k)) by {
            assert(keys.unref().contains(*k));
        }
        assert forall|j: u32| m@.contains_key(j) implies *k <= j by {
            assert(keys.unref().to_set().contains(j));
            let i = choose|i: int| 0 <= i < keys.len() && keys.unref()[i] == j;
            if i > 0 {
                vstd::std_specs::btree::axiom_increasing_seq_meaning(keys);
                assert(OrdSpec::cmp_spec(&keys[0], &keys[i]) is Less);
            }
        }
        return Some(*k);
    }
    assert(keys.len() == 0);
    None
}

} // verus!
