use vstd::prelude::*;

verus! {

/// Stream ids kept in a vector with no repeats, read as a set.
pub open spec fn id_set(ids: Seq<usize>) -> Set<usize> {
    ids.to_set()
}

/// Whether `ids` holds `id`, by a scan.
pub fn contains_id(ids: &Vec<usize>, id: usize) -> (r: bool)
    ensures
        r == ids@.contains(id),
{
    let mut i: usize = 0;
    while i < ids.len()
        invariant
            i <= ids@.len(),
            forall|j: int| 0 <= j < i ==> ids@[j] != id,
        decreases ids@.len() - i,
    {
        if ids[i] == id {
            return true;
        }
        i = i + 1;
    }
    false
}

/// Adds `id` unless it is there already.
pub fn insert_id(ids: &mut Vec<usize>, id: usize)
    requires
        old(ids)@.no_duplicates(),
    ensures
        final(ids)@.no_duplicates(),
        final(ids)@.to_set() == old(ids)@.to_set().insert(id),
{
    if !contains_id(ids, id) {
        ids.push(id);
        proof {
            assert(final(ids)@ =~= old(ids)@.push(id));
            old(ids)@.lemma_push_to_set_commute(id);
        }
    } else {
        proof {
            assert(old(ids)@.to_set().insert(id) =~= old(ids)@.to_set());
        }
    }
}

/// Takes `id` out, if it is there.
pub fn remove_id(ids: &mut Vec<usize>, id: usize)
    requires
        old(ids)@.no_duplicates(),
    ensures
        final(ids)@.no_duplicates(),
        final(ids)@.to_set() == old(ids)@.to_set().remove(id),
{
    let mut i: usize = 0;
    while i < ids.len()
        invariant
            i <= ids@.len(),
            ids@ == old(ids)@,
            old(ids)@.no_duplicates(),
            forall|j: int| 0 <= j < i ==> ids@[j] != id,
        decreases ids@.len() - i,
    {
        if ids[i] == id {
            let ghost before = ids@;
            ids.remove(i);
            proof {
                assert(ids@ =~= before.remove(i as int));
                assert forall|a: int, b: int| 0 <= a < b < ids@.len() implies ids@[a] != ids@[b] by {
                    let a2 = if a < i { a } else { a + 1 };
                    let b2 = if b < i { b } else { b + 1 };
                    assert(before[a2] != before[b2]);
                }
                assert forall|x: usize| #[trigger] ids@.contains(x) <==> before.to_set().remove(id).contains(x) by {
                    if ids@.contains(x) {
                        let k = choose|k: int| 0 <= k < ids@.len() && ids@[k] == x;
                        let k2 = if k < i { k } else { k + 1 };
                        assert(before[k2] == x);
                        assert(k2 != i);
                        assert(before[i as int] == id);
                        assert(x != id);
                        assert(before.contains(x));
                    }
                    if before.to_set().remove(id).contains(x) {
                        let k = choose|k: int| 0 <= k < before.len() && before[k] == x;
                        if k < i {
                            assert(ids@[k] == x);
                        } else {
                            assert(k != i);
                            assert(ids@[k - 1] == x);
                        }
                    }
                }
                assert(ids@.to_set() =~= before.to_set().remove(id));
            }
            return;
        }
        i = i + 1;
    }
    proof {
        assert(old(ids)@.to_set().remove(id) =~= old(ids)@.to_set());
    }
}

} // verus!
