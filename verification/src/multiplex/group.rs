use std::collections::hash_map::DefaultHasher;
use std::hash::{Hash, Hasher};

use vstd::prelude::*;

use crate::multiplex::flow::group_count;
use crate::storage::Storage;
use crate::storages::manager::StorageManager;

verus! {

/// The keys of `keys` whose hash, parallel in `hashes`, falls to group
/// `index` of `group_size` groups, in order.
pub open spec fn group_keys(keys: Seq<usize>, hashes: Seq<u64>, group_size: usize, index: usize) -> Seq<usize>
    decreases keys.len(),
{
    if keys.len() == 0 || hashes.len() != keys.len() {
        Seq::empty()
    } else {
        let rest = group_keys(keys.drop_last(), hashes.drop_last(), group_size, index);
        if (hashes.last() as usize) % group_size == index {
            rest.push(keys.last())
        } else {
            rest
        }
    }
}

/// What a group has to stop and to start: the keys of `current` that are
/// not the group's, and the group's keys that are not in `current`.
pub open spec fn split(current: Seq<usize>, group: Seq<usize>) -> (Seq<usize>, Seq<usize>) {
    (current.filter(|c: usize| !group.contains(c)), group.filter(|g: usize| !current.contains(g)))
}

/// The keys of `items` that are not in `excluded`, in order.
fn filter_out(items: &Vec<usize>, excluded: &Vec<usize>) -> (r: Vec<usize>)
    ensures
        r@ == items@.filter(|x: usize| !excluded@.contains(x)),
{
    let ghost pred = |x: usize| !excluded@.contains(x);
    let mut r: Vec<usize> = Vec::new();
    let mut i: usize = 0;
    while i < items.len()
        invariant
            i <= items@.len(),
            pred == (|x: usize| !excluded@.contains(x)),
            r@ == items@.take(i as int).filter(pred),
        decreases items@.len() - i,
    {
        let x = items[i];
        proof {
            assert(items@.take(i + 1).drop_last() =~= items@.take(i as int));
            reveal(Seq::filter);
        }
        if !crate::idset::contains_id(excluded, x) {
            r.push(x);
        }
        i = i + 1;
    }
    proof {
        assert(items@.take(items@.len() as int) =~= items@);
    }
    r
}

/// Writes `key` into `hasher` by `<usize as Hash>::hash`. That writes the
/// key's bytes in the machine's own byte order, so the state it leaves is
/// not stated.
#[verifier::external_body]
fn write_key(key: usize, hasher: &mut DefaultHasher) {
    key.hash(hasher)
}

/// The hash by which a key is placed in a group. It rests on the machine's
/// byte order, so it is not stated.
fn hash_key(key: usize) -> u64 {
    let mut hasher = DefaultHasher::new();
    write_key(key, &mut hasher);
    hasher.finish()
}

/// One of the groups that share the registered keys of a storage manager:
/// group `index` takes the keys whose hash falls to it.
pub struct FlowGroup {
    index: usize,
    max_load: usize,
}

impl FlowGroup {
    pub closed spec fn index(&self) -> usize {
        self.index
    }

    pub closed spec fn max_load(&self) -> usize {
        self.max_load
    }

    /// The most keys a group takes.
    pub fn max_load_of(&self) -> (r: usize)
        ensures
            r == self.max_load(),
    {
        self.max_load
    }

    pub fn new(index: usize, max_load: usize) -> (r: Self)
        ensures
            r.index() == index,
            r.max_load() == max_load,
    {
        FlowGroup { index, max_load }
    }

    /// The keys of `keys` that fall to this group, given each key's hash.
    pub fn select(&self, keys: &Vec<usize>, hashes: &Vec<u64>) -> (r: Vec<usize>)
        requires
            self.max_load() > 0,
            keys@.len() / (self.max_load() as nat) < usize::MAX,
            keys@.len() == hashes@.len(),
        ensures
            r@ == group_keys(keys@, hashes@, (#[verifier::truncate] ((keys@.len() / (self.max_load() as nat) + 1) as usize)), self.index()),
    {
        let group_size = keys.len() / self.max_load + 1;
        let mut r: Vec<usize> = Vec::new();
        let mut i: usize = 0;
        while i < keys.len()
            invariant
                i <= keys@.len(),
                keys@.len() == hashes@.len(),
                group_size == keys@.len() / self.max_load() as nat + 1,
                group_size > 0,
                r@ == group_keys(keys@.take(i as int), hashes@.take(i as int), group_size, self.index()),
            decreases keys@.len() - i,
        {
            proof {
                assert(keys@.take(i + 1).drop_last() =~= keys@.take(i as int));
                assert(hashes@.take(i + 1).drop_last() =~= hashes@.take(i as int));
            }
            if (#[verifier::truncate] (hashes[i] as usize)) % group_size == self.index {
                r.push(keys[i]);
            }
            i = i + 1;
        }
        proof {
            assert(keys@.take(keys@.len() as int) =~= keys@);
            assert(hashes@.take(hashes@.len() as int) =~= hashes@);
        }
        r
    }

    /// Given each registered key's hash: the keys of `current` this group
    /// is to stop, and the keys it is to start.
    pub fn partition(&self, keys: &Vec<usize>, hashes: &Vec<u64>, current: &Vec<usize>) -> (r: (Vec<usize>, Vec<usize>))
        requires
            self.max_load() > 0,
            keys@.len() / (self.max_load() as nat) < usize::MAX,
            keys@.len() == hashes@.len(),
        ensures
            (r.0@, r.1@) == split(
                current@,
                group_keys(keys@, hashes@, (#[verifier::truncate] ((keys@.len() / (self.max_load() as nat) + 1) as usize)), self.index()),
            ),
    {
        let group = self.select(keys, hashes);
        let removing = filter_out(current, &group);
        let adding = filter_out(&group, current);
        (removing, adding)
    }

    /// The keys of `current` this group is to stop and the keys it is to
    /// start, by the readers registered in `manager` and the keys' hashes.
    pub fn difference<V, S: Storage<V>>(&self, manager: &StorageManager<V, S>, current: &Vec<usize>) -> (r: (Vec<usize>, Vec<usize>))
        requires
            self.max_load() > 0,
            manager.registry().dom().len() / (self.max_load() as nat) < usize::MAX,
        ensures
            exists|keys: Seq<usize>, hashes: Seq<u64>| {
                &&& keys.to_set() == manager.registry().dom()
                &&& keys.no_duplicates()
                &&& (forall|i: int, j: int| 0 <= i < j < keys.len() ==> keys[i] < keys[j])
                &&& hashes.len() == keys.len()
                &&& #[trigger] split(
                    current@,
                    group_keys(keys, hashes, (#[verifier::truncate] ((keys.len() / (self.max_load() as nat) + 1) as usize)), self.index()),
                ) == (r.0@, r.1@)
            },
    {
        let keys = manager.registry_keys();
        let mut hashes: Vec<u64> = Vec::new();
        let mut i: usize = 0;
        while i < keys.len()
            invariant
                i <= keys@.len(),
                hashes@.len() == i,
            decreases keys@.len() - i,
        {
            hashes.push(hash_key(keys[i]));
            i = i + 1;
        }
        proof {
            keys@.unique_seq_to_set();
        }
        let r = self.partition(&keys, &hashes, current);
        proof {
            assert(split(
                current@,
                group_keys(keys@, hashes@, (#[verifier::truncate] ((keys@.len() / (self.max_load() as nat) + 1) as usize)), self.index()),
            ) == (r.0@, r.1@));
        }
        r
    }
}

} // verus!

verus! {

/// A key is in a group exactly when its hash falls to that group.
pub proof fn lemma_group_members(keys: Seq<usize>, hashes: Seq<u64>, group_size: usize, index: usize, x: usize)
    requires
        keys.len() == hashes.len(),
    ensures
        group_keys(keys, hashes, group_size, index).contains(x) <==> exists|t: int|
            0 <= t < keys.len() && keys[t] == x && (hashes[t] as usize) % group_size == index,
    decreases keys.len(),
{
    if keys.len() > 0 {
        let k2 = keys.drop_last();
        let h2 = hashes.drop_last();
        lemma_group_members(k2, h2, group_size, index, x);
        let rest = group_keys(k2, h2, group_size, index);
        let last = keys.len() - 1;
        let falls = (hashes[last] as usize) % group_size == index;
        assert(hashes.last() == hashes[last]);
        assert(keys.last() == keys[last]);
        assert(group_keys(keys, hashes, group_size, index) == if falls {
            rest.push(keys[last])
        } else {
            rest
        });
        if group_keys(keys, hashes, group_size, index).contains(x) {
            if rest.contains(x) {
                let t = choose|t: int| 0 <= t < k2.len() && k2[t] == x && (h2[t] as usize) % group_size == index;
                assert(keys[t] == x && hashes[t] == h2[t]);
            } else {
                let u = choose|u: int| 0 <= u < rest.push(keys[last]).len() && rest.push(keys[last])[u] == x;
                assert(u == rest.len());
                assert(keys[last] == x && falls);
            }
        }
        if exists|t: int| 0 <= t < keys.len() && keys[t] == x && (hashes[t] as usize) % group_size == index {
            let t = choose|t: int| 0 <= t < keys.len() && keys[t] == x && (hashes[t] as usize) % group_size == index;
            if t < last {
                assert(k2[t] == x && h2[t] == hashes[t]);
                assert(rest.contains(x));
                if falls {
                    let u = choose|u: int| 0 <= u < rest.len() && rest[u] == x;
                    assert(rest.push(keys[last])[u] == x);
                }
            } else {
                assert(falls);
                assert(rest.push(keys[last])[rest.len() as int] == x);
            }
        }
    }
}

/// The groups share the registered keys out: every key falls to exactly one
/// group, the one its hash picks, when no key is registered twice.
pub proof fn lemma_groups_partition(keys: Seq<usize>, hashes: Seq<u64>, group_size: usize, i: usize, j: usize, x: usize)
    requires
        keys.len() == hashes.len(),
        keys.no_duplicates(),
        group_size > 0,
        keys.contains(x),
    ensures
        exists|g: usize| g < group_size && #[trigger] group_keys(keys, hashes, group_size, g).contains(x),
        group_keys(keys, hashes, group_size, i).contains(x) && group_keys(keys, hashes, group_size, j).contains(x) ==> i == j,
{
    let t = choose|t: int| 0 <= t < keys.len() && keys[t] == x;
    let g = (hashes[t] as usize) % group_size;
    lemma_group_members(keys, hashes, group_size, g, x);
    assert(group_keys(keys, hashes, group_size, g).contains(x));
    lemma_group_members(keys, hashes, group_size, i, x);
    lemma_group_members(keys, hashes, group_size, j, x);
    if group_keys(keys, hashes, group_size, i).contains(x) && group_keys(keys, hashes, group_size, j).contains(x) {
        let ti = choose|u: int| 0 <= u < keys.len() && keys[u] == x && (hashes[u] as usize) % group_size == i;
        let tj = choose|u: int| 0 <= u < keys.len() && keys[u] == x && (hashes[u] as usize) % group_size == j;
        assert(ti == tj);
    }
}

/// Every group a registered key can fall to is running: with `keys` keys
/// and `max_load` keys a group, the group index that a key's hash picks
/// (its hash modulo `keys / max_load + 1`) is below the number of groups that
/// `Flow::refresh` keeps running for that many keys.
pub proof fn lemma_every_key_group_runs(keys: Seq<usize>, hashes: Seq<u64>, max_load: usize, g: usize, x: usize)
    requires
        keys.len() == hashes.len(),
        max_load > 0,
        keys.len() / (max_load as nat) < usize::MAX,
        group_keys(keys, hashes, (#[verifier::truncate] ((keys.len() / (max_load as nat) + 1) as usize)), g).contains(x),
    ensures
        keys.contains(x),
        g < keys.len() / (max_load as nat) + 1,
        g < group_count(keys.len(), max_load as nat),
{
    let group_size = (#[verifier::truncate] ((keys.len() / (max_load as nat) + 1) as usize));
    assert(group_size == keys.len() / (max_load as nat) + 1);
    lemma_group_members(keys, hashes, group_size, g, x);
    let t = choose|t: int| 0 <= t < keys.len() && keys[t] == x && (hashes[t] as usize) % group_size == g;
    assert(keys[t] == x);
}

/// After a group stops the keys `difference` says to stop and starts the
/// keys it says to start, it serves exactly its own keys; and it is never
/// told both to stop and to start one key.
pub proof fn lemma_split_reaches_group(current: Seq<usize>, group: Seq<usize>, x: usize)
    ensures
        ({
            let (removing, adding) = split(current, group);
            &&& (current.contains(x) && !removing.contains(x)) || adding.contains(x) <==> group.contains(x)
            &&& !(removing.contains(x) && adding.contains(x))
        }),
{
    let pr = |c: usize| !group.contains(c);
    let pa = |g: usize| !current.contains(g);
    let removing = current.filter(pr);
    let adding = group.filter(pa);
    assert(split(current, group) == (removing, adding));
    if removing.contains(x) {
        let t = choose|t: int| 0 <= t < removing.len() && removing[t] == x;
        current.lemma_filter_pred(pr, t);
        current.lemma_filter_contains_rev(pr, x);
    }
    if adding.contains(x) {
        let t = choose|t: int| 0 <= t < adding.len() && adding[t] == x;
        group.lemma_filter_pred(pa, t);
        group.lemma_filter_contains_rev(pa, x);
    }
    if current.contains(x) && !group.contains(x) {
        let u = choose|u: int| 0 <= u < current.len() && current[u] == x;
        current.lemma_filter_contains(pr, u);
    }
    if group.contains(x) && !current.contains(x) {
        let u = choose|u: int| 0 <= u < group.len() && group[u] == x;
        group.lemma_filter_contains(pa, u);
    }
}

} // verus!
