use std::collections::BTreeMap;
use std::marker::PhantomData;
use std::ops::Deref;

use vstd::prelude::*;
use vstd::std_specs::btree::spec_keys_iter;
use vstd::std_specs::cmp::OrdSpec;
use vstd::std_specs::iter::IteratorSpec;

use crate::idset::{contains_id, insert_id, remove_id};
pub use crate::registry::{registry_add, registry_drop};
use crate::registry::streams_under;
use crate::storage::{owned_item, Storage};

verus! {

broadcast use vstd::laws_cmp::group_laws_cmp;

/// The storages of one topic, one per key, made from a template on the first
/// insert under a key; and the streams that read each key, to be woken when
/// values arrive under it.
pub struct StorageManager<V, S: Storage<V>> {
    template: S,
    storages: BTreeMap<usize, S>,
    registry: BTreeMap<usize, Vec<usize>>,
    _marker: PhantomData<V>,
}

/// The storage a key gets on its first insert, or the one it has.
pub open spec fn storage_for<V, S: Storage<V>>(storages: Map<usize, S>, template: S, key: usize, fresh: S) -> bool {
    if storages.contains_key(key) {
        fresh == storages[key]
    } else {
        cloned(template, fresh)
    }
}

impl<V, S: Storage<V>> StorageManager<V, S> {
    /// The storage a new key starts from.
    pub closed spec fn template(&self) -> S {
        self.template
    }

    /// The storage of each key that has had an insert.
    pub closed spec fn storages(&self) -> Map<usize, S> {
        self.storages@
    }

    /// The stream ids that read each key.
    pub closed spec fn registry(&self) -> Map<usize, Set<usize>> {
        self.registry@.map_values(|ids: Vec<usize>| ids@.to_set())
    }

    pub closed spec fn wf(&self) -> bool {
        forall|k: usize| #[trigger] self.registry@.contains_key(k) ==> {
            &&& self.registry@[k]@.no_duplicates()
            &&& self.registry@[k]@.len() > 0
        }
    }

    /// No storages and no streams; the template is a clone of `storage`.
    pub fn new(storage: S) -> (r: Self)
        ensures
            r.wf(),
            cloned(storage, r.template()),
            r.storages() == Map::<usize, S>::empty(),
            r.registry() == Map::<usize, Set<usize>>::empty(),
    {
        let r = StorageManager {
            template: storage.clone(),
            storages: BTreeMap::new(),
            registry: BTreeMap::new(),
            _marker: PhantomData,
        };
        proof {
            assert(r.registry() =~= Map::<usize, Set<usize>>::empty());
        }
        r
    }

    /// A batch of inserts into this manager.
    pub fn scope(&mut self) -> (r: Scope<'_, V, S>)
        requires
            old(self).wf(),
        ensures
            r.wf(),
            r.manager() == *old(self),
            r.changed_keys() == Set::<usize>::empty(),
    {
        Scope::new(self)
    }

    /// Registers stream `stream_id` as a reader of `key`.
    pub fn new_stream(&mut self, key: usize, stream_id: usize)
        requires
            old(self).wf(),
        ensures
            final(self).wf(),
            final(self).registry() == registry_add(old(self).registry(), key, stream_id),
            final(self).storages() == old(self).storages(),
            final(self).template() == old(self).template(),
    {
        let ghost before = self.registry@;
        let mut ids = match self.registry.remove(&key) {
            Some(ids) => ids,
            None => Vec::new(),
        };
        proof {
            if !before.contains_key(key) {
                assert(ids@.to_set() =~= Set::<usize>::empty());
            }
        }
        insert_id(&mut ids, stream_id);
        proof {
            assert(ids@.to_set().contains(stream_id));
            if ids@.len() == 0 {
                assert(!ids@.contains(stream_id));
            }
            if !before.contains_key(key) {
                assert(ids@.to_set() =~= set![stream_id]);
            }
        }
        self.registry.insert(key, ids);
        proof {
            assert(self.registry() =~= registry_add(old(self).registry(), key, stream_id));
        }
    }

    /// Takes stream `stream_id` out of the readers of `key`; a key left with
    /// no reader goes.
    pub fn drop_stream(&mut self, key: usize, stream_id: usize)
        requires
            old(self).wf(),
        ensures
            final(self).wf(),
            final(self).registry() == registry_drop(old(self).registry(), key, stream_id),
            final(self).storages() == old(self).storages(),
            final(self).template() == old(self).template(),
    {
        let ghost before = self.registry@;
        match self.registry.remove(&key) {
            Some(mut ids) => {
                remove_id(&mut ids, stream_id);
                if ids.len() == 0 {
                    proof {
                        assert(ids@.to_set() =~= Set::<usize>::empty());
                        assert(self.registry() =~= registry_drop(old(self).registry(), key, stream_id));
                    }
                } else {
                    proof {
                        assert(ids@.to_set().contains(ids@[0]));
                    }
                    self.registry.insert(key, ids);
                    proof {
                        assert(self.registry() =~= registry_drop(old(self).registry(), key, stream_id));
                    }
                }
            },
            None => {
                proof {
                    assert(self.registry@ =~= before);
                }
            },
        }
    }

    /// The cursor a new reader of `key` starts from: its storage's, or 0
    /// when the key has had no insert.
    pub fn get_prev_cursor(&self, key: usize) -> (r: usize)
        ensures
            r == if self.storages().contains_key(key) {
                self.storages()[key].prev_cursor()
            } else {
                0
            },
    {
        match self.storages.get(&key) {
            Some(storage) => storage.get_prev_cursor(),
            None => 0,
        }
    }

    /// Moves stream `stream_id` from `stream_key` to `key`, and gives the
    /// cursor it starts from there.
    pub fn with_key(&mut self, stream_key: usize, key: usize, stream_id: usize) -> (r: usize)
        requires
            old(self).wf(),
        ensures
            final(self).wf(),
            final(self).registry() == registry_add(registry_drop(old(self).registry(), stream_key, stream_id), key, stream_id),
            final(self).storages() == old(self).storages(),
            final(self).template() == old(self).template(),
            r == if old(self).storages().contains_key(key) {
                old(self).storages()[key].prev_cursor()
            } else {
                0
            },
    {
        self.drop_stream(stream_key, stream_id);
        self.new_stream(key, stream_id);
        self.get_prev_cursor(key)
    }

    /// The value under `cursor` in the storage of `key`, and the cursor after it.
    pub fn get_item(&self, key: usize, cursor: usize) -> (r: Option<(&V, usize)>)
        requires
            self.storages().contains_key(key) ==> self.storages()[key].readable(cursor),
        ensures
            owned_item(r) == if self.storages().contains_key(key) {
                self.storages()[key].item_at(cursor)
            } else {
                None
            },
    {
        match self.storages.get(&key) {
            Some(storage) => storage.get_item(cursor),
            None => None,
        }
    }

    /// Whether stream `stream_id` reads `key`, so that its waker may be
    /// recorded.
    pub fn register(&self, key: usize, stream_id: usize) -> (r: bool)
        ensures
            r == (self.registry().contains_key(key) && self.registry()[key].contains(stream_id)),
    {
        match self.registry.get(&key) {
            Some(ids) => contains_id(ids, stream_id),
            None => false,
        }
    }

    /// How many values of `key` lie ahead of `cursor`; 0 for a key with no insert.
    pub fn size_hint_with(&self, key: usize, cursor: usize) -> (r: usize)
        requires
            self.storages().contains_key(key) ==> self.storages()[key].sizeable(cursor),
        ensures
            r == if self.storages().contains_key(key) {
                self.storages()[key].size_at(cursor)
            } else {
                0
            },
    {
        match self.storages.get(&key) {
            Some(storage) => storage.size_hint(cursor),
            None => 0,
        }
    }

    /// The keys that have readers, in increasing order.
    pub fn registry_keys(&self) -> (r: Vec<usize>)
        ensures
            r@.to_set() == self.registry().dom(),
            r@.no_duplicates(),
            forall|i: int, j: int| 0 <= i < j < r@.len() ==> r@[i] < r@[j],
    {
        let ghost ks = spec_keys_iter(&self.registry).remaining();
        let mut out: Vec<usize> = Vec::new();
        for k in it: self.registry.keys()
            invariant
                it.seq() == ks,
                out@.len() == it.index(),
                forall|i: int| 0 <= i < out@.len() ==> out@[i] == *ks[i],
        {
            out.push(*k);
        }
        proof {
            assert(out@ =~= ks.map_values(|k: &usize| *k));
            assert(ks.unref() =~= out@);
            assert(vstd::laws_cmp::obeys_cmp::<&usize>());
            vstd::std_specs::btree::axiom_increasing_seq_meaning(ks);
            assert forall|i: int, j: int| 0 <= i < j < out@.len() implies out@[i] < out@[j] by {
                assert(OrdSpec::cmp_spec(&ks[i], &ks[j]) is Less);
            }
            assert(self.registry().dom() =~= self.registry@.dom());
        }
        out
    }

    /// How many keys have readers.
    pub fn registry_len(&self) -> (r: usize)
        ensures
            r == self.registry().dom().len(),
    {
        proof {
            assert(self.registry().dom() =~= self.registry@.dom());
        }
        self.registry.len()
    }

    /// The readers of `key`.
    fn readers(&self, key: usize) -> (r: Vec<usize>)
        requires
            self.wf(),
        ensures
            r@.no_duplicates(),
            r@.to_set() == if self.registry().contains_key(key) {
                self.registry()[key]
            } else {
                Set::<usize>::empty()
            },
    {
        match self.registry.get(&key) {
            Some(ids) => ids.clone(),
            None => {
                let r: Vec<usize> = Vec::new();
                proof {
                    assert(r@.to_set() =~= Set::<usize>::empty());
                }
                r
            },
        }
    }

    /// Files `value` under `key`, in the storage of that key, made as a
    /// clone of the template on the key's first insert.
    pub fn insert_with(&mut self, key: usize, value: V)
        requires
            old(self).wf(),
        ensures
            final(self).wf(),
            final(self).registry() == old(self).registry(),
            final(self).template() == old(self).template(),
            final(self).storages().dom() == old(self).storages().dom().insert(key),
            final(self).storages().remove(key) == old(self).storages().remove(key),
            exists|fresh: S| {
                &&& storage_for(old(self).storages(), old(self).template(), key, fresh)
                &&& #[trigger] S::inserted(fresh, value, final(self).storages()[key])
            },
    {
        let ghost before = self.storages@;
        let mut storage = match self.storages.remove(&key) {
            Some(storage) => storage,
            None => self.template.clone(),
        };
        let ghost fresh = storage;
        storage.insert(value);
        self.storages.insert(key, storage);
        proof {
            assert(S::inserted(fresh, value, self.storages@[key]));
            assert(self.storages@.remove(key) =~= before.remove(key));
            assert(self.storages@.dom() =~= before.dom().insert(key));
        }
    }
}

/// A batch of inserts into a `StorageManager`; when it ends, the readers of
/// every key it inserted under are to be woken.
pub struct Scope<'a, V, S: Storage<V>> {
    manager: &'a mut StorageManager<V, S>,
    changed_keys: Vec<usize>,
}

impl<'a, V, S: Storage<V>> Deref for Scope<'a, V, S> {
    type Target = StorageManager<V, S>;

    /// The manager the batch inserts into.
    fn deref(&self) -> (r: &StorageManager<V, S>)
        ensures
            *r == self.manager(),
    {
        &*self.manager
    }
}

impl<'a, V, S: Storage<V>> Scope<'a, V, S> {
    pub closed spec fn manager(&self) -> StorageManager<V, S> {
        *self.manager
    }

    /// The keys inserted under so far.
    pub closed spec fn changed_keys(&self) -> Set<usize> {
        self.changed_keys@.to_set()
    }

    pub closed spec fn wf(&self) -> bool {
        &&& self.manager.wf()
        &&& self.changed_keys@.no_duplicates()
    }

    pub fn new(manager: &'a mut StorageManager<V, S>) -> (r: Self)
        requires
            old(manager).wf(),
        ensures
            r.wf(),
            r.manager() == *old(manager),
            r.changed_keys() == Set::<usize>::empty(),
    {
        let r = Scope { manager, changed_keys: Vec::new() };
        proof {
            assert(r.changed_keys() =~= Set::<usize>::empty());
        }
        r
    }

    /// Files `value` under key 0, the integer default.
    pub fn insert(&mut self, value: V)
        requires
            old(self).wf(),
        ensures
            final(self).wf(),
            final(self).changed_keys() == old(self).changed_keys().insert(0),
            final(self).manager().registry() == old(self).manager().registry(),
            final(self).manager().template() == old(self).manager().template(),
            final(self).manager().storages().dom() == old(self).manager().storages().dom().insert(0),
            final(self).manager().storages().remove(0) == old(self).manager().storages().remove(0),
            exists|fresh: S| {
                &&& storage_for(old(self).manager().storages(), old(self).manager().template(), 0, fresh)
                &&& #[trigger] S::inserted(fresh, value, final(self).manager().storages()[0])
            },
    {
        self.insert_with(0, value)
    }

    /// Files `value` under `key` and marks `key` changed.
    pub fn insert_with(&mut self, key: usize, value: V)
        requires
            old(self).wf(),
        ensures
            final(self).wf(),
            final(self).changed_keys() == old(self).changed_keys().insert(key),
            final(self).manager().registry() == old(self).manager().registry(),
            final(self).manager().template() == old(self).manager().template(),
            final(self).manager().storages().dom() == old(self).manager().storages().dom().insert(key),
            final(self).manager().storages().remove(key) == old(self).manager().storages().remove(key),
            exists|fresh: S| {
                &&& storage_for(old(self).manager().storages(), old(self).manager().template(), key, fresh)
                &&& #[trigger] S::inserted(fresh, value, final(self).manager().storages()[key])
            },
    {
        self.manager.insert_with(key, value);
        insert_id(&mut self.changed_keys, key);
    }

    /// Ends the batch: every (key, stream id) whose stream reads a key the
    /// batch inserted under, to be woken.
    pub fn finish(self) -> (woken: Vec<(usize, usize)>)
        requires
            self.wf(),
        ensures
            woken@.no_duplicates(),
            woken@.to_set() == streams_under(self.manager().registry(), self.changed_keys()),
    {
        let keys = self.changed_keys;
        let manager = self.manager;
        let ghost groups = manager.registry();
        let mut woken: Vec<(usize, usize)> = Vec::new();
        let mut i: usize = 0;
        while i < keys.len()
            invariant
                manager.wf(),
                manager.registry() == groups,
                keys@.no_duplicates(),
                i <= keys@.len(),
                woken@.no_duplicates(),
                woken@.to_set() == streams_under(groups, keys@.subrange(0, i as int).to_set()),
                forall|j: int| 0 <= j < woken@.len() ==> keys@.subrange(0, i as int).contains(#[trigger] woken@[j].0),
            decreases keys@.len() - i,
        {
            let key = keys[i];
            let ghost before = woken@;
            let ids = manager.readers(key);
            let mut j: usize = 0;
            while j < ids.len()
                invariant
                    0 <= i < keys@.len(),
                    key == keys@[i as int],
                    keys@.no_duplicates(),
                    j <= ids@.len(),
                    ids@.no_duplicates(),
                    woken@.no_duplicates(),
                    woken@ == before + Seq::new(j as nat, |t: int| (key, ids@[t])),
                    forall|t: int| 0 <= t < before.len() ==> keys@.subrange(0, i as int).contains(#[trigger] before[t].0),
                decreases ids@.len() - j,
            {
                proof {
                    assert forall|t: int| 0 <= t < woken@.len() implies woken@[t] != (key, ids@[j as int]) by {
                        if t < before.len() {
                            assert(keys@.subrange(0, i as int).contains(before[t].0));
                            let u = choose|u: int| 0 <= u < i && keys@.subrange(0, i as int)[u] == before[t].0;
                            assert(keys@[u] == before[t].0);
                        } else {
                            assert(woken@[t] == (key, ids@[t - before.len()]));
                        }
                    }
                }
                woken.push((key, ids[j]));
                proof {
                    assert(woken@ =~= before + Seq::new((j + 1) as nat, |t: int| (key, ids@[t])));
                }
                j = j + 1;
            }
            proof {
                let s = keys@.subrange(0, i as int).to_set();
                let s2 = keys@.subrange(0, i + 1).to_set();
                assert(keys@.subrange(0, i + 1) =~= keys@.subrange(0, i as int).push(key));
                keys@.subrange(0, i as int).lemma_push_to_set_commute(key);
                assert forall|p: (usize, usize)| #[trigger] woken@.to_set().contains(p) <==> streams_under(groups, s2).contains(p) by {
                    if woken@.to_set().contains(p) {
                        let t = choose|t: int| 0 <= t < woken@.len() && woken@[t] == p;
                        if t < before.len() {
                            assert(before.to_set().contains(p));
                        } else {
                            assert(p == (key, ids@[t - before.len()]));
                            assert(ids@.to_set().contains(p.1));
                        }
                    }
                    if streams_under(groups, s2).contains(p) {
                        if p.0 == key {
                            assert(ids@.to_set().contains(p.1));
                            let u = choose|u: int| 0 <= u < ids@.len() && ids@[u] == p.1;
                            assert(woken@[before.len() + u] == p);
                        } else {
                            assert(s.contains(p.0));
                            assert(before.to_set().contains(p));
                            let t = choose|t: int| 0 <= t < before.len() && before[t] == p;
                            assert(woken@[t] == p);
                        }
                    }
                }
                assert(woken@.to_set() =~= streams_under(groups, s2));
                assert forall|t: int| 0 <= t < woken@.len() implies keys@.subrange(0, i + 1).contains(#[trigger] woken@[t].0) by {
                    if t < before.len() {
                        let u = choose|u: int| 0 <= u < i && keys@.subrange(0, i as int)[u] == before[t].0;
                        assert(keys@.subrange(0, i + 1)[u] == before[t].0);
                    } else {
                        assert(keys@.subrange(0, i + 1)[i as int] == key);
                    }
                }
            }
            i = i + 1;
        }
        proof {
            assert(keys@.subrange(0, keys@.len() as int) =~= keys@);
        }
        woken
    }
}

} // verus!
